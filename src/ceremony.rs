//! Start and finish of passkey registration and authentication: the
//! decisions between the repository, the WebAuthn engine and the stores of
//! pending state.
use crate::registry::PasskeyIdentity;
use crate::store::{taken, CeremonyStore};
use vstd::prelude::*;
use webauthn_rs::prelude::{
    AuthenticationResult, CreationChallengeResponse, CredentialID, DiscoverableAuthentication,
    DiscoverableKey, Passkey, PasskeyAuthentication,
    PasskeyRegistration, PublicKeyCredential, RegisterPublicKeyCredential,
    RequestChallengeResponse, Uuid, WebauthnError,
};
use webauthn_rs::Webauthn;

verus! {

#[verifier::external_type_specification]
#[verifier::external_body]
pub struct ExWebauthn(Webauthn);

#[verifier::external_type_specification]
#[verifier::external_body]
pub struct ExWebauthnError(WebauthnError);

#[verifier::external_type_specification]
#[verifier::external_body]
pub struct ExPasskey(Passkey);

#[verifier::external_type_specification]
#[verifier::external_body]
pub struct ExPasskeyRegistration(PasskeyRegistration);

#[verifier::external_type_specification]
#[verifier::external_body]
pub struct ExPasskeyAuthentication(PasskeyAuthentication);

#[verifier::external_type_specification]
#[verifier::external_body]
pub struct ExDiscoverableAuthentication(DiscoverableAuthentication);

#[verifier::external_type_specification]
#[verifier::external_body]
pub struct ExCreationChallengeResponse(CreationChallengeResponse);

#[verifier::external_type_specification]
#[verifier::external_body]
pub struct ExRequestChallengeResponse(RequestChallengeResponse);

#[verifier::external_type_specification]
#[verifier::external_body]
pub struct ExRegisterPublicKeyCredential(RegisterPublicKeyCredential);

#[verifier::external_type_specification]
#[verifier::external_body]
pub struct ExPublicKeyCredential(PublicKeyCredential);

#[verifier::external_type_specification]
#[verifier::external_body]
pub struct ExAuthenticationResult(AuthenticationResult);

/// How a ceremony request failed, as reported to the caller.
#[derive(Clone, Copy, Debug, PartialEq, Eq, Structural)]
pub enum ErrorKind {
    /// Duplicate account or duplicate credential id.
    AlreadyExists,
    /// The client's response did not verify.
    AuthenticationFailure,
    /// Unknown principal, or no pending ceremony state.
    DoesNotExist,
    /// Engine misconfiguration or repository failure.
    InternalServerError,
}

/// How a repository operation failed.
#[derive(Clone, Copy, Debug, PartialEq, Eq, Structural)]
pub enum RepositoryError {
    /// An insert collided with a unique key.
    UniqueViolation,
    /// Any other failure of the repository.
    Failure,
}

/// The state of a pending registration, with the identity to store along
/// with its first credential when the principal is new.
pub struct PendingRegistration {
    pub state: PasskeyRegistration,
    pub new_identity: Option<PasskeyIdentity>,
}

/// What the repository knows of the identity that starts a registration.
pub enum IdentityLookup {
    /// An identity exists for the mail, with its enrolled credential ids.
    Known { id: u128, credential_ids: Vec<Vec<u8>> },
    /// No identity exists for the mail yet.
    Unknown,
    /// The repository could not answer.
    Failed,
}

/// Relies on `Uuid::new_v4`: a fresh random 128-bit principal id.
#[verifier::external_body]
fn fresh_principal_id() -> (r: u128) {
    Uuid::new_v4().as_u128()
}

/// Relies on `Webauthn::start_passkey_registration`: a challenge and the
/// state needed to check its response, excluding the given credentials.
#[verifier::external_body]
fn begin_registration(
    engine: &Webauthn,
    id: u128,
    mail: &str,
    name: &str,
    excluded: Option<Vec<Vec<u8>>>,
) -> (r: Result<(CreationChallengeResponse, PasskeyRegistration), WebauthnError>) {
    let excluded = excluded.map(|ids| ids.into_iter().map(CredentialID::from).collect());
    engine.start_passkey_registration(Uuid::from_u128(id), mail, name, excluded)
}

/// The credential that a registration response proves against its state,
/// if it verifies.
pub uninterp spec fn registration_result(
    engine: Webauthn,
    response: RegisterPublicKeyCredential,
    state: PasskeyRegistration,
) -> Option<Passkey>;

/// An authentication response verifies against its state.
pub uninterp spec fn authentication_accepted(
    engine: Webauthn,
    response: PublicKeyCredential,
    state: PasskeyAuthentication,
) -> bool;

/// A username-less response verifies against its state and the credentials
/// of the principal it names.
pub uninterp spec fn discoverable_accepted(
    engine: Webauthn,
    response: PublicKeyCredential,
    state: DiscoverableAuthentication,
    credentials: Seq<Passkey>,
) -> bool;

/// The principal id that a username-less response carries as its user
/// handle, if it carries one.
pub uninterp spec fn named_principal(response: PublicKeyCredential) -> Option<u128>;

/// Relies on `Webauthn::finish_passkey_registration`: the credential that a
/// registration response proves, or the reason it does not verify. The
/// check reads only its arguments.
#[verifier::external_body]
fn complete_registration(
    engine: &Webauthn,
    response: &RegisterPublicKeyCredential,
    state: &PasskeyRegistration,
) -> (r: Result<Passkey, WebauthnError>)
    ensures
        match r {
            Ok(p) => registration_result(*engine, *response, *state) == Some(p),
            Err(_) => registration_result(*engine, *response, *state) is None,
        },
{
    engine.finish_passkey_registration(response, state)
}

/// Relies on `Webauthn::start_passkey_authentication`: a challenge limited to
/// the given credentials and the state needed to check its response.
#[verifier::external_body]
fn begin_authentication(engine: &Webauthn, credentials: &[Passkey]) -> (r: Result<
    (RequestChallengeResponse, PasskeyAuthentication),
    WebauthnError,
>) {
    engine.start_passkey_authentication(credentials)
}

/// Relies on `Webauthn::finish_passkey_authentication`: the result of
/// checking an authentication response against its state, which reads only
/// its arguments.
#[verifier::external_body]
fn complete_authentication(
    engine: &Webauthn,
    response: &PublicKeyCredential,
    state: &PasskeyAuthentication,
) -> (r: Result<AuthenticationResult, WebauthnError>)
    ensures
        r is Ok <==> authentication_accepted(*engine, *response, *state),
{
    engine.finish_passkey_authentication(response, state)
}

/// Relies on `Webauthn::start_discoverable_authentication`: a challenge open
/// to any credential and the state needed to check its response.
#[verifier::external_body]
fn begin_discoverable(engine: &Webauthn) -> (r: Result<
    (RequestChallengeResponse, DiscoverableAuthentication),
    WebauthnError,
>) {
    engine.start_discoverable_authentication()
}

/// Relies on `Webauthn::identify_discoverable_authentication`: the principal
/// id that a username-less response names, read from the response alone.
#[verifier::external_body]
fn identify_discoverable(engine: &Webauthn, response: &PublicKeyCredential) -> (r: Result<
    u128,
    WebauthnError,
>)
    ensures
        match r {
            Ok(id) => named_principal(*response) == Some(id),
            Err(_) => named_principal(*response) is None,
        },
{
    engine.identify_discoverable_authentication(response).map(|(id, _)| id.as_u128())
}

/// Relies on `Webauthn::finish_discoverable_authentication`: the result of
/// checking a username-less response against its state and the credentials
/// of the principal it names.
#[verifier::external_body]
fn complete_discoverable(
    engine: &Webauthn,
    response: &PublicKeyCredential,
    state: DiscoverableAuthentication,
    credentials: &[Passkey],
) -> (r: Result<AuthenticationResult, WebauthnError>)
    ensures
        r is Ok <==> discoverable_accepted(*engine, *response, state, credentials@),
{
    let keys: Vec<DiscoverableKey> = credentials.iter().map(DiscoverableKey::from).collect();
    engine.finish_discoverable_authentication(response, state, &keys)
}

/// The principal and exclusion list of a registration: the known identity
/// with its credentials, or `fresh` with none.
pub fn plan_registration(lookup: IdentityLookup, fresh: u128) -> (r: Result<
    (u128, Option<Vec<Vec<u8>>>),
    ErrorKind,
>)
    ensures
        match lookup {
            IdentityLookup::Known { id, credential_ids } => r == Ok::<
                (u128, Option<Vec<Vec<u8>>>),
                ErrorKind,
            >((id, Some(credential_ids))),
            IdentityLookup::Unknown => r == Ok::<(u128, Option<Vec<Vec<u8>>>), ErrorKind>(
                (fresh, None),
            ),
            IdentityLookup::Failed => r == Err::<(u128, Option<Vec<Vec<u8>>>), ErrorKind>(
                ErrorKind::InternalServerError,
            ),
        },
{
    match lookup {
        IdentityLookup::Known { id, credential_ids } => Ok((id, Some(credential_ids))),
        IdentityLookup::Unknown => Ok((fresh, None)),
        IdentityLookup::Failed => Err(ErrorKind::InternalServerError),
    }
}

/// Keeps the state of a ceremony that the engine began for `id` and hands
/// out its challenge; an engine failure leaves `store` as it was.
pub fn record_start<C, S, E>(store: &mut CeremonyStore<S>, id: u128, begun: Result<(C, S), E>) -> (r:
    Result<(u128, C), ErrorKind>)
    ensures
        match begun {
            Ok(p) => {
                &&& r == Ok::<(u128, C), ErrorKind>((id, p.0))
                &&& final(store)@ == old(store)@.insert(id, p.1)
            },
            Err(_) => {
                &&& r == Err::<(u128, C), ErrorKind>(ErrorKind::InternalServerError)
                &&& final(store)@ == old(store)@
            },
        },
{
    match begun {
        Ok((challenge, state)) => {
            store.put(id, state);
            Ok((id, challenge))
        },
        Err(_) => Err(ErrorKind::InternalServerError),
    }
}

/// What finishing a ceremony finds for `id` among the pending states `m`.
pub open spec fn claimed<S>(m: Map<u128, S>, id: u128) -> Result<S, ErrorKind> {
    match taken(m, id) {
        Some(s) => Ok(s),
        None => Err(ErrorKind::DoesNotExist),
    }
}

/// Takes the state pending for `id`; a missing state is `DoesNotExist`.
pub fn claim_state<S>(store: &mut CeremonyStore<S>, id: u128) -> (r: Result<S, ErrorKind>)
    ensures
        final(store)@ == old(store)@.remove(id),
        r == claimed(old(store)@, id),
{
    match store.take(id) {
        Some(state) => Ok(state),
        None => Err(ErrorKind::DoesNotExist),
    }
}

/// A failed verification is an `AuthenticationFailure`, never anything else.
pub fn check_verification<K, E>(verified: Result<K, E>) -> (r: Result<K, ErrorKind>)
    ensures
        match verified {
            Ok(k) => r == Ok::<K, ErrorKind>(k),
            Err(_) => r == Err::<K, ErrorKind>(ErrorKind::AuthenticationFailure),
        },
{
    match verified {
        Ok(k) => Ok(k),
        Err(_) => Err(ErrorKind::AuthenticationFailure),
    }
}

/// The result of a repository read: any failure is internal.
pub fn read_outcome<V>(read: Result<V, RepositoryError>) -> (r: Result<V, ErrorKind>)
    ensures
        match read {
            Ok(v) => r == Ok::<V, ErrorKind>(v),
            Err(_) => r == Err::<V, ErrorKind>(ErrorKind::InternalServerError),
        },
{
    match read {
        Ok(v) => Ok(v),
        Err(_) => Err(ErrorKind::InternalServerError),
    }
}

/// The result of an insert into the repository: a duplicate key (account
/// mail or credential id) is `AlreadyExists`, any other failure internal.
pub fn insert_outcome(stored: Result<(), RepositoryError>) -> (r: Result<(), ErrorKind>)
    ensures
        r == match stored {
            Ok(()) => Ok::<(), ErrorKind>(()),
            Err(RepositoryError::UniqueViolation) => Err::<(), ErrorKind>(
                ErrorKind::AlreadyExists,
            ),
            Err(RepositoryError::Failure) => Err::<(), ErrorKind>(
                ErrorKind::InternalServerError,
            ),
        },
{
    match stored {
        Ok(()) => Ok(()),
        Err(RepositoryError::UniqueViolation) => Err(ErrorKind::AlreadyExists),
        Err(RepositoryError::Failure) => Err(ErrorKind::InternalServerError),
    }
}

/// The principal that an authentication starts for: an unknown mail is
/// `DoesNotExist`, a failed lookup internal.
pub fn authentication_principal(found: Result<Option<u128>, RepositoryError>) -> (r: Result<
    u128,
    ErrorKind,
>)
    ensures
        r == match found {
            Ok(Some(id)) => Ok::<u128, ErrorKind>(id),
            Ok(None) => Err::<u128, ErrorKind>(ErrorKind::DoesNotExist),
            Err(_) => Err::<u128, ErrorKind>(ErrorKind::InternalServerError),
        },
{
    match found {
        Ok(Some(id)) => Ok(id),
        Ok(None) => Err(ErrorKind::DoesNotExist),
        Err(_) => Err(ErrorKind::InternalServerError),
    }
}

/// Starts a registration for `mail`: an identity that exists keeps its id
/// and excludes its enrolled credentials, a new one gets a fresh id and is
/// kept, unstored, with the pending state. On success the engine's state is
/// pending for the returned id.
pub fn start_registration(
    engine: &Webauthn,
    store: &mut CeremonyStore<PendingRegistration>,
    mail: &str,
    name: &str,
    lookup: IdentityLookup,
) -> (r: Result<(u128, CreationChallengeResponse), ErrorKind>)
    ensures
        match r {
            Ok(p) => {
                &&& lookup is Known ==> p.0 == lookup->Known_id
                &&& !(lookup is Failed)
                &&& final(store)@.remove(p.0) == old(store)@.remove(p.0)
                &&& final(store)@.contains_key(p.0)
                &&& (lookup is Unknown) == (final(store)@[p.0].new_identity is Some)
                &&& final(store)@[p.0].new_identity is Some ==> {
                    let identity = final(store)@[p.0].new_identity->Some_0;
                    &&& identity.id == p.0
                    &&& identity.mail@ == mail@
                    &&& identity.name@ == name@
                }
            },
            Err(e) => {
                &&& e == ErrorKind::InternalServerError
                &&& final(store)@ == old(store)@
            },
        },
        lookup is Failed ==> r == Err::<(u128, CreationChallengeResponse), ErrorKind>(
            ErrorKind::InternalServerError,
        ),
{
    // Only an unknown identity draws an id; the plan ignores `fresh` otherwise.
    let fresh = match lookup {
        IdentityLookup::Unknown => fresh_principal_id(),
        _ => 0,
    };
    let new_identity = match lookup {
        IdentityLookup::Unknown => Some(
            PasskeyIdentity { id: fresh, mail: String::from_str(mail), name: String::from_str(name) },
        ),
        _ => None,
    };
    let (id, excluded) = match plan_registration(lookup, fresh) {
        Ok(plan) => plan,
        Err(e) => {
            return Err(e);
        },
    };
    let begun = match begin_registration(engine, id, mail, name, excluded) {
        Ok((challenge, state)) => Ok((challenge, PendingRegistration { state, new_identity })),
        Err(e) => Err(e),
    };
    let r = record_start(store, id, begun);
    proof {
        if r is Ok {
            assert(final(store)@.remove(id) =~= old(store)@.remove(id));
        }
    }
    r
}

/// Finishes the registration pending for `principal`. The pending state is
/// consumed whatever the outcome. On success the verified credential is
/// returned for storage, with the identity to store first when the
/// principal is new.
pub fn finish_registration(
    engine: &Webauthn,
    store: &mut CeremonyStore<PendingRegistration>,
    principal: u128,
    response: &RegisterPublicKeyCredential,
) -> (r: Result<(Passkey, Option<PasskeyIdentity>), ErrorKind>)
    ensures
        final(store)@ == old(store)@.remove(principal),
        !old(store)@.contains_key(principal) ==> r == Err::<
            (Passkey, Option<PasskeyIdentity>),
            ErrorKind,
        >(ErrorKind::DoesNotExist),
        old(store)@.contains_key(principal) ==> {
            let pending = old(store)@[principal];
            match registration_result(*engine, *response, pending.state) {
                Some(p) => r == Ok::<(Passkey, Option<PasskeyIdentity>), ErrorKind>(
                    (p, pending.new_identity),
                ),
                None => r == Err::<(Passkey, Option<PasskeyIdentity>), ErrorKind>(
                    ErrorKind::AuthenticationFailure,
                ),
            }
        },
{
    let pending = claim_state(store, principal)?;
    let passkey = check_verification(complete_registration(engine, response, &pending.state))?;
    Ok((passkey, pending.new_identity))
}

/// Starts an authentication for `principal` over its enrolled credentials.
/// On success the engine's state is pending for `principal`.
pub fn start_authentication(
    engine: &Webauthn,
    store: &mut CeremonyStore<PasskeyAuthentication>,
    principal: u128,
    credentials: Result<Vec<Passkey>, RepositoryError>,
) -> (r: Result<(u128, RequestChallengeResponse), ErrorKind>)
    ensures
        match r {
            Ok(p) => {
                &&& p.0 == principal
                &&& credentials is Ok
                &&& final(store)@.remove(principal) == old(store)@.remove(principal)
                &&& final(store)@.contains_key(principal)
            },
            Err(e) => {
                &&& e == ErrorKind::InternalServerError
                &&& final(store)@ == old(store)@
            },
        },
        credentials is Err ==> r == Err::<(u128, RequestChallengeResponse), ErrorKind>(
            ErrorKind::InternalServerError,
        ),
{
    let passkeys = read_outcome(credentials)?;
    let begun = begin_authentication(engine, passkeys.as_slice());
    let r = record_start(store, principal, begun);
    proof {
        if r is Ok {
            assert(final(store)@.remove(principal) =~= old(store)@.remove(principal));
        }
    }
    r
}

/// Finishes the authentication pending for `principal`. The pending state
/// is consumed whatever the outcome.
pub fn finish_authentication(
    engine: &Webauthn,
    store: &mut CeremonyStore<PasskeyAuthentication>,
    principal: u128,
    response: &PublicKeyCredential,
) -> (r: Result<(), ErrorKind>)
    ensures
        final(store)@ == old(store)@.remove(principal),
        !old(store)@.contains_key(principal) ==> r == Err::<(), ErrorKind>(
            ErrorKind::DoesNotExist,
        ),
        old(store)@.contains_key(principal) ==> r == if authentication_accepted(
            *engine,
            *response,
            old(store)@[principal],
        ) {
            Ok::<(), ErrorKind>(())
        } else {
            Err::<(), ErrorKind>(ErrorKind::AuthenticationFailure)
        },
{
    let state = claim_state(store, principal)?;
    let _result = check_verification(complete_authentication(engine, response, &state))?;
    Ok(())
}

/// Starts a username-less authentication. Its state is pending under a
/// fresh ceremony id, which the caller hands back when it finishes.
pub fn start_discoverable_authentication(
    engine: &Webauthn,
    store: &mut CeremonyStore<DiscoverableAuthentication>,
) -> (r: Result<(u128, RequestChallengeResponse), ErrorKind>)
    ensures
        match r {
            Ok(p) => {
                &&& final(store)@.remove(p.0) == old(store)@.remove(p.0)
                &&& final(store)@.contains_key(p.0)
            },
            Err(e) => {
                &&& e == ErrorKind::InternalServerError
                &&& final(store)@ == old(store)@
            },
        },
{
    let ceremony = fresh_principal_id();
    let begun = begin_discoverable(engine);
    let r = record_start(store, ceremony, begun);
    proof {
        if r is Ok {
            assert(final(store)@.remove(ceremony) =~= old(store)@.remove(ceremony));
        }
    }
    r
}

/// The principal that a username-less response names; a response that
/// names none is an `AuthenticationFailure`.
pub fn discoverable_principal(engine: &Webauthn, response: &PublicKeyCredential) -> (r: Result<
    u128,
    ErrorKind,
>)
    ensures
        r == match named_principal(*response) {
            Some(id) => Ok::<u128, ErrorKind>(id),
            None => Err::<u128, ErrorKind>(ErrorKind::AuthenticationFailure),
        },
{
    check_verification(identify_discoverable(engine, response))
}

/// Finishes the username-less authentication pending under `ceremony`,
/// against the credentials read for the principal that the response names.
/// The pending state is consumed whatever the outcome.
pub fn finish_discoverable_authentication(
    engine: &Webauthn,
    store: &mut CeremonyStore<DiscoverableAuthentication>,
    ceremony: u128,
    response: &PublicKeyCredential,
    credentials: Result<Vec<Passkey>, RepositoryError>,
) -> (r: Result<(), ErrorKind>)
    ensures
        final(store)@ == old(store)@.remove(ceremony),
        !old(store)@.contains_key(ceremony) <==> r == Err::<(), ErrorKind>(
            ErrorKind::DoesNotExist,
        ),
        old(store)@.contains_key(ceremony) && credentials is Err ==> r == Err::<(), ErrorKind>(
            ErrorKind::InternalServerError,
        ),
        old(store)@.contains_key(ceremony) && credentials is Ok ==> r == if discoverable_accepted(
            *engine,
            *response,
            old(store)@[ceremony],
            credentials->Ok_0@,
        ) {
            Ok::<(), ErrorKind>(())
        } else {
            Err::<(), ErrorKind>(ErrorKind::AuthenticationFailure)
        },
{
    let state = claim_state(store, ceremony)?;
    let passkeys = read_outcome(credentials)?;
    let _result = check_verification(
        complete_discoverable(engine, response, state, passkeys.as_slice()),
    )?;
    Ok(())
}

/// A finished ceremony cannot be finished again: after a finish has taken
/// the state of `id`, the next finish for `id` finds `DoesNotExist`, while
/// a state just stored is found once.
pub proof fn lemma_finish_is_single_use<S>(m: Map<u128, S>, id: u128, state: S)
    ensures
        claimed(m.remove(id), id) == Err::<S, ErrorKind>(ErrorKind::DoesNotExist),
        !m.remove(id).contains_key(id),
        claimed(m.insert(id, state), id) == Ok::<S, ErrorKind>(state),
{
}

} // verus!
