//! An in-memory credential repository: passkey identities and the
//! credentials enrolled for them, each credential id owned once.
use crate::ceremony::{IdentityLookup, RepositoryError};
use vstd::prelude::*;

verus! {

/// A principal that can hold passkeys, one per mail.
pub struct PasskeyIdentity {
    pub id: u128,
    pub mail: String,
    pub name: String,
}

/// A public-key credential enrolled for `owner`.
pub struct EnrolledCredential<K> {
    pub credential_id: Vec<u8>,
    pub owner: u128,
    pub record: K,
}

/// Some credential in `creds` has the id `id`.
pub open spec fn has_credential_id<K>(creds: Seq<EnrolledCredential<K>>, id: Seq<u8>) -> bool {
    exists|i: int| 0 <= i < creds.len() && (#[trigger] creds[i]).credential_id@ == id
}

/// The records of the credentials of `owner`, in the order they were enrolled.
pub open spec fn records_of<K>(creds: Seq<EnrolledCredential<K>>, owner: u128) -> Seq<K>
    decreases creds.len(),
{
    if creds.len() == 0 {
        Seq::empty()
    } else {
        let rest = records_of(creds.drop_last(), owner);
        if creds.last().owner == owner {
            rest.push(creds.last().record)
        } else {
            rest
        }
    }
}

/// The ids of the credentials of `owner`, in the order they were enrolled.
pub open spec fn ids_of<K>(creds: Seq<EnrolledCredential<K>>, owner: u128) -> Seq<Seq<u8>>
    decreases creds.len(),
{
    if creds.len() == 0 {
        Seq::empty()
    } else {
        let rest = ids_of(creds.drop_last(), owner);
        if creds.last().owner == owner {
            rest.push(creds.last().credential_id@)
        } else {
            rest
        }
    }
}

/// Identities and enrolled credentials.
pub struct CredentialRegistry<K> {
    identities: Vec<PasskeyIdentity>,
    credentials: Vec<EnrolledCredential<K>>,
}

fn same_bytes(a: &Vec<u8>, b: &Vec<u8>) -> (r: bool)
    ensures
        r == (a@ == b@),
{
    if a.len() != b.len() {
        return false;
    }
    let mut i: usize = 0;
    while i < a.len()
        invariant
            a@.len() == b@.len(),
            i <= a@.len(),
            a@.take(i as int) == b@.take(i as int),
        decreases a@.len() - i,
    {
        if a[i] != b[i] {
            assert(a@.take(i as int + 1)[i as int] != b@.take(i as int + 1)[i as int]);
            return false;
        }
        assert(a@.take(i as int + 1) =~= a@.take(i as int).push(a@[i as int]));
        assert(b@.take(i as int + 1) =~= b@.take(i as int).push(b@[i as int]));
        i = i + 1;
    }
    assert(a@ =~= a@.take(i as int));
    assert(b@ =~= b@.take(i as int));
    true
}

fn copy_bytes(a: &Vec<u8>) -> (r: Vec<u8>)
    ensures
        r@ == a@,
{
    let mut out: Vec<u8> = Vec::new();
    let mut i: usize = 0;
    while i < a.len()
        invariant
            i <= a@.len(),
            out@ == a@.take(i as int),
        decreases a@.len() - i,
    {
        out.push(a[i]);
        assert(a@.take(i as int + 1) =~= a@.take(i as int).push(a@[i as int]));
        i = i + 1;
    }
    assert(a@ =~= a@.take(i as int));
    out
}

impl<K> CredentialRegistry<K> {
    pub closed spec fn identity_seq(&self) -> Seq<PasskeyIdentity> {
        self.identities@
    }

    pub closed spec fn credential_seq(&self) -> Seq<EnrolledCredential<K>> {
        self.credentials@
    }

    /// Mails and credential ids are each held once.
    pub open spec fn well_formed(&self) -> bool {
        &&& forall|i: int, j: int|
            0 <= i < j < self.identity_seq().len() ==> (#[trigger] self.identity_seq()[i]).mail@
                != (#[trigger] self.identity_seq()[j]).mail@
        &&& forall|i: int, j: int|
            0 <= i < j < self.credential_seq().len() ==> (
            #[trigger] self.credential_seq()[i]).credential_id@ != (
            #[trigger] self.credential_seq()[j]).credential_id@
    }

    pub fn new() -> (r: Self)
        ensures
            r.well_formed(),
            r.identity_seq() == Seq::<PasskeyIdentity>::empty(),
            r.credential_seq() == Seq::<EnrolledCredential<K>>::empty(),
    {
        Self { identities: Vec::new(), credentials: Vec::new() }
    }

    /// The identity registered for `mail`, if any.
    pub fn find_identity_by_mail(&self, mail: &str) -> (r: Option<&PasskeyIdentity>)
        ensures
            match r {
                Some(identity) => self.identity_seq().contains(*identity) && identity.mail@
                    == mail@,
                None => forall|i: int|
                    0 <= i < self.identity_seq().len() ==> (#[trigger] self.identity_seq()[i]).mail@
                        != mail@,
            },
    {
        let wanted = String::from_str(mail);
        let mut i: usize = 0;
        while i < self.identities.len()
            invariant
                i <= self.identities@.len(),
                wanted@ == mail@,
                forall|j: int| 0 <= j < i ==> (#[trigger] self.identities@[j]).mail@ != mail@,
            decreases self.identities@.len() - i,
        {
            if self.identities[i].mail == wanted {
                return Some(&self.identities[i]);
            }
            i = i + 1;
        }
        None
    }

    /// Adds an identity; a mail that is taken is a `UniqueViolation` and
    /// leaves the registry as it was.
    pub fn insert_identity(&mut self, identity: PasskeyIdentity) -> (r: Result<(), RepositoryError>)
        requires
            old(self).well_formed(),
        ensures
            final(self).well_formed(),
            final(self).credential_seq() == old(self).credential_seq(),
            (exists|i: int|
                0 <= i < old(self).identity_seq().len() && (#[trigger] old(
                    self,
                ).identity_seq()[i]).mail@ == identity.mail@) ==> {
                &&& r == Err::<(), RepositoryError>(RepositoryError::UniqueViolation)
                &&& final(self).identity_seq() == old(self).identity_seq()
            },
            !(exists|i: int|
                0 <= i < old(self).identity_seq().len() && (#[trigger] old(
                    self,
                ).identity_seq()[i]).mail@ == identity.mail@) ==> {
                &&& r == Ok::<(), RepositoryError>(())
                &&& final(self).identity_seq() == old(self).identity_seq().push(identity)
            },
    {
        if self.find_identity_by_mail(identity.mail.as_str()).is_some() {
            return Err(RepositoryError::UniqueViolation);
        }
        let ghost before = self.identities@;
        self.identities.push(identity);
        proof {
            assert forall|i: int, j: int|
                0 <= i < j < self.identities@.len() implies (#[trigger] self.identities@[i]).mail@
                != (#[trigger] self.identities@[j]).mail@ by {
                assert(self.identities@[i] == before[i]);
                if j < before.len() {
                    assert(self.identities@[j] == before[j]);
                    assert(old(self).identity_seq()[i] == before[i]);
                    assert(old(self).identity_seq()[j] == before[j]);
                }
            }
            assert(self.credential_seq() == old(self).credential_seq());
            assert(self.well_formed());
        }
        Ok(())
    }

    /// Enrolls a credential for `owner`; an id that is already enrolled, for
    /// any owner, is a `UniqueViolation` and leaves the registry as it was.
    pub fn insert_credential(&mut self, owner: u128, credential_id: Vec<u8>, record: K) -> (r:
        Result<(), RepositoryError>)
        requires
            old(self).well_formed(),
        ensures
            final(self).well_formed(),
            final(self).identity_seq() == old(self).identity_seq(),
            has_credential_id(old(self).credential_seq(), credential_id@) ==> {
                &&& r == Err::<(), RepositoryError>(RepositoryError::UniqueViolation)
                &&& final(self).credential_seq() == old(self).credential_seq()
            },
            !has_credential_id(old(self).credential_seq(), credential_id@) ==> {
                &&& r == Ok::<(), RepositoryError>(())
                &&& final(self).credential_seq() == old(self).credential_seq().push(
                    EnrolledCredential { credential_id, owner, record },
                )
            },
    {
        let mut i: usize = 0;
        while i < self.credentials.len()
            invariant
                self == old(self),
                old(self).well_formed(),
                i <= self.credentials@.len(),
                forall|j: int|
                    0 <= j < i ==> (#[trigger] self.credentials@[j]).credential_id@
                        != credential_id@,
            decreases self.credentials@.len() - i,
        {
            if same_bytes(&self.credentials[i].credential_id, &credential_id) {
                return Err(RepositoryError::UniqueViolation);
            }
            i = i + 1;
        }
        let ghost before = self.credentials@;
        let ghost id = credential_id@;
        self.credentials.push(EnrolledCredential { credential_id, owner, record });
        proof {
            assert forall|i: int, j: int|
                0 <= i < j < self.credentials@.len() implies (
                #[trigger] self.credentials@[i]).credential_id@ != (
                #[trigger] self.credentials@[j]).credential_id@ by {
                assert(self.credentials@[i] == before[i]);
                if j < before.len() {
                    assert(self.credentials@[j] == before[j]);
                    assert(old(self).credential_seq()[i] == before[i]);
                    assert(old(self).credential_seq()[j] == before[j]);
                } else {
                    assert(self.credentials@[j].credential_id@ == id);
                }
            }
            assert(self.identity_seq() == old(self).identity_seq());
            assert(self.well_formed());
        }
        Ok(())
    }

    /// The ids of the credentials enrolled for `owner`.
    pub fn list_credential_ids(&self, owner: u128) -> (r: Vec<Vec<u8>>)
        ensures
            r@.map_values(|v: Vec<u8>| v@) == ids_of(self.credential_seq(), owner),
    {
        let mut out: Vec<Vec<u8>> = Vec::new();
        let mut i: usize = 0;
        while i < self.credentials.len()
            invariant
                i <= self.credentials@.len(),
                out@.map_values(|v: Vec<u8>| v@) == ids_of(self.credentials@.take(i as int), owner),
            decreases self.credentials@.len() - i,
        {
            assert(self.credentials@.take(i as int + 1).drop_last() =~= self.credentials@.take(
                i as int,
            ));
            if self.credentials[i].owner == owner {
                let id = copy_bytes(&self.credentials[i].credential_id);
                out.push(id);
                assert(out@.map_values(|v: Vec<u8>| v@) =~= ids_of(
                    self.credentials@.take(i as int),
                    owner,
                ).push(id@));
            }
            i = i + 1;
        }
        assert(self.credentials@ =~= self.credentials@.take(i as int));
        out
    }

    /// The records of the credentials enrolled for `owner`.
    pub fn list_credentials(&self, owner: u128) -> (r: Vec<&K>)
        ensures
            r@.map_values(|k: &K| *k) == records_of(self.credential_seq(), owner),
    {
        let mut out: Vec<&K> = Vec::new();
        let mut i: usize = 0;
        while i < self.credentials.len()
            invariant
                i <= self.credentials@.len(),
                out@.map_values(|k: &K| *k) == records_of(self.credentials@.take(i as int), owner),
            decreases self.credentials@.len() - i,
        {
            assert(self.credentials@.take(i as int + 1).drop_last() =~= self.credentials@.take(
                i as int,
            ));
            if self.credentials[i].owner == owner {
                out.push(&self.credentials[i].record);
                assert(out@.map_values(|k: &K| *k) =~= records_of(
                    self.credentials@.take(i as int),
                    owner,
                ).push(self.credentials@[i as int].record));
            }
            i = i + 1;
        }
        assert(self.credentials@ =~= self.credentials@.take(i as int));
        out
    }

    /// What the registry knows of `mail` when a registration starts.
    pub fn identity_lookup(&self, mail: &str) -> (r: IdentityLookup)
        ensures
            match r {
                IdentityLookup::Known { id, credential_ids } => {
                    &&& exists|i: int|
                        0 <= i < self.identity_seq().len() && (#[trigger] self.identity_seq()[i]).mail@
                            == mail@ && self.identity_seq()[i].id == id
                    &&& credential_ids@.map_values(|v: Vec<u8>| v@) == ids_of(
                        self.credential_seq(),
                        id,
                    )
                },
                IdentityLookup::Unknown => forall|i: int|
                    0 <= i < self.identity_seq().len() ==> (#[trigger] self.identity_seq()[i]).mail@
                        != mail@,
                IdentityLookup::Failed => false,
            },
    {
        match self.find_identity_by_mail(mail) {
            Some(identity) => {
                let id = identity.id;
                IdentityLookup::Known { id, credential_ids: self.list_credential_ids(id) }
            },
            None => IdentityLookup::Unknown,
        }
    }
}

/// A credential just enrolled for `owner` is the last of its records, and
/// the credentials of every other principal are unchanged.
pub proof fn lemma_enrolled_credential_is_listed<K>(
    before: Seq<EnrolledCredential<K>>,
    credential: EnrolledCredential<K>,
    other: u128,
)
    requires
        other != credential.owner,
    ensures
        records_of(before.push(credential), credential.owner) == records_of(
            before,
            credential.owner,
        ).push(credential.record),
        ids_of(before.push(credential), credential.owner) == ids_of(
            before,
            credential.owner,
        ).push(credential.credential_id@),
        records_of(before.push(credential), other) == records_of(before, other),
        ids_of(before.push(credential), other) == ids_of(before, other),
{
    assert(before.push(credential).drop_last() =~= before);
}

/// Once a credential is enrolled its id is taken: enrolling the same id
/// again, for any owner, finds it.
pub proof fn lemma_enrolled_id_is_taken<K>(
    before: Seq<EnrolledCredential<K>>,
    credential: EnrolledCredential<K>,
)
    ensures
        has_credential_id(before.push(credential), credential.credential_id@),
{
    let after = before.push(credential);
    assert(after[before.len() as int] == credential);
}

} // verus!
