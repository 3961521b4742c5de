use passkey_auth::ceremony::{
    discoverable_principal, finish_authentication, finish_discoverable_authentication,
    finish_registration, start_authentication, start_discoverable_authentication, ErrorKind,
    RepositoryError,
};
use passkey_auth::store::CeremonyStore;
use webauthn_rs::prelude::{PublicKeyCredential, RegisterPublicKeyCredential, Url};
use webauthn_rs::{Webauthn, WebauthnBuilder};

fn engine() -> Webauthn {
    let origin = Url::parse("http://localhost").unwrap();
    WebauthnBuilder::new("localhost", &origin).unwrap().build().unwrap()
}

fn forged_assertion() -> PublicKeyCredential {
    serde_json::from_str(
        r#"{"id":"AAAA","rawId":"AAAA","response":{"authenticatorData":"AAAA","clientDataJSON":"AAAA","signature":"AAAA","userHandle":null},"type":"public-key"}"#,
    )
    .unwrap()
}

fn forged_attestation() -> RegisterPublicKeyCredential {
    serde_json::from_str(
        r#"{"id":"AAAA","rawId":"AAAA","response":{"attestationObject":"AAAA","clientDataJSON":"AAAA"},"type":"public-key"}"#,
    )
    .unwrap()
}

#[test]
fn finish_registration_without_start_does_not_exist() {
    let engine = engine();
    let mut store = CeremonyStore::new();
    let r = finish_registration(&engine, &mut store, 12, &forged_attestation());
    assert_eq!(r.err(), Some(ErrorKind::DoesNotExist));
}

#[test]
fn tampered_authentication_fails_and_leaves_nothing_pending() {
    let engine = engine();
    let mut store = CeremonyStore::new();
    let (id, _challenge) = start_authentication(&engine, &mut store, 21, Ok(vec![])).unwrap();
    assert_eq!(id, 21);
    assert!(store.is_pending(21));
    let r = finish_authentication(&engine, &mut store, 21, &forged_assertion());
    assert_eq!(r, Err(ErrorKind::AuthenticationFailure));
    assert!(!store.is_pending(21));
    let again = finish_authentication(&engine, &mut store, 21, &forged_assertion());
    assert_eq!(again, Err(ErrorKind::DoesNotExist));
}

#[test]
fn discoverable_ceremony_is_single_use() {
    let engine = engine();
    let mut store = CeremonyStore::new();
    let (ceremony, _challenge) = start_discoverable_authentication(&engine, &mut store).unwrap();
    assert!(store.is_pending(ceremony));
    let r = finish_discoverable_authentication(&engine, &mut store, ceremony, &forged_assertion(), Ok(vec![]));
    assert_eq!(r, Err(ErrorKind::AuthenticationFailure));
    assert!(!store.is_pending(ceremony));
    let again = finish_discoverable_authentication(&engine, &mut store, ceremony, &forged_assertion(), Ok(vec![]));
    assert_eq!(again, Err(ErrorKind::DoesNotExist));
}

#[test]
fn discoverable_read_failure_is_internal_and_consumes_state() {
    let engine = engine();
    let mut store = CeremonyStore::new();
    let (ceremony, _challenge) = start_discoverable_authentication(&engine, &mut store).unwrap();
    let r = finish_discoverable_authentication(
        &engine,
        &mut store,
        ceremony,
        &forged_assertion(),
        Err(RepositoryError::Failure),
    );
    assert_eq!(r, Err(ErrorKind::InternalServerError));
    assert!(!store.is_pending(ceremony));
}

#[test]
fn response_without_user_handle_names_no_principal() {
    let engine = engine();
    assert_eq!(discoverable_principal(&engine, &forged_assertion()), Err(ErrorKind::AuthenticationFailure));
}
