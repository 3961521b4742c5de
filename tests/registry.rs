use passkey_auth::ceremony::{IdentityLookup, RepositoryError};
use passkey_auth::registry::{CredentialRegistry, PasskeyIdentity};

fn identity(id: u128, mail: &str, name: &str) -> PasskeyIdentity {
    PasskeyIdentity { id, mail: mail.to_string(), name: name.to_string() }
}

#[test]
fn duplicate_credential_id_keeps_original_owner() {
    let mut registry = CredentialRegistry::new();
    assert_eq!(registry.insert_credential(1, vec![7, 7], "first"), Ok(()));
    assert_eq!(registry.insert_credential(2, vec![7, 7], "second"), Err(RepositoryError::UniqueViolation));
    assert_eq!(registry.list_credentials(1), vec![&"first"]);
    assert!(registry.list_credentials(2).is_empty());
    assert!(registry.list_credential_ids(2).is_empty());
}

#[test]
fn credentials_are_listed_per_owner_in_order() {
    let mut registry = CredentialRegistry::new();
    registry.insert_credential(1, vec![1], 'a').unwrap();
    registry.insert_credential(2, vec![2], 'b').unwrap();
    registry.insert_credential(1, vec![3], 'c').unwrap();
    registry.insert_credential(1, vec![], 'd').unwrap();
    assert_eq!(registry.list_credentials(1), vec![&'a', &'c', &'d']);
    assert_eq!(registry.list_credential_ids(1), vec![vec![1], vec![3], vec![]]);
    assert_eq!(registry.list_credentials(2), vec![&'b']);
}

#[test]
fn one_identity_per_mail() {
    let mut registry: CredentialRegistry<u8> = CredentialRegistry::new();
    assert_eq!(registry.insert_identity(identity(1, "a@x.com", "A")), Ok(()));
    assert_eq!(registry.insert_identity(identity(2, "a@x.com", "B")), Err(RepositoryError::UniqueViolation));
    assert_eq!(registry.insert_identity(identity(3, "b@x.com", "B")), Ok(()));
    assert_eq!(registry.find_identity_by_mail("a@x.com").map(|i| i.id), Some(1));
    assert_eq!(registry.find_identity_by_mail("b@x.com").map(|i| i.name.as_str()), Some("B"));
    assert!(registry.find_identity_by_mail("c@x.com").is_none());
}

#[test]
fn identity_lookup_lists_enrolled_ids() {
    let mut registry = CredentialRegistry::new();
    registry.insert_identity(identity(5, "a@x.com", "A")).unwrap();
    registry.insert_credential(5, vec![4, 2], ()).unwrap();
    match registry.identity_lookup("a@x.com") {
        IdentityLookup::Known { id, credential_ids } => {
            assert_eq!(id, 5);
            assert_eq!(credential_ids, vec![vec![4, 2]]);
        }
        _ => panic!("identity should be known"),
    }
    assert!(matches!(registry.identity_lookup("z@x.com"), IdentityLookup::Unknown));
}
