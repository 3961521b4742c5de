use passkey_auth::crypto::{Method, PasswordHandler};

const PASSWORD_DIGEST: &str = "b109f3bbbc244eb82441917ed06d618b9008dd09b3befd1b5e07394c706a8bb980b1d7785e5976ec049b46df5f1326af5a2ea6d103fd07c95385ffab0cacbc86";
const PASSWORD_PEPPER_DIGEST: &str = "8da9f9c2244708caaff4d72ac65658d1423b659a774d4d5b4425e1fa06b13c3680612f46f3cd46fcde1ae513425372fccb980d0b4256b571c8bee66706e6aca6";
const EMPTY_DIGEST: &str = "cf83e1357eefb8bdf1542850d66d8007d620e4050b5715dc83f4a921d36ce9ce47d0d13c5d85f2b0ff8318d2877eec2f63b931bd47417a81a538327af927da3e";

fn handler() -> PasswordHandler {
    PasswordHandler::new(10, "Pepper".to_string())
}

#[test]
fn plain_hash_is_hex_sha512() {
    assert_eq!(handler().hash("password", Method::Hash), PASSWORD_DIGEST);
}

#[test]
fn plain_hash_of_empty_value() {
    assert_eq!(handler().hash("", Method::Hash), EMPTY_DIGEST);
}

#[test]
fn pepper_hash_appends_pepper() {
    assert_eq!(handler().hash("password", Method::Pepper), PASSWORD_PEPPER_DIGEST);
}

#[test]
fn hash_internal_puts_salt_before_separator() {
    let out = PasswordHandler::hash_internal("pass", Some("word"), None);
    assert_eq!(out, format!("word${}", PASSWORD_DIGEST));
    let out = PasswordHandler::hash_internal("pass", Some("word"), Some(""));
    assert_eq!(out, format!("word${}", PASSWORD_DIGEST));
    let out = PasswordHandler::hash_internal("password", None, Some("Pepper"));
    assert_eq!(out, PASSWORD_PEPPER_DIGEST);
}

#[test]
fn salted_hash_has_fresh_alphanumeric_salt() {
    let h = handler();
    let a = h.hash("password", Method::Salt);
    let b = h.hash("password", Method::Salt);
    assert_ne!(a, b);
    let (salt, digest) = a.split_once('$').unwrap();
    assert_eq!(salt.len(), 10);
    assert!(salt.chars().all(|c| c.is_ascii_alphanumeric()));
    assert_eq!(digest.len(), 128);
    assert_eq!(a, PasswordHandler::hash_internal("password", Some(salt), None));
}

#[test]
fn salted_hash_verifies() {
    let h = handler();
    for value in ["password", "", "with$dollar", "ünïcödé"] {
        let stored = h.hash(value, Method::Salt);
        assert!(h.is_hash_of(value, &stored, Method::Salt));
    }
}

#[test]
fn salt_pepper_hash_verifies_and_rejects_changed_value() {
    let h = handler();
    let stored = h.hash("password", Method::SaltPepper);
    assert!(h.is_hash_of("password", &stored, Method::SaltPepper));
    assert!(!h.is_hash_of("passwore", &stored, Method::SaltPepper));
    assert!(!h.is_hash_of("Password", &stored, Method::SaltPepper));
    assert!(!h.is_hash_of("password ", &stored, Method::SaltPepper));
}

#[test]
fn salt_pepper_depends_on_pepper() {
    let stored = handler().hash("password", Method::SaltPepper);
    let other = PasswordHandler::new(10, "Other".to_string());
    assert!(!other.is_hash_of("password", &stored, Method::SaltPepper));
}

#[test]
fn unsalted_methods_verify() {
    let h = handler();
    assert!(h.is_hash_of("password", PASSWORD_DIGEST, Method::Hash));
    assert!(h.is_hash_of("password", PASSWORD_PEPPER_DIGEST, Method::Pepper));
    assert!(!h.is_hash_of("password", PASSWORD_DIGEST, Method::Pepper));
    assert!(!h.is_hash_of("passw0rd", PASSWORD_DIGEST, Method::Hash));
}

#[test]
fn salted_verify_fails_without_separator() {
    let h = handler();
    assert!(!h.is_hash_of("password", PASSWORD_DIGEST, Method::Salt));
    assert!(!h.is_hash_of("", "", Method::Salt));
}

#[test]
fn salted_verify_splits_on_first_separator() {
    let h = handler();
    let stored = format!("ab${}", PasswordHandler::hash_internal("password", Some("ab"), None).split_once('$').unwrap().1);
    assert!(h.is_hash_of("password", &stored, Method::Salt));
    let tampered = format!("a$b${}", PASSWORD_DIGEST);
    assert!(!h.is_hash_of("password", &tampered, Method::Salt));
}

#[test]
fn zero_length_salt() {
    let h = PasswordHandler::new(0, String::new());
    let stored = h.hash("password", Method::Salt);
    assert_eq!(stored, format!("${}", PASSWORD_DIGEST));
    assert!(h.is_hash_of("password", &stored, Method::Salt));
}
