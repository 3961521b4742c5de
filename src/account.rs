//! Password accounts: the four stored hash variants and sign-in.
use crate::ceremony::{ErrorKind, RepositoryError};
use crate::crypto::{Method, PasswordHandler};
use vstd::prelude::*;

verus! {

/// A new account as it is written to the repository: the password in the
/// clear and hashed in each of the four variants.
pub struct UserDTO<'a> {
    pub email: &'a str,
    pub name: &'a str,
    pub password_plain: &'a str,
    pub password_hashed: String,
    pub password_salted: String,
    pub password_peppered: String,
    pub password_salted_and_peppered: String,
}

impl<'a> UserDTO<'a> {
    pub fn new(email: &'a str, name: &'a str, password: &'a str, handler: &PasswordHandler) -> (r:
        Self)
        ensures
            r.email == email,
            r.name == name,
            r.password_plain == password,
            handler.is_hash_result(password@, Method::Hash, r.password_hashed@),
            handler.is_hash_result(password@, Method::Salt, r.password_salted@),
            handler.is_hash_result(password@, Method::Pepper, r.password_peppered@),
            handler.is_hash_result(
                password@,
                Method::SaltPepper,
                r.password_salted_and_peppered@,
            ),
    {
        Self {
            email,
            name,
            password_plain: password,
            password_hashed: handler.hash(password, Method::Hash),
            password_salted: handler.hash(password, Method::Salt),
            password_peppered: handler.hash(password, Method::Pepper),
            password_salted_and_peppered: handler.hash(password, Method::SaltPepper),
        }
    }
}

/// An account as read back from the repository.
pub struct User {
    pub id: i64,
    pub email: String,
    pub name: String,
    pub password_plain: String,
    pub password_hashed: String,
    pub password_salted: String,
    pub password_peppered: String,
    pub password_salted_and_peppered: String,
}

impl User {
    /// The variant that sign-in checks against: salted and peppered.
    pub fn password_hash(&self) -> (r: &str)
        ensures
            r@ == self.password_salted_and_peppered@,
    {
        self.password_salted_and_peppered.as_str()
    }
}

/// Signs in with `password` against the account found for a mail: an
/// unknown mail is `DoesNotExist`, a password that does not verify against
/// the salted and peppered hash is `AuthenticationFailure`.
pub fn sign_in(handler: &PasswordHandler, password: &str, found: Result<Option<User>, RepositoryError>) -> (r:
    Result<(), ErrorKind>)
    ensures
        r == match found {
            Ok(Some(user)) => if handler.verifies(
                password@,
                user.password_salted_and_peppered@,
                Method::SaltPepper,
            ) {
                Ok::<(), ErrorKind>(())
            } else {
                Err::<(), ErrorKind>(ErrorKind::AuthenticationFailure)
            },
            Ok(None) => Err::<(), ErrorKind>(ErrorKind::DoesNotExist),
            Err(_) => Err::<(), ErrorKind>(ErrorKind::InternalServerError),
        },
{
    match found {
        Ok(Some(user)) => {
            if handler.is_hash_of(password, user.password_hash(), Method::SaltPepper) {
                Ok(())
            } else {
                Err(ErrorKind::AuthenticationFailure)
            }
        },
        Ok(None) => Err(ErrorKind::DoesNotExist),
        Err(_) => Err(ErrorKind::InternalServerError),
    }
}

} // verus!
