use vstd::prelude::*;
use crate::models::User;
use crate::password::{argon2_accepts, verify_password};

verus! {

/// The one outcome of a failed login. Unknown email and wrong password are
/// deliberately indistinguishable.
#[derive(Clone, Copy, Debug, PartialEq, Eq, Structural)]
pub enum AuthFailure {
    InvalidCredentials,
}

/// The login decision for the record found by email (if any) and the
/// submitted password.
pub open spec fn authenticated(found: Option<User>, password: Seq<char>) -> Result<User, AuthFailure> {
    match found {
        Some(u) => if argon2_accepts(u.password@, password) {
            Ok(u)
        } else {
            Err(AuthFailure::InvalidCredentials)
        },
        None => Err(AuthFailure::InvalidCredentials),
    }
}

/// Decides a login: the record looked up by email must exist and its hash
/// must accept the password. Success hands the record back.
pub fn authenticate_user(found: Option<User>, password: &str) -> (r: Result<User, AuthFailure>)
    ensures
        r == authenticated(found, password@),
{
    match found {
        Some(u) => {
            if verify_password(u.password.as_str(), password) {
                Ok(u)
            } else {
                Err(AuthFailure::InvalidCredentials)
            }
        },
        None => Err(AuthFailure::InvalidCredentials),
    }
}

/// An unknown email and a wrong password for a known one give the same value.
pub proof fn law_failures_indistinguishable(
    unknown_password: Seq<char>,
    known: User,
    wrong_password: Seq<char>,
)
    requires
        !argon2_accepts(known.password@, wrong_password),
    ensures
        authenticated(None, unknown_password) == authenticated(Some(known), wrong_password),
        authenticated(None, unknown_password) == Err::<User, AuthFailure>(
            AuthFailure::InvalidCredentials,
        ),
{
}

} // verus!
