use vstd::prelude::*;

use argon2::password_hash::{PasswordHasher, SaltString};
use argon2::{Argon2, PasswordHash, PasswordVerifier};

use crate::error::ApiError;

verus! {

/// Whether a text is a well-formed PHC password-hash string.
pub uninterp spec fn phc_parses(hash: Seq<char>) -> bool;

/// Whether Argon2 accepts `password` against the PHC string `hash`.
pub uninterp spec fn argon2_accepts(password: Seq<char>, hash: Seq<char>) -> bool;

/// Relies on `PasswordHash::new`, which fails exactly on a text that is not
/// a PHC string, and on `PasswordVerifier::verify_password` of the default
/// `Argon2`, whose success depends on the password and the PHC string alone
/// (salt and parameters are read from the string).
#[verifier::external_body]
fn argon2_verify(password: &str, hash: &str) -> (r: Option<bool>)
    ensures
        r is None <==> !phc_parses(hash@),
        r matches Some(b) ==> b == argon2_accepts(password@, hash@),
{
    match PasswordHash::new(hash) {
        Err(_) => None,
        Ok(parsed) => Some(Argon2::default().verify_password(password.as_bytes(), &parsed).is_ok()),
    }
}

/// Relies on `SaltString::generate` over rand's `OsRng` and
/// `PasswordHasher::hash_password` of the default `Argon2`. The salt is
/// random, so the text itself is not promised; the PHC string written out
/// parses again, and Argon2 accepts the password against it.
#[verifier::external_body]
fn argon2_hash(password: &str) -> (r: Option<String>)
    ensures
        r matches Some(h) ==> phc_parses(h@) && argon2_accepts(password@, h@),
{
    let salt = SaltString::generate(&mut rand::rngs::OsRng);
    match Argon2::default().hash_password(password.as_bytes(), &salt) {
        Err(_) => None,
        Ok(h) => Some(h.to_string()),
    }
}

/// Maps the outcome of a password check: a stored hash that cannot be read
/// is an internal error, otherwise the check's answer.
pub fn verification_outcome(check: Option<bool>) -> (r: Result<bool, ApiError>)
    ensures
        r == (match check {
            None => Err(ApiError::InternalServerError),
            Some(b) => Ok(b),
        }),
{
    match check {
        None => Err(ApiError::InternalServerError),
        Some(b) => Ok(b),
    }
}

/// Hashes a password with Argon2 under a fresh random salt, as a PHC string
/// that the same password verifies against.
pub fn hash_password(password: &str) -> (r: Result<String, ApiError>)
    ensures
        r is Err ==> r == Err::<String, ApiError>(ApiError::InternalServerError),
        r matches Ok(h) ==> phc_parses(h@) && argon2_accepts(password@, h@),
{
    match argon2_hash(password) {
        None => Err(ApiError::InternalServerError),
        Some(h) => Ok(h),
    }
}

/// Checks a password against a stored PHC string: an unreadable hash is an
/// internal error, otherwise whether Argon2 accepts the password.
pub fn verify_password(password: String, hash: String) -> (r: Result<bool, ApiError>)
    ensures
        !phc_parses(hash@) ==> r == Err::<bool, ApiError>(ApiError::InternalServerError),
        phc_parses(hash@) ==> r == Ok::<bool, ApiError>(argon2_accepts(password@, hash@)),
{
    verification_outcome(argon2_verify(password.as_str(), hash.as_str()))
}

} // verus!
