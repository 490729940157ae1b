//! Password digesting and verification, delegated to the Argon2id
//! implementation of the `argon2` crate (memory-hard, per-digest salt).

use vstd::prelude::*;
use vstd::string::*;
use crate::errors::AppError;
use argon2::password_hash::{PasswordHash, PasswordHasher, PasswordVerifier, SaltString};
use argon2::password_hash::rand_core::OsRng;

verus! {

/// What `Argon2::verify_password` returns: whether the password matches the
/// digest is a function of the two alone (the salt and parameters are part
/// of the digest string).
pub uninterp spec fn digest_matches(password: Seq<char>, digest: Seq<char>) -> bool;

/// Relies on `Argon2::hash_password` with default parameters and a fresh
/// OS-random salt: on success the produced PHC string verifies against the
/// same password under `Argon2::verify_password`.  The salt is random, so
/// nothing else is assumed of the digest.
#[verifier::external_body]
fn argon2_hash(password: &str) -> (r: Option<String>)
    ensures
        r matches Some(d) ==> digest_matches(password@, d@),
{
    let argon2 = argon2::Argon2::default();
    let salt = SaltString::generate(&mut OsRng);
    match PasswordHasher::hash_password(&argon2, password.as_bytes(), &salt) {
        Ok(h) => Some(h.to_string()),
        Err(_) => None,
    }
}

/// Relies on `PasswordHash::new` and `Argon2::verify_password`: parsing the
/// digest and re-deriving the key are deterministic in the password and the
/// digest string; an unparsable digest never matches.
#[verifier::external_body]
pub fn verify_password(password: &str, digest: &str) -> (r: bool)
    ensures
        r == digest_matches(password@, digest@),
{
    match PasswordHash::new(digest) {
        Ok(parsed) => PasswordVerifier::verify_password(
            &argon2::Argon2::default(),
            password.as_bytes(),
            &parsed,
        ).is_ok(),
        Err(_) => false,
    }
}

/// Derives a password digest; the result verifies against the password it
/// was derived from.  A failure of the hasher is reported as such.
pub fn hash_password(password: &str) -> (r: Result<String, AppError>)
    ensures
        r matches Ok(d) ==> digest_matches(password@, d@),
        r matches Err(e) ==> e is HashingError,
{
    match argon2_hash(password) {
        Some(d) => Ok(d),
        None => Err(AppError::HashingError("password hashing failed".to_owned())),
    }
}

} // verus!
