use vstd::prelude::*;

use argon2::{PasswordHasher, PasswordVerifier};

use crate::error::{AppError, AppResult};

verus! {

/// Whether argon2 accepts `password` against the encoded hash `hash`: none
/// when the hash does not parse.
pub uninterp spec fn argon2_accepts(password: Seq<char>, hash: Seq<char>) -> Option<bool>;

/// Relies on argon2's `PasswordHasher::hash_password` with `Argon2::default()`
/// and a salt from `SaltString::generate` over `rand::rngs::OsRng`: the encoded
/// hash, or none where hashing failed. The salt is random, so nothing is
/// promised of the text.
#[verifier::external_body]
fn argon2_hash(password: &str) -> (r: Option<String>) {
    let salt = argon2::password_hash::SaltString::generate(&mut rand::rngs::OsRng);
    match argon2::Argon2::default().hash_password(password.as_bytes(), &salt) {
        Ok(hash) => Some(hash.to_string()),
        Err(_) => None,
    }
}

/// Relies on argon2's `PasswordHash::new` and `PasswordVerifier::verify_password`
/// with `Argon2::default()`: whether the password matches the encoded hash,
/// or none where the hash does not parse. The outcome depends on the two
/// texts alone.
#[verifier::external_body]
fn argon2_verify(password: &str, hash: &str) -> (r: Option<bool>)
    ensures
        r == argon2_accepts(password@, hash@),
{
    match argon2::PasswordHash::new(hash) {
        Ok(parsed) => match argon2::Argon2::default().verify_password(password.as_bytes(), &parsed) {
            Ok(()) => Some(true),
            Err(_) => Some(false),
        },
        Err(_) => None,
    }
}

/// Password hashing for user accounts.
pub struct AuthService;

impl AuthService {
    /// An argon2 hash of the password, with a fresh random salt.
    pub fn hash_password(password: &str) -> (r: AppResult<String>)
        ensures
            r matches Err(e) ==> e is InternalError,
    {
        match argon2_hash(password) {
            Some(h) => Ok(h),
            None => Err(AppError::InternalError("could not hash the password".to_string())),
        }
    }

    /// Whether the password matches the stored hash; an error where the hash
    /// does not parse.
    pub fn check_password(password: &str, hash: &str) -> (r: AppResult<bool>)
        ensures
            match argon2_accepts(password@, hash@) {
                Some(b) => r == Ok::<bool, AppError>(b),
                None => r matches Err(e) && e is InternalError,
            },
    {
        match argon2_verify(password, hash) {
            Some(b) => Ok(b),
            None => Err(AppError::InternalError("invalid password hash".to_string())),
        }
    }
}

} // verus!
