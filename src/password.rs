//! Salted, memory-hard password hashing with Argon2.
use argon2::password_hash::{PasswordHash, PasswordHasher, PasswordVerifier, SaltString};
use argon2::Argon2;
use rand_core::OsRng;
use vstd::prelude::*;
use vstd::string::StringSliceAdditionalSpecFns;

verus! {

/// Whether `stored` parses as a PHC-format password hash string.
pub uninterp spec fn phc_parses(stored: Seq<char>) -> bool;

/// Whether Argon2 accepts `password` against the parsed hash string `stored`.
pub uninterp spec fn argon2_accepts(password: Seq<u8>, stored: Seq<char>) -> bool;

/// The longest password, in bytes, that Argon2 hashes.
pub const MAX_PASSWORD_LEN: usize = 0xFFFF_FFFF;

/// Why a password could not be hashed or checked.
#[derive(Debug, Clone, Copy, PartialEq, Eq, Structural)]
pub enum HashingError {
    /// The hash function itself failed.
    CouldNotHash,
    /// The stored string is not a recognised hash encoding.
    MalformedHash,
}

/// What `hash_password` guarantees of a string that it returns for `password`.
pub open spec fn is_hash_of(password: Seq<u8>, stored: Seq<char>) -> bool {
    phc_parses(stored) && argon2_accepts(password, stored)
}

/// What `verify_password` returns for `password` against `stored`.
pub open spec fn verification_outcome(password: Seq<u8>, stored: Seq<char>) -> Result<bool, HashingError> {
    if phc_parses(stored) {
        Ok(argon2_accepts(password, stored))
    } else {
        Err(HashingError::MalformedHash)
    }
}

/// Relies on `SaltString::generate` over `OsRng` for a fresh random salt and on
/// `Argon2::hash_password`: the PHC string it encodes parses again and verifies
/// against the password it was made from. With a generated salt and default
/// parameters, hashing fails only for a password longer than `MAX_PWD_LEN`.
#[verifier::external_body]
fn argon2_hash(password: &[u8]) -> (r: Option<String>)
    ensures
        r matches Some(h) ==> phc_parses(h@) && argon2_accepts(password@, h@),
        password@.len() <= MAX_PASSWORD_LEN ==> r is Some,
{
    let salt = SaltString::generate(&mut OsRng);
    Argon2::default().hash_password(password, &salt).ok().map(|h| h.to_string())
}

/// Relies on `PasswordHash::new` to parse a PHC string and on
/// `Argon2::verify_password` to re-derive and compare the digest.
#[verifier::external_body]
fn argon2_verify(password: &[u8], stored: &str) -> (r: Option<bool>)
    ensures
        r == (if phc_parses(stored@) {
            Some(argon2_accepts(password@, stored@))
        } else {
            None::<bool>
        }),
{
    match PasswordHash::new(stored) {
        Ok(hash) => Some(Argon2::default().verify_password(password, &hash).is_ok()),
        Err(_) => None,
    }
}

/// Hashes `password` under a fresh random salt into a self-describing string.
pub fn hash_password(password: &str) -> (r: Result<String, HashingError>)
    ensures
        r matches Ok(h) ==> is_hash_of(password.spec_bytes(), h@),
        r matches Err(e) ==> e == HashingError::CouldNotHash,
        password.spec_bytes().len() <= MAX_PASSWORD_LEN ==> r is Ok,
{
    match argon2_hash(password.as_bytes()) {
        Some(h) => Ok(h),
        None => Err(HashingError::CouldNotHash),
    }
}

/// Checks `password` against the hash string `stored`, using the parameters
/// embedded in it.
pub fn verify_password(password: &str, stored: &str) -> (r: Result<bool, HashingError>)
    ensures
        r == verification_outcome(password.spec_bytes(), stored@),
{
    match argon2_verify(password.as_bytes(), stored) {
        Some(ok) => Ok(ok),
        None => Err(HashingError::MalformedHash),
    }
}

/// A hash made from a password verifies against that same password.
pub proof fn hashed_password_verifies(password: Seq<u8>, stored: Seq<char>)
    requires
        is_hash_of(password, stored),
    ensures
        verification_outcome(password, stored) == Ok::<bool, HashingError>(true),
{
}

} // verus!
