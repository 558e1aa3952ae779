use vstd::prelude::*;
use crate::error::ApiError;
use argon2::password_hash::{PasswordHash, SaltString};
use argon2::{Argon2, PasswordHasher, PasswordVerifier};

verus! {

/// Whether a stored hash record parses as a PHC string.
pub uninterp spec fn well_formed_record(record: Seq<char>) -> bool;

/// Whether re-hashing `password` with the record's salt and parameters reproduces its output.
pub uninterp spec fn password_matches(password: Seq<char>, record: Seq<char>) -> bool;

/// Relies on `SaltString::generate` (fed by `rand::thread_rng`) and
/// `Argon2::default().hash_password`: a fresh salt each call; the record it encodes
/// parses, and verifying the same password against it recomputes the same output. With
/// a generated salt and default parameters it fails only on a password longer than
/// `u32::MAX` bytes (a char takes at most four).
#[verifier::external_body]
fn argon2_hash(password: &str) -> (r: Option<String>)
    ensures
        password@.len() <= 0x3FFFFFFF ==> r is Some,
        r matches Some(rec) ==> well_formed_record(rec@) && password_matches(password@, rec@),
{
    let salt = SaltString::generate(&mut rand::thread_rng());
    Argon2::default().hash_password(password.as_bytes(), &salt).ok().map(|h| h.to_string())
}

/// Relies on `PasswordHash::new`: whether the text is a well-formed PHC record.
#[verifier::external_body]
fn record_parses(record: &str) -> (r: bool)
    ensures
        r == well_formed_record(record@),
{
    PasswordHash::new(record).is_ok()
}

/// Relies on `Argon2::default().verify_password` on the parsed record.
#[verifier::external_body]
fn argon2_verify(password: &str, record: &str) -> (r: bool)
    requires
        well_formed_record(record@),
    ensures
        r == password_matches(password@, record@),
{
    match PasswordHash::new(record) {
        Ok(h) => Argon2::default().verify_password(password.as_bytes(), &h).is_ok(),
        Err(_) => false,
    }
}

/// What checking `password` against `record` yields.
pub open spec fn verify_outcome(password: Seq<char>, record: Seq<char>) -> Result<bool, ApiError> {
    if well_formed_record(record) {
        Ok(password_matches(password, record))
    } else {
        Err(ApiError::CredentialFormat)
    }
}

/// Hashes a password under a fresh random salt.
/// A record it returns always verifies against the same password.
pub fn hash_password(password: &str) -> (r: Result<String, ApiError>)
    ensures
        r matches Ok(rec) ==> verify_outcome(password@, rec@) == Ok::<bool, ApiError>(true),
        r matches Err(e) ==> e == ApiError::Internal,
        password@.len() <= 0x3FFFFFFF ==> r is Ok,
{
    match argon2_hash(password) {
        Some(rec) => Ok(rec),
        None => Err(ApiError::Internal),
    }
}

/// Checks a password against a stored record; a corrupt record is an error, not a mismatch.
pub fn verify_password(password: &str, record: &str) -> (r: Result<bool, ApiError>)
    ensures
        r == verify_outcome(password@, record@),
{
    if record_parses(record) {
        Ok(argon2_verify(password, record))
    } else {
        Err(ApiError::CredentialFormat)
    }
}

} // verus!
