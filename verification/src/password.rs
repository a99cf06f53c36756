//! One-way password hashing and constant-time verification.
//!
//! The hashing itself is done by the `argon2` crate; this module states what
//! that crate does and proves the codec's behaviour on top of it. A stored
//! hash is a self-describing encoded string carrying algorithm, parameters,
//! salt and derived output.

use vstd::prelude::*;

use crate::models::HashError;

use argon2::password_hash::{PasswordHash, SaltString};
use argon2::{Argon2, PasswordHasher, PasswordVerifier};
use rand::rngs::OsRng;

verus! {

/// Whether a stored string parses as a well-formed encoded password hash.
/// Names the outcome of `argon2::password_hash::PasswordHash::new`, which is
/// a deterministic parse of the string.
pub uninterp spec fn phc_wellformed(stored: Seq<char>) -> bool;

/// Whether a plaintext password verifies against a well-formed stored hash.
/// Names the outcome of `Argon2::verify_password` with default context: the
/// hash is recomputed from the password with the salt and parameters embedded
/// in the stored string and compared in constant time, so the outcome is a
/// function of the password and the stored string alone.
pub uninterp spec fn password_matches(password: Seq<char>, stored: Seq<char>) -> bool;

/// Relies on `argon2::password_hash::PasswordHash::new`: parsing an encoded
/// hash is deterministic in the string.
#[verifier::external_body]
fn phc_parses(stored: &str) -> (ok: bool)
    ensures
        ok == phc_wellformed(stored@),
{
    PasswordHash::new(stored).is_ok()
}

/// Relies on `Argon2::verify_password` (through `argon2`'s `PasswordVerifier`
/// impl): with a fixed default context, verification recomputes the hash from
/// the password plus the salt and parameters embedded in the stored string,
/// and its outcome depends on those two values alone. Failure to verify, for
/// any reason the crate reports, counts as a mismatch.
#[verifier::external_body]
fn argon2_verify(password: &str, stored: &str) -> (ok: bool)
    requires
        phc_wellformed(stored@),
    ensures
        ok == password_matches(password@, stored@),
{
    match PasswordHash::new(stored) {
        Ok(parsed) => {
            Argon2::default().verify_password(password.as_bytes(), &parsed).is_ok()
        },
        Err(_) => false,
    }
}

/// Relies on `SaltString::generate` and `Argon2::hash_password`: on success
/// the encoded result is a well-formed hash string, and recomputing the hash
/// from the same password with the salt and parameters embedded in it yields
/// the same output, so the result verifies against the hashed password.
/// The salt is drawn fresh from the system's secure random source, so nothing
/// else is promised of the result; generation fails only if the hashing
/// backend does.
#[verifier::external_body]
fn argon2_hash(password: &str) -> (r: Option<String>)
    ensures
        r is Some ==> phc_wellformed(r->0@),
        r is Some ==> password_matches(password@, r->0@),
{
    let salt = SaltString::generate(OsRng);
    match Argon2::default().hash_password(password.as_bytes(), &salt) {
        Ok(hash) => Some(hash.to_string()),
        Err(_) => None,
    }
}

/// Hashes a plaintext password with a fresh random salt.
///
/// On success the returned encoded hash is well-formed and verifies against
/// the password that was hashed. Fails only if the hashing backend does.
pub fn hash_password(password: String) -> (r: Result<String, HashError>)
    ensures
        r is Ok ==> phc_wellformed(r->Ok_0@),
        r is Ok ==> password_matches(password@, r->Ok_0@),
        r is Err ==> r->Err_0 == HashError::HashingFailed,
{
    match argon2_hash(password.as_str()) {
        Some(hash) => Ok(hash),
        None => Err(HashError::HashingFailed),
    }
}

/// Verifies a plaintext password against a stored encoded hash.
///
/// A malformed stored hash is reported as such — the storage layer must be
/// able to tell corrupted data from a wrong password — and a well-formed one
/// yields exactly whether the password matches.
pub fn verify_password(password: &str, stored: &str) -> (r: Result<bool, HashError>)
    ensures
        r is Ok <==> phc_wellformed(stored@),
        r is Ok ==> r->Ok_0 == password_matches(password@, stored@),
        r is Err ==> r->Err_0 == HashError::MalformedHash,
{
    if phc_parses(stored) {
        Ok(argon2_verify(password, stored))
    } else {
        Err(HashError::MalformedHash)
    }
}

/// Law: a password hashed by `hash_password` always verifies against itself.
/// Whenever hashing succeeds, verifying the same password against the fresh
/// hash returns exactly `Ok(true)`.
pub fn hash_then_verify(password: String) -> (r: Result<bool, HashError>)
    ensures
        r is Ok ==> r->Ok_0 == true,
        r is Err ==> r->Err_0 == HashError::HashingFailed,
{
    match hash_password(password.clone()) {
        Ok(stored) => {
            match verify_password(password.as_str(), stored.as_str()) {
                Ok(matched) => Ok(matched),
                Err(_) => Err(HashError::HashingFailed),
            }
        },
        Err(e) => Err(e),
    }
}

} // verus!
