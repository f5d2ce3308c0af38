//! Password hashing and verification.
//!
//! Hashing is delegated to the `argon2` crate: a salted, memory-hard hash
//! whose output is a self-describing PHC string (the salt and parameters
//! travel inside it).  The two outcomes of the outside calls are named by
//! uninterpreted spec functions: `is_phc_hash` (the stored string parses
//! as a PHC hash) and `argon2_matches` (the plaintext verifies against the
//! stored string).  A wrong password is an expected outcome (`Ok(false)`),
//! distinct from a corrupted stored hash (`MalformedHash`) and from a
//! failure to produce a hash at all (`HashingFailed`).

use argon2::PasswordHasher;
use argon2::PasswordVerifier;
use vstd::prelude::*;

verus! {

#[derive(Clone, Copy, PartialEq, Eq, Structural, Debug)]
pub enum CryptError {
    /// The hashing subsystem could not produce a hash.
    HashingFailed,
    /// The stored hash string is structurally invalid.
    MalformedHash,
}

/// Whether `hashed` parses as a PHC-format password hash.  Names the
/// success of `password_hash::PasswordHash::new`, a function of the
/// string alone.
pub uninterp spec fn is_phc_hash(hashed: Seq<char>) -> bool;

/// Whether `plain` verifies against the PHC string `hashed` under Argon2
/// with the parameters embedded in `hashed`.  Names the outcome of
/// `argon2::Argon2::verify_password`, a function of its two arguments
/// alone.
pub uninterp spec fn argon2_matches(plain: Seq<char>, hashed: Seq<char>) -> bool;

/// Relies on `SaltString::generate` plus `Argon2::hash_password`: on
/// success the returned PHC string embeds the fresh salt, parses back with
/// `PasswordHash::new`, and verifies against the same plaintext via
/// `Argon2::verify_password`, as the `password-hash` crate documents for
/// its hash/verify round trip.  The salt is random, so nothing more is
/// promised of the string itself.
#[verifier::external_body]
fn argon2_hash(plaintext: &str) -> (r: Option<String>)
    ensures
        r matches Some(h) ==> is_phc_hash(h@) && argon2_matches(plaintext@, h@),
{
    let salt = argon2::password_hash::SaltString::generate(&mut rand::rngs::OsRng);
    match argon2::Argon2::default().hash_password(plaintext.as_bytes(), &salt) {
        Ok(h) => Some(h.to_string()),
        Err(_) => None,
    }
}

/// Relies on `PasswordHash::new` (PHC parsing, deciding `is_phc_hash`)
/// and `Argon2::verify_password` (deciding `argon2_matches`); both are
/// functions of their arguments alone.
#[verifier::external_body]
fn argon2_verify(plaintext: &str, hashed: &str) -> (r: Option<bool>)
    ensures
        r matches Some(b) ==> is_phc_hash(hashed@) && b == argon2_matches(plaintext@, hashed@),
        r is None ==> !is_phc_hash(hashed@),
{
    match argon2::PasswordHash::new(hashed) {
        Ok(parsed) => Some(
            argon2::Argon2::default().verify_password(plaintext.as_bytes(), &parsed).is_ok(),
        ),
        Err(_) => None,
    }
}

/// Hashes a plaintext password into a salted PHC string.  Fails only when
/// the hashing subsystem itself does.
pub fn encrypt_password(plaintext: &str) -> (r: Result<String, CryptError>)
    ensures
        r matches Ok(h) ==> is_phc_hash(h@) && argon2_matches(plaintext@, h@),
        r matches Err(e) ==> e == CryptError::HashingFailed,
{
    match argon2_hash(plaintext) {
        Some(h) => Ok(h),
        None => Err(CryptError::HashingFailed),
    }
}

/// Checks a plaintext password against a stored PHC string.  A mismatch
/// is `Ok(false)`; only a stored string that does not parse as a PHC hash
/// is an error.
pub fn verify_password(plaintext: &str, hashed: &str) -> (r: Result<bool, CryptError>)
    ensures
        r is Ok <==> is_phc_hash(hashed@),
        r matches Ok(b) ==> b == argon2_matches(plaintext@, hashed@),
        r matches Err(e) ==> e == CryptError::MalformedHash,
{
    match argon2_verify(plaintext, hashed) {
        Some(b) => Ok(b),
        None => Err(CryptError::MalformedHash),
    }
}

} // verus!
