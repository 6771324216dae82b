//! Trusted boundary to the password-hashing and randomness primitives.

use vstd::prelude::*;

use argon2::Argon2;
use argon2::PasswordHasher;
use argon2::PasswordVerifier;

verus! {

/// Whether the verification primitive accepts this password against this
/// stored hash text; a pure function of the two texts.
pub uninterp spec fn pwd_verifies(hash: Seq<char>, password: Seq<char>) -> bool;

/// Relies on `Argon2::hash_password` (a random salt is drawn, so nothing is
/// promised of the hash text itself) and on the hash/verify round trip the
/// password-hash interface documents: a returned hash verifies against the
/// password it was computed from.
#[verifier::external_body]
pub fn hash_password(pwd: &str) -> (r: Option<String>)
    ensures
        r matches Some(h) ==> pwd_verifies(h@, pwd@),
{
    match Argon2::default().hash_password(pwd.as_bytes()) {
        Ok(hash) => Some(hash.to_string()),
        Err(_) => None,
    }
}

/// Relies on `Argon2::verify_password` over a PHC-format hash text: the
/// outcome depends on the hash and password texts alone; a hash text that
/// does not parse verifies nothing.
#[verifier::external_body]
pub fn verify_password(hash_str: &str, pwd: &str) -> (r: bool)
    ensures
        r == pwd_verifies(hash_str@, pwd@),
{
    Argon2::default().verify_password(pwd.as_bytes(), hash_str).is_ok()
}

/// Relies on `rand::random`: 32 fresh bytes; nothing is promised of their
/// values.
#[verifier::external_body]
pub fn random_bytes32() -> (r: Vec<u8>)
    ensures
        r@.len() == 32,
{
    let bytes: [u8; 32] = rand::random();
    bytes.to_vec()
}

} // verus!
