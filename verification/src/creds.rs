//! Salted, memory-hard password hashing for login and signup.
//!
//! Hashes are PHC strings: the salt and the algorithm parameters travel
//! inside the string, so nothing is stored beside it. Whether a password
//! matches a stored string is a function of the two alone, named
//! `hash_matches`; hashing promises only that its fresh string matches
//! the password it was derived from. That two different passwords collide
//! is possible in principle and merely overwhelmingly unlikely, so no
//! more than this is claimed.

use vstd::prelude::*;
use argon2::password_hash::{PasswordHasher, PasswordVerifier};

verus! {

/// Whether `password` matches the PHC hash string `hash`: re-derive with
/// the parameters and salt embedded in `hash` and compare. False for any
/// malformed `hash`. A function of the two arguments alone, left without
/// a definition here; the two wrappers below are the only things that
/// speak for it.
pub uninterp spec fn hash_matches(password: Seq<char>, hash: Seq<char>) -> bool;

/// Relies on `argon2::Argon2::hash_password` (Argon2id, default
/// parameters, a fresh random salt): the returned PHC string verifies
/// against the password it was derived from. Fails only when the
/// operating system yields no randomness; the password length bound keeps
/// the input inside what the algorithm accepts.
#[verifier::external_body]
pub fn get_hash(password: String) -> (r: Option<String>)
    requires
        password@.len() < 0x4000_0000,
    ensures
        match r {
            Some(h) => hash_matches(password@, h@),
            None => true,
        },
{
    match argon2::Argon2::default().hash_password(password.as_bytes()) {
        Ok(h) => Some(h.to_string()),
        Err(_) => None,
    }
}

/// Relies on `argon2::Argon2::verify_password` on a PHC hash string:
/// deterministic in the password and the string, true exactly on a match,
/// false on a mismatch or a malformed string, never an escaping error —
/// so a bad stored hash reads the same as a wrong password.
#[verifier::external_body]
pub fn verify_hash(password: String, hash: String) -> (r: bool)
    ensures
        r == hash_matches(password@, hash@),
{
    PasswordVerifier::<str>::verify_password(
        &argon2::Argon2::default(),
        password.as_bytes(),
        hash.as_str(),
    ).is_ok()
}

} // verus!
