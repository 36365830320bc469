//! Password hashing, delegated to argon2's salted, memory-hard hash.
//!
//! Whether a password matches a digest is a function of the two strings
//! alone; the name `password_matches` stands for it.  A fresh digest carries
//! a random salt, so hashing the same password twice gives different
//! digests, but every digest that `hash_password` returns matches the
//! password it was computed from.

use vstd::prelude::*;
use argon2::Argon2;
use argon2::password_hash::{PasswordHasher, PasswordVerifier, phc::PasswordHash};

verus! {

/// Whether argon2 verification accepts `password` against the digest text
/// `hash`.
pub uninterp spec fn password_matches(hash: Seq<char>, password: Seq<char>) -> bool;

/// Relies on argon2's PasswordHasher::hash_password: the returned PHC string
/// records its own salt and parameters, and argon2's verification accepts
/// the hashed password against it.  Hashing fails only on an operating
/// system random-number failure, where it panics as the surrounding service
/// would.  The length bound keeps the encoded password below argon2's
/// four-gigabyte limit: a character encodes to at most four bytes.
#[verifier::external_body]
pub fn hash_password(password: &str) -> (r: String)
    requires
        password@.len() < 0x4000_0000,
    ensures
        password_matches(r@, password@),
{
    Argon2::default()
        .hash_password(password.as_bytes())
        .expect("argon2 accepts any password below its length bound")
        .to_string()
}

/// Relies on argon2's PasswordVerifier::verify_password and PasswordHash
/// parsing: the outcome is a function of the digest text and the password
/// alone, recomputed from the salt and parameters stored in the digest; an
/// unparsable digest verifies as false.
#[verifier::external_body]
pub fn verify_password(hash: &str, password: &str) -> (r: bool)
    ensures
        r == password_matches(hash@, password@),
{
    let parsed = match PasswordHash::new(hash) {
        Ok(p) => p,
        Err(_) => return false,
    };
    Argon2::default().verify_password(password.as_bytes(), &parsed).is_ok()
}

} // verus!
