//! Password hashing and checking, built on the `argon2` crate.
//!
//! A stored credential is a PHC-formatted string that embeds algorithm,
//! parameters, salt and digest. What the digest is for a given password is
//! left unstated: the two names below stand for "the stored string parses"
//! and "recomputing the digest over this password matches", and everything
//! the service proves is relative to those names.

use vstd::prelude::*;

verus! {

/// Whether `hash` is a well-formed PHC string, as decided by
/// `argon2::PasswordHash::new`. A function of the string alone.
pub uninterp spec fn phc_wellformed(hash: Seq<char>) -> bool;

/// Whether `password` matches the salted digest stored in `hash`, as decided
/// by `Argon2::verify_password`. A function of the two strings alone.
pub uninterp spec fn phc_verifies(password: Seq<char>, hash: Seq<char>) -> bool;

/// Relies on `argon2::PasswordHash::new`, which parses a PHC string and
/// fails exactly on malformed ones, and on `Argon2::verify_password`, which
/// deterministically recomputes the digest with the parameters and salt
/// embedded in the hash and compares.
#[verifier::external_body]
pub(crate) fn check_password(password: &str, hash: &str) -> (r: Result<bool, ()>)
    ensures
        r is Err <==> !phc_wellformed(hash@),
        (r matches Ok(b) ==> b == phc_verifies(password@, hash@)),
{
    match argon2::PasswordHash::new(hash) {
        Err(_) => Err(()),
        Ok(parsed) => Ok(
            argon2::PasswordVerifier::verify_password(
                &argon2::Argon2::default(),
                password.as_bytes(),
                &parsed,
            ).is_ok(),
        ),
    }
}

/// Relies on `Argon2::hash_password` (Argon2id, default parameters, fresh
/// random salt). The salt is random, so nothing relates two calls; what holds
/// of every outcome is that a produced PHC string parses back and verifies
/// against the password it was made from.
#[verifier::external_body]
pub(crate) fn hash_password(password: &str) -> (r: Option<String>)
    ensures
        r matches Some(h) ==> phc_wellformed(h@) && phc_verifies(password@, h@),
{
    let hashed: Result<argon2::PasswordHash, _> = argon2::PasswordHasher::hash_password(
        &argon2::Argon2::default(),
        password.as_bytes(),
    );
    match hashed {
        Ok(h) => Some(h.to_string()),
        Err(_) => None,
    }
}

} // verus!
