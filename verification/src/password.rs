//! The password-hashing discipline: a one-way salted hash is generated at
//! registration and checked at login. Both operations are performed by the
//! `password_auth` crate behind trusted wrappers; the rest of the library
//! reasons about them through the uninterpreted relation `password_verifies`.

use vstd::prelude::*;

verus! {

/// Whether `password_auth::verify_password` accepts `password` against
/// `hash`. The check is a pure function of the two strings, so it gets a
/// name; nothing further is assumed about which hashes verify.
pub uninterp spec fn password_verifies(password: Seq<char>, hash: Seq<char>) -> bool;

/// Relies on `password_auth::verify_password`: a deterministic check of a
/// plaintext password against a PHC-format hash that returns `Ok` exactly
/// when the password matches.
#[verifier::external_body]
pub(crate) fn verify_password(password: &str, hash: &str) -> (r: bool)
    ensures
        r == password_verifies(password@, hash@),
{
    password_auth::verify_password(password, hash).is_ok()
}

/// Relies on `password_auth::generate_hash`: produces a salted PHC-format
/// hash which, per the crate's documentation, `verify_password` accepts for
/// the same password. The salt is random, so no two calls need agree; only
/// this acceptance property is assumed of every outcome. The length bound
/// keeps the input inside the hash algorithm's documented limits.
#[verifier::external_body]
pub(crate) fn generate_hash(password: &str) -> (r: String)
    requires
        password@.len() <= 0x3fff_ffff,
    ensures
        password_verifies(password@, r@),
{
    password_auth::generate_hash(password)
}

} // verus!
