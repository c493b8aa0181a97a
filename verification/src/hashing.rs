//! The password hashing protocol: a one-way, salted transformation of a
//! plaintext password into a self-describing digest string, and verification
//! of a plaintext candidate against such a digest.

use vstd::prelude::*;

use crate::errors::AuthError;
use pbkdf2::password_hash::{PasswordHash, PasswordHasher, PasswordVerifier, SaltString};
use pbkdf2::Pbkdf2;

verus! {

/// Whether a candidate password matches a stored digest string: the outcome
/// of re-deriving a digest from the candidate with the salt and cost
/// parameters embedded in the stored string and comparing. Both the parse of
/// the digest string and the derivation depend only on the two strings, so
/// the outcome is a function of them.
pub uninterp spec fn digest_matches(password: Seq<char>, digest: Seq<char>) -> bool;

#[verifier::external_type_specification]
#[verifier::external_body]
pub struct ExPasswordHashError(pbkdf2::password_hash::Error);

/// Relies on `pbkdf2::password_hash::SaltString::generate` for a fresh random
/// salt drawn from `rand_core::OsRng`, and on `Pbkdf2`'s
/// `PasswordHasher::hash_password` to derive a PHC digest string. The
/// verifier side re-derives with the salt and parameters embedded in that
/// string, so a digest this call returns matches exactly the password it was
/// derived from. The salt is random: nothing is assumed about the digest's
/// text itself.
#[verifier::external_body]
fn pbkdf2_hash(password: &str) -> (r: Result<String, pbkdf2::password_hash::Error>)
    ensures
        r matches Ok(d) ==> digest_matches(password@, d@),
{
    let salt = SaltString::generate(&mut rand_core::OsRng);
    match Pbkdf2.hash_password(password.as_bytes(), &salt) {
        Ok(h) => Ok(h.to_string()),
        Err(e) => Err(e),
    }
}

/// Relies on `pbkdf2::password_hash::PasswordHash::new` to parse the stored
/// digest string and on `Pbkdf2`'s `PasswordVerifier::verify_password` to
/// re-derive a digest from the candidate with the embedded salt and
/// parameters and compare in constant time. Both steps are functions of the
/// two strings alone; a malformed digest string verifies as `false`, not as
/// an error.
#[verifier::external_body]
fn pbkdf2_verify(password: &str, digest: &str) -> (r: bool)
    ensures
        r == digest_matches(password@, digest@),
{
    match PasswordHash::new(digest) {
        Ok(parsed) => Pbkdf2.verify_password(password.as_bytes(), &parsed).is_ok(),
        Err(_) => false,
    }
}

/// Derive a fresh, salted digest for `password`. A digest this function
/// returns verifies against exactly the password it was derived from; the
/// salt is generated anew on every call, so nothing more is known of the
/// digest's text. Fails with `HashingError` when the underlying derivation
/// reports failure.
pub fn hash_password(password: &str) -> (r: Result<String, AuthError>)
    ensures
        r matches Ok(d) ==> digest_matches(password@, d@),
        r matches Err(e) ==> e == AuthError::HashingError,
{
    match pbkdf2_hash(password) {
        Ok(d) => Ok(d),
        Err(_) => Err(AuthError::HashingError),
    }
}

/// Check a candidate password against a stored digest string. A wrong
/// candidate and a malformed digest both answer `false`: verification failure
/// is a normal outcome, never an error.
pub fn verify_password(password: &str, digest: &str) -> (r: bool)
    ensures
        r == digest_matches(password@, digest@),
{
    pbkdf2_verify(password, digest)
}

} // verus!
