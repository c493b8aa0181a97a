//! The identity generator: a random, non-sequential identity token per user.

use vstd::prelude::*;

verus! {

/// Relies on `uuid::Uuid::new_v4`, a version-4 UUID drawn from the process
/// random source, rendered in its hyphenated text form. The value is random:
/// nothing is assumed of it, and in particular not uniqueness — the store
/// checks freshness against its own contents before using a token.
#[verifier::external_body]
pub(crate) fn generate_token() -> String {
    uuid::Uuid::new_v4().to_string()
}

} // verus!
