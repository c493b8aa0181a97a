use vstd::prelude::*;

verus! {

/// Failure modes of the credential store.
#[derive(Clone, Copy, Debug, PartialEq, Eq, Structural)]
pub enum AuthError {
    /// The username is already registered; nothing was changed.
    UsernameTaken,
    /// The password digest could not be derived; nothing was changed.
    HashingError,
    /// Freshly generated identity tokens kept colliding with tokens already
    /// stored; nothing was changed.
    IdentityCollision,
}

} // verus!
