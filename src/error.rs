//! The failures that the credential and token lifecycle can report.
use vstd::prelude::*;

verus! {

#[derive(Debug, Clone, Copy, PartialEq, Eq, Structural)]
pub enum AuthError {
    /// A unique name, login or username is already taken.
    Conflict,
    /// A user refers to a role that does not exist.
    ForeignKey,
    /// A stored password hash is malformed, or hashing itself failed.
    Hashing,
    /// Signing a token failed.
    Signing,
    /// A token's signature is wrong, it is malformed, or it has expired.
    TokenInvalid,
    /// A record that was expected to exist was not found.
    RecordNotFound,
    /// The store could not be reached.
    StoreUnavailable,
}

} // verus!
