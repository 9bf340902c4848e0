//! Credential and token lifecycle: password hashing, signed bearer tokens
//! with a bounded lifetime, and the per-request decisions of registration,
//! login and session introspection.
use vstd::prelude::*;

pub mod auth;
pub mod claims;
pub mod credentials;
pub mod error;
pub mod role;
pub mod subject;
pub mod token;
pub mod user;

verus! {

} // verus!
