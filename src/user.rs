//! A registered user account.
use vstd::prelude::*;

verus! {

/// A stored user. `password` holds the bcrypt hash, never the plaintext;
/// `role_id` refers to the role the user belongs to.
pub struct Model {
    pub id: i32,
    pub username: String,
    pub login: String,
    pub password: String,
    pub role_id: i32,
}

} // verus!
