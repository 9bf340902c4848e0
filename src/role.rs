//! A named role that users belong to.
use vstd::prelude::*;

verus! {

/// A stored role. `attributes` is a JSON document kept verbatim and never
/// interpreted here.
pub struct Model {
    pub id: i32,
    pub name: String,
    pub attributes: String,
}

/// The attributes a role gets when it is created on first use: `["read"]`.
pub fn default_attributes() -> (r: String)
    ensures
        r@ == "[\"read\"]"@,
{
    "[\"read\"]".to_string()
}

} // verus!
