//! Password hashing and verification with bcrypt.
use vstd::prelude::*;
use crate::error::AuthError;

verus! {

/// The bcrypt work factor used when none is configured.
pub const DEFAULT_HASH_COST: u32 = 12;

/// The smallest and largest work factors that bcrypt accepts.
pub const MIN_HASH_COST: u32 = 4;

pub const MAX_HASH_COST: u32 = 31;

#[verifier::external_type_specification]
#[verifier::external_body]
pub struct ExBcryptError(bcrypt::BcryptError);

/// What bcrypt's verification says of a password against a stored hash:
/// `None` when the hash is malformed.
pub uninterp spec fn bcrypt_verdict(password: Seq<char>, hash: Seq<char>) -> Option<bool>;

/// Relies on `bcrypt::hash`: a salted hash string with a fresh random salt;
/// it fails whenever the cost is outside the range that bcrypt accepts. The
/// string embeds its salt and cost, so `bcrypt::verify` rehashes the same
/// password to the same value and accepts it.
#[verifier::external_body]
fn bcrypt_hash(password: &str, cost: u32) -> (r: Result<String, bcrypt::BcryptError>)
    ensures
        cost < MIN_HASH_COST || cost > MAX_HASH_COST ==> r is Err,
        r matches Ok(h) ==> bcrypt_verdict(password@, h@) == Some(true),
{
    bcrypt::hash(password, cost)
}

/// Relies on `bcrypt::verify`: rehashes the password with the salt and cost
/// embedded in `hash` and compares; fails on a malformed hash.
#[verifier::external_body]
fn bcrypt_verify(password: &str, hash: &str) -> (r: Result<bool, bcrypt::BcryptError>)
    ensures
        match bcrypt_verdict(password@, hash@) {
            Some(b) => r matches Ok(x) && x == b,
            None => r is Err,
        },
{
    bcrypt::verify(password, hash)
}

/// Hashes a password for storage. The result is salted at random; whatever
/// it is, `verify_password` accepts the password against it.
pub fn hash_password(password: &str, cost: u32) -> (r: Result<String, AuthError>)
    ensures
        r matches Ok(h) ==> bcrypt_verdict(password@, h@) == Some(true),
        cost < MIN_HASH_COST || cost > MAX_HASH_COST ==> r == Err::<String, AuthError>(
            AuthError::Hashing,
        ),
        r is Err ==> r == Err::<String, AuthError>(AuthError::Hashing),
{
    match bcrypt_hash(password, cost) {
        Ok(h) => Ok(h),
        Err(_) => Err(AuthError::Hashing),
    }
}

/// Whether `password` is the one that `hash` was made from; a malformed
/// hash is an error, not a mismatch.
pub fn verify_password(password: &str, hash: &str) -> (r: Result<bool, AuthError>)
    ensures
        r == match bcrypt_verdict(password@, hash@) {
            Some(b) => Ok(b),
            None => Err(AuthError::Hashing),
        },
{
    match bcrypt_verify(password, hash) {
        Ok(b) => Ok(b),
        Err(_) => Err(AuthError::Hashing),
    }
}

} // verus!
