//! Issuing and checking signed bearer tokens (HS256 JSON Web Tokens) whose
//! claims carry a subject, a login and an absolute expiry.
use vstd::prelude::*;
use crate::claims::{claims_text, encode_claims, parse_claims, parse_claims_text, Claims, ClaimsView};
use crate::error::AuthError;

verus! {

/// How long a token stays valid: 168 hours, in seconds.
pub const TOKEN_LIFETIME_SECS: u64 = 604800;

#[verifier::external_type_specification]
#[verifier::external_body]
pub struct ExJwtError(jsonwebtoken::errors::Error);

/// The token that HS256 signing with the default header makes of a claims
/// document under a secret.
pub uninterp spec fn signed_token(payload: Seq<char>, secret: Seq<u8>) -> Seq<char>;

/// The claims document of a token whose HS256 signature checks out under a
/// secret; `None` when the token is malformed, its signature is wrong, or
/// its claims are not a JSON object without an `aud` claim.
pub uninterp spec fn verified_payload(token: Seq<char>, secret: Seq<u8>) -> Option<Seq<char>>;

/// Number of `.` characters in `s`.
pub open spec fn dot_count(s: Seq<char>) -> nat
    decreases s.len(),
{
    if s.len() == 0 {
        0
    } else {
        (if s[0] == '.' {
            1nat
        } else {
            0nat
        }) + dot_count(s.drop_first())
    }
}

/// `p` is the text of some claims document.
pub open spec fn is_claims_document(p: Seq<char>) -> bool {
    exists|c: ClaimsView| #[trigger] claims_text(c) == p
}

/// Relies on `jsonwebtoken::encode` with the default header (HS256) over the
/// claims document taken verbatim as raw JSON (`RawValue::from_string`).
/// HMAC signing is deterministic. A claims document is valid JSON and an
/// HMAC key matches the header, so signing one succeeds; the result is three
/// unpadded base64url segments joined by `.`, and `jsonwebtoken::decode`
/// under the same secret gives the document back.
#[verifier::external_body]
fn sign_payload(payload: String, secret: &[u8]) -> (r: Result<String, jsonwebtoken::errors::Error>)
    ensures
        r matches Ok(t) ==> t@ == signed_token(payload@, secret@),
        is_claims_document(payload@) ==> r is Ok,
        r matches Ok(t) ==> (is_claims_document(payload@) ==> dot_count(t@) == 2
            && verified_payload(t@, secret@) == Some(payload@)),
{
    let raw = serde_json::value::RawValue::from_string(payload)?;
    let key = jsonwebtoken::EncodingKey::from_secret(secret);
    jsonwebtoken::encode(&jsonwebtoken::Header::default(), &raw, &key)
}

/// Relies on `jsonwebtoken::decode` with HS256 and with expiry left unchecked
/// (no required claims): the signature check, and the claims segment as text.
#[verifier::external_body]
fn open_token(token: &str, secret: &[u8]) -> (r: Result<String, jsonwebtoken::errors::Error>)
    ensures
        match verified_payload(token@, secret@) {
            Some(p) => r matches Ok(x) && x@ == p,
            None => r is Err,
        },
{
    let mut v = jsonwebtoken::Validation::new(jsonwebtoken::Algorithm::HS256);
    v.validate_exp = false;
    v.required_spec_claims.clear();
    let key = jsonwebtoken::DecodingKey::from_secret(secret);
    jsonwebtoken::decode::<Box<serde_json::value::RawValue>>(token, &key, &v).map(
        |d| d.claims.get().to_string(),
    )
}

/// The claims that a token carrying `payload` grants at time `now`: those of
/// a well-formed document that has not yet expired.
pub open spec fn accepted_claims(payload: Seq<char>, now: u64) -> Option<ClaimsView> {
    match parse_claims_text(payload) {
        Some(c) => if now < c.exp {
            Some(c)
        } else {
            None
        },
        None => None,
    }
}

/// The claims document of a token issued at `now` for the given subject
/// and login.
pub open spec fn issued_claims(pid: Seq<char>, login: Seq<char>, now: u64, lifetime: u64) -> ClaimsView {
    ClaimsView { pid, login, exp: (now + lifetime) as u64 }
}

/// What checking `token` under `secret` at time `now` grants.
pub open spec fn token_claims(token: Seq<char>, secret: Seq<u8>, now: u64) -> Option<ClaimsView> {
    match verified_payload(token, secret) {
        Some(p) => accepted_claims(p, now),
        None => None,
    }
}

/// Issues a token at time `now` (Unix seconds) that expires `lifetime`
/// seconds later: the signed claims document of the subject, the login and
/// that expiry.
pub fn generate_token(user_id: &str, login: &str, now: u64, lifetime: u64, secret: &[u8]) -> (r:
    Result<String, AuthError>)
    requires
        now + lifetime <= u64::MAX,
    ensures
        r matches Ok(t) && t@ == signed_token(
            claims_text(issued_claims(user_id@, login@, now, lifetime)),
            secret@,
        ) && dot_count(t@) == 2 && verified_payload(t@, secret@) == Some(
            claims_text(issued_claims(user_id@, login@, now, lifetime)),
        ),
{
    let c = Claims { pid: user_id.to_string(), login: login.to_string(), exp: now + lifetime };
    let payload = encode_claims(&c);
    assert(claims_text(c@) == payload@);
    match sign_payload(payload, secret) {
        Ok(t) => Ok(t),
        Err(_) => Err(AuthError::Signing),
    }
}

/// Checks a claims document at time `now`: it must be well formed and not
/// yet expired.
pub fn check_claims(payload: &str, now: u64) -> (r: Result<Claims, AuthError>)
    ensures
        match accepted_claims(payload@, now) {
            Some(c) => r matches Ok(x) && x@ == c,
            None => r == Err::<Claims, AuthError>(AuthError::TokenInvalid),
        },
{
    match parse_claims(payload) {
        Some(c) => {
            if now < c.exp {
                Ok(c)
            } else {
                Err(AuthError::TokenInvalid)
            }
        },
        None => Err(AuthError::TokenInvalid),
    }
}

/// Checks a token at time `now`: its signature under `secret`, its form and
/// its expiry. Forged, malformed and expired tokens are all `TokenInvalid`.
pub fn decode_token(token: &str, now: u64, secret: &[u8]) -> (r: Result<Claims, AuthError>)
    ensures
        match token_claims(token@, secret@, now) {
            Some(c) => r matches Ok(x) && x@ == c,
            None => r == Err::<Claims, AuthError>(AuthError::TokenInvalid),
        },
{
    match open_token(token, secret) {
        Ok(p) => check_claims(p.as_str(), now),
        Err(_) => Err(AuthError::TokenInvalid),
    }
}

/// A token's claims issued at `issued_at` with lifetime `lifetime` are
/// accepted at every time before `issued_at + lifetime`, giving back the
/// subject and login they were issued for, and at no time from then on.
pub proof fn lemma_token_lifetime(
    pid: Seq<char>,
    login: Seq<char>,
    issued_at: u64,
    lifetime: u64,
    now: u64,
)
    requires
        issued_at + lifetime <= u64::MAX,
    ensures
        accepted_claims(claims_text(issued_claims(pid, login, issued_at, lifetime)), now) == if now
            < issued_at + lifetime {
            Some(issued_claims(pid, login, issued_at, lifetime))
        } else {
            None
        },
{
    crate::claims::lemma_claims_round_trip(issued_claims(pid, login, issued_at, lifetime));
}


/// A token issued at `issued_at` with lifetime `lifetime` (one whose verified
/// payload is the issued claims document, as `generate_token` ensures) is
/// accepted at every time before `issued_at + lifetime`, giving back the
/// subject and login it was issued for, and at no time from then on.
pub proof fn lemma_issued_token_lifetime(
    token: Seq<char>,
    secret: Seq<u8>,
    pid: Seq<char>,
    login: Seq<char>,
    issued_at: u64,
    lifetime: u64,
    now: u64,
)
    requires
        issued_at + lifetime <= u64::MAX,
        verified_payload(token, secret) == Some(
            claims_text(issued_claims(pid, login, issued_at, lifetime)),
        ),
    ensures
        token_claims(token, secret, now) == if now < issued_at + lifetime {
            Some(issued_claims(pid, login, issued_at, lifetime))
        } else {
            None
        },
{
    lemma_token_lifetime(pid, login, issued_at, lifetime, now);
}

} // verus!
