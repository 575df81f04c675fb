use vstd::prelude::*;
use crate::error::TokenError;
use vstd::string::StringSliceAdditionalSpecFns;

verus! {

/// How long a token stays valid, in seconds.
pub const TOKEN_LIFETIME: u64 = 86400;

/// The signed payload of a token: the subject and its issue and expiry times
/// in epoch seconds.
#[derive(Debug, PartialEq, Eq)]
pub struct Claims {
    pub sub: String,
    pub exp: u64,
    pub iat: u64,
}

/// What jsonwebtoken::decode makes of a token under HS256 with this secret,
/// expiry left unchecked: the claims `(sub, iat, exp)`, or `Err(true)` where the
/// signature does not match, `Err(false)` where the token is refused otherwise
/// or lacks one of the three claims.
pub uninterp spec fn jwt_decoded(token: Seq<char>, secret: Seq<u8>) -> Result<(Seq<char>, u64, u64), bool>;

/// Relies on jsonwebtoken::encode with the default HS256 header: HMAC signing
/// of a JSON map does not fail, and the token decodes under the same secret to
/// the claims that were signed.
#[verifier::external_body]
fn jwt_sign(sub: &str, iat: u64, exp: u64, secret: &[u8]) -> (r: Result<String, TokenError>)
    ensures
        r is Ok,
        r matches Ok(t) ==> (jwt_decoded(t@, secret@) matches Ok(c) && c == (sub@, iat, exp)),
{
    let claims: serde_json::Map<String, serde_json::Value> = [
        ("sub".to_string(), serde_json::Value::from(sub)),
        ("iat".to_string(), serde_json::Value::from(iat)),
        ("exp".to_string(), serde_json::Value::from(exp)),
    ].into_iter().collect();
    let key = jsonwebtoken::EncodingKey::from_secret(secret);
    jsonwebtoken::encode(&jsonwebtoken::Header::default(), &claims, &key).map_err(|_| TokenError::Signing)
}

/// Relies on jsonwebtoken::decode under HS256 with the expiry check switched
/// off: the signature and structure are checked, and the three claims read.
#[verifier::external_body]
fn jwt_open(token: &str, secret: &[u8]) -> (r: Result<Option<(String, u64, u64)>, TokenError>)
    ensures
        r matches Ok(Some(x)) ==> (jwt_decoded(token@, secret@) matches Ok(c) && c == (x.0@, x.1, x.2)),
        r matches Ok(None) ==> (jwt_decoded(token@, secret@) matches Err(b) && !b),
        r matches Err(e) ==> (jwt_decoded(token@, secret@) matches Err(b) && b == (e == TokenError::BadSignature)),
        r matches Err(e) ==> e == TokenError::BadSignature || e == TokenError::Malformed,
{
    let mut v = jsonwebtoken::Validation::new(jsonwebtoken::Algorithm::HS256);
    v.validate_exp = false;
    let key = jsonwebtoken::DecodingKey::from_secret(secret);
    match jsonwebtoken::decode::<serde_json::Map<String, serde_json::Value>>(token, &key, &v) {
        Ok(d) => Ok((|| Some((d.claims.get("sub")?.as_str()?.to_string(),
            d.claims.get("iat")?.as_u64()?, d.claims.get("exp")?.as_u64()?)))()),
        Err(e) if matches!(e.kind(), jsonwebtoken::errors::ErrorKind::InvalidSignature) => Err(TokenError::BadSignature),
        Err(_) => Err(TokenError::Malformed),
    }
}

/// Relies on chrono::Utc::now: the current time in epoch seconds, which chrono
/// never gives before the epoch.
#[verifier::external_body]
pub(crate) fn now_seconds() -> (r: i64)
    ensures
        r >= 0,
{
    chrono::Utc::now().timestamp()
}

/// The current time in epoch seconds.
pub(crate) fn now_epoch() -> (r: u64)
    ensures
        r <= i64::MAX,
{
    let t = now_seconds();
    t as u64
}

/// The outcome of checking a token at `now`: the decoded claims while unexpired,
/// otherwise the reason for refusal.
pub open spec fn token_verdict(token: Seq<char>, secret: Seq<u8>, now: u64) -> Result<(Seq<char>, u64, u64), TokenError> {
    match jwt_decoded(token, secret) {
        Ok(c) => if now > c.2 {
            Err(TokenError::Expired)
        } else {
            Ok(c)
        },
        Err(true) => Err(TokenError::BadSignature),
        Err(false) => Err(TokenError::Malformed),
    }
}

/// A token is accepted at `now` when it carries our claims and has not expired.
pub open spec fn accepts(token: Seq<char>, secret: Seq<u8>, now: u64) -> bool {
    token_verdict(token, secret, now) is Ok
}

/// A token is expired at `now` when it carries our claims and its expiry has passed.
pub open spec fn is_expired(token: Seq<char>, secret: Seq<u8>, now: u64) -> bool {
    token_verdict(token, secret, now) == Err::<(Seq<char>, u64, u64), TokenError>(TokenError::Expired)
}

/// The claims issued for `sub` at `now`.
pub fn claims_at(sub: &str, now: u64) -> (r: Claims)
    requires
        now <= u64::MAX - TOKEN_LIFETIME,
    ensures
        r.sub@ == sub@,
        r.iat == now,
        r.exp == now + TOKEN_LIFETIME,
{
    Claims { sub: sub.to_string(), exp: now + TOKEN_LIFETIME, iat: now }
}

/// Decides on decoded claims at `now`: they are refused once the expiry has passed.
pub fn accept_claims(claims: Claims, now: u64) -> (r: Result<Claims, TokenError>)
    ensures
        now > claims.exp ==> r == Err::<Claims, TokenError>(TokenError::Expired),
        now <= claims.exp ==> r == Ok::<Claims, TokenError>(claims),
{
    if now > claims.exp {
        Err(TokenError::Expired)
    } else {
        Ok(claims)
    }
}

/// Signs a token for `sub`, issued at `now` and expiring a day later.
pub fn issue_token(secret: &str, sub: &str, now: u64) -> (r: Result<String, TokenError>)
    requires
        now <= u64::MAX - TOKEN_LIFETIME,
    ensures
        r matches Ok(t) && (jwt_decoded(t@, secret.spec_bytes()) matches Ok(c)
            && c == (sub@, now, (now + TOKEN_LIFETIME) as u64)),
{
    let c = claims_at(sub, now);
    jwt_sign(c.sub.as_str(), c.iat, c.exp, secret.as_bytes())
}

/// Checks a token's signature and structure, then its expiry at `now`.
pub fn verify_token_at(secret: &str, token: &str, now: u64) -> (r: Result<Claims, TokenError>)
    ensures
        r matches Ok(c) ==> (token_verdict(token@, secret.spec_bytes(), now) matches Ok(v) && v == (c.sub@, c.iat, c.exp)),
        r matches Err(e) ==> (token_verdict(token@, secret.spec_bytes(), now) matches Err(f) && f == e),
        token_verdict(token@, secret.spec_bytes(), now) is Ok ==> r is Ok,
{
    match jwt_open(token, secret.as_bytes()) {
        Ok(Some((sub, iat, exp))) => accept_claims(Claims { sub, exp, iat }, now),
        Ok(None) => Err(TokenError::Malformed),
        Err(e) => Err(e),
    }
}

/// A token issued for a subject is accepted, with that subject, at any time
/// from its issue until its expiry.
pub proof fn lemma_fresh_token_accepted(token: Seq<char>, secret: Seq<u8>, sub: Seq<char>, iat: u64, now: u64)
    requires
        iat <= u64::MAX - TOKEN_LIFETIME,
        jwt_decoded(token, secret) == Ok::<(Seq<char>, u64, u64), bool>((sub, iat, (iat + TOKEN_LIFETIME) as u64)),
        iat <= now <= iat + TOKEN_LIFETIME,
    ensures
        accepts(token, secret, now),
        !is_expired(token, secret, now),
        token_verdict(token, secret, now) matches Ok(c) && c.0 == sub,
{
}

/// A token checked after its expiry is refused as expired, and not accepted.
pub proof fn lemma_late_token_expired(token: Seq<char>, secret: Seq<u8>, sub: Seq<char>, iat: u64, exp: u64, now: u64)
    requires
        jwt_decoded(token, secret) == Ok::<(Seq<char>, u64, u64), bool>((sub, iat, exp)),
        now > exp,
    ensures
        is_expired(token, secret, now),
        !accepts(token, secret, now),
{
}

} // verus!
