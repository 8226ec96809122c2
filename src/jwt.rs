use jsonwebtoken::{decode, encode, Algorithm, DecodingKey, EncodingKey, Header, Validation};
use serde_json::{Map as JsonMap, Value};
use vstd::prelude::*;

use crate::decimal::{decimal, decimal_string};
use crate::errors::ServiceError;
use crate::model::{expiry, expiry_after};

verus! {

/// The payload of an access credential: subject, expiry and issue instants.
#[derive(Debug)]
pub struct Claims {
    pub sub: String,
    pub exp: i64,
    pub iat: i64,
}

/// Claims as plain values: (subject, issued-at, expires-at).
pub type ClaimsValue = (Seq<char>, i64, i64);

pub open spec fn claims_value(c: Claims) -> ClaimsValue {
    (c.sub@, c.iat, c.exp)
}

pub open spec fn result_value(r: Result<Claims, ServiceError>) -> Result<ClaimsValue, ServiceError> {
    match r {
        Ok(c) => Ok(claims_value(c)),
        Err(e) => Err(e),
    }
}

/// The compact HS256 token that signs the claims with `secret`.
pub uninterp spec fn signed_token(sub: Seq<char>, iat: i64, exp: i64, secret: Seq<char>) -> Seq<char>;

/// The claims that a token carries when its HS256 signature checks out under `secret`.
pub uninterp spec fn decoded_claims(token: Seq<char>, secret: Seq<char>) -> Option<(Seq<char>, i64, i64)>;

/// Relies on `jsonwebtoken::encode` with the default (HS256) header and an HMAC key:
/// for an HMAC key and a JSON object it cannot fail, and decoding its output with the
/// same key gives the claims back.
#[verifier::external_body]
fn encode_claims(sub: &str, iat: i64, exp: i64, secret: &str) -> (r: Option<String>)
    ensures
        r is Some,
        r->0@ == signed_token(sub@, iat, exp, secret@),
        decoded_claims(r->0@, secret@) == Some((sub@, iat, exp)),
{
    let mut claims = JsonMap::new();
    claims.insert("sub".to_string(), Value::from(sub));
    claims.insert("exp".to_string(), Value::from(exp));
    claims.insert("iat".to_string(), Value::from(iat));
    encode(&Header::default(), &claims, &EncodingKey::from_secret(secret.as_bytes())).ok()
}

/// Relies on `jsonwebtoken::decode` with HS256, an HMAC key, and the expiry check and
/// required claims switched off: it checks the signature and reads the payload alone.
#[verifier::external_body]
fn decode_claims(token: &str, secret: &str) -> (r: Option<Claims>)
    ensures
        decoded_claims(token@, secret@) == match r {
            Some(c) => Some(claims_value(c)),
            None => None::<ClaimsValue>,
        },
{
    let mut v = Validation::new(Algorithm::HS256);
    v.validate_exp = false;
    v.required_spec_claims.clear();
    let key = DecodingKey::from_secret(secret.as_bytes());
    let c = decode::<JsonMap<String, Value>>(token, &key, &v).ok()?.claims;
    let sub = c.get("sub")?.as_str()?.to_string();
    Some(Claims { sub, exp: c.get("exp")?.as_i64()?, iat: c.get("iat")?.as_i64()? })
}

/// Decoded claims are accepted up to and including their expiry instant.
pub open spec fn spec_check(decoded: Option<ClaimsValue>, now: i64) -> Result<ClaimsValue, ServiceError> {
    match decoded {
        Some(c) => if now <= c.2 {
            Ok(c)
        } else {
            Err(ServiceError::InvalidCredential)
        },
        None => Err(ServiceError::InvalidCredential),
    }
}

/// What `verify_token` returns for `token` under `secret` at `now`.
pub open spec fn spec_verify(token: Seq<char>, secret: Seq<char>, now: i64) -> Result<ClaimsValue, ServiceError> {
    spec_check(decoded_claims(token, secret), now)
}

/// Accepts decoded claims that are not yet past their expiry at `now`.
pub fn check_claims(decoded: Option<Claims>, now: i64) -> (r: Result<Claims, ServiceError>)
    ensures
        match decoded {
            Some(c) => if now <= c.exp {
                r == Ok::<Claims, ServiceError>(c)
            } else {
                r == Err::<Claims, ServiceError>(ServiceError::InvalidCredential)
            },
            None => r == Err::<Claims, ServiceError>(ServiceError::InvalidCredential),
        },
{
    match decoded {
        Some(c) => if now <= c.exp {
            Ok(c)
        } else {
            Err(ServiceError::InvalidCredential)
        },
        None => Err(ServiceError::InvalidCredential),
    }
}

/// Signs an access credential for `user_id`, issued at `now` and valid for `ttl` seconds.
pub fn generate_token(user_id: i32, secret: &str, ttl: i64, now: i64) -> (r: String)
    ensures
        r@ == signed_token(decimal(user_id as int), now, expiry(now, ttl), secret@),
        decoded_claims(r@, secret@) == Some((decimal(user_id as int), now, expiry(now, ttl))),
{
    let sub = decimal_string(user_id);
    let exp = expiry_after(now, ttl);
    match encode_claims(sub.as_str(), now, exp, secret) {
        Some(t) => t,
        None => String::new(),
    }
}

/// Checks the signature of `token` under `secret`, then its expiry against `now`.
pub fn verify_token(token: &str, secret: &str, now: i64) -> (r: Result<Claims, ServiceError>)
    ensures
        result_value(r) == spec_verify(token@, secret@, now),
{
    check_claims(decode_claims(token, secret), now)
}

} // verus!
