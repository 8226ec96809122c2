use vstd::prelude::*;
use vstd::string::*;

use crate::decimal::{decimal, lemma_parse_decimal, parse_i32, parse_user_id};
use crate::jwt::decoded_claims;
use crate::model::expiry;
use crate::errors::ServiceError;
use crate::secret::unix_now;
use crate::token_service::{spec_verify_with, TokenService};

verus! {

/// The subject of a verified access credential.
#[derive(Debug, Clone, Copy, PartialEq, Eq, Structural)]
pub struct AuthenticatedUser {
    pub id: i32,
}

/// The prefix of an `Authorization` header that carries a bearer credential.
pub open spec fn bearer_prefix() -> Seq<char> {
    seq!['B', 'e', 'a', 'r', 'e', 'r', ' ']
}

/// The credential of an `Authorization: Bearer <credential>` header, if it has one.
pub open spec fn spec_bearer(header: Seq<char>) -> Option<Seq<char>> {
    if header.len() > 7 && header.take(7) == bearer_prefix() {
        Some(header.skip(7))
    } else {
        None
    }
}

/// Reads the credential out of an `Authorization` header value.
pub fn bearer_credential(header: &str) -> (r: Option<String>)
    ensures
        match r {
            Some(c) => spec_bearer(header@) == Some(c@),
            None => spec_bearer(header@) is None,
        },
{
    let n = header.unicode_len();
    if n <= 7 {
        return None;
    }
    let expected = ['B', 'e', 'a', 'r', 'e', 'r', ' '];
    let mut i: usize = 0;
    while i < 7
        invariant
            0 <= i <= 7,
            n == header@.len(),
            n > 7,
            expected@ == bearer_prefix(),
            forall|j: int| 0 <= j < i ==> header@[j] == #[trigger] bearer_prefix()[j],
        decreases 7 - i,
    {
        if header.get_char(i) != expected[i] {
            assert(header@.take(7)[i as int] != bearer_prefix()[i as int]);
            return None;
        }
        i = i + 1;
    }
    assert(header@.take(7) =~= bearer_prefix());
    let rest = header.substring_char(7, n);
    assert(rest@ =~= header@.skip(7));
    Some(rest.to_owned())
}

/// The text of a credential, if one was presented.
pub open spec fn credential_text(credential: Option<&str>) -> Option<Seq<char>> {
    match credential {
        Some(t) => Some(t@),
        None => None,
    }
}

/// What `authenticate_at` decides for a credential under `secret` at `now`.
pub open spec fn spec_authenticate(secret: Option<Seq<char>>, credential: Option<Seq<char>>, now: i64) -> Result<i32, ServiceError> {
    match credential {
        None => Err(ServiceError::Unauthorized),
        Some(t) => match spec_verify_with(secret, t, now) {
            Err(ServiceError::Configuration) => Err(ServiceError::Configuration),
            Err(_) => Err(ServiceError::Unauthorized),
            Ok(c) => match parse_i32(c.0) {
                Some(id) => Ok(id),
                None => Err(ServiceError::Unauthorized),
            },
        },
    }
}

/// A credential minted for `user_id` at `iat` with lifetime `ttl` verifies, with its own
/// claims, at every instant up to its expiry and fails with `InvalidCredential` at every
/// later one; authentication yields `user_id` over the same span.
pub proof fn lemma_minted_credential_lifetime(secret: Seq<char>, token: Seq<char>, user_id: i32, iat: i64, ttl: i64, now: i64)
    requires
        decoded_claims(token, secret) == Some((decimal(user_id as int), iat, expiry(iat, ttl))),
    ensures
        now <= expiry(iat, ttl) ==> spec_verify_with(Some(secret), token, now) == Ok::<(Seq<char>, i64, i64), ServiceError>(
            (decimal(user_id as int), iat, expiry(iat, ttl)),
        ),
        now > expiry(iat, ttl) ==> spec_verify_with(Some(secret), token, now) == Err::<(Seq<char>, i64, i64), ServiceError>(
            ServiceError::InvalidCredential,
        ),
        now <= expiry(iat, ttl) ==> spec_authenticate(Some(secret), Some(token), now) == Ok::<i32, ServiceError>(user_id),
        now > expiry(iat, ttl) ==> spec_authenticate(Some(secret), Some(token), now) == Err::<i32, ServiceError>(
            ServiceError::Unauthorized,
        ),
{
    lemma_parse_decimal(user_id);
}

/// Admits a request whose credential verifies at `now`; any other credential is
/// rejected with `Unauthorized` (a missing secret with `Configuration`).
pub fn authenticate_at(tokens: &TokenService, credential: Option<&str>, now: i64) -> (r: Result<AuthenticatedUser, ServiceError>)
    ensures
        match r {
            Ok(u) => spec_authenticate(tokens@.secret, credential_text(credential), now) == Ok::<i32, ServiceError>(u.id),
            Err(e) => spec_authenticate(tokens@.secret, credential_text(credential), now) == Err::<i32, ServiceError>(e),
        },
{
    let token = match credential {
        None => {
            return Err(ServiceError::Unauthorized);
        },
        Some(t) => t,
    };
    match tokens.verify_access_token_at(token, now) {
        Err(ServiceError::Configuration) => Err(ServiceError::Configuration),
        Err(_) => Err(ServiceError::Unauthorized),
        Ok(claims) => match parse_user_id(claims.sub.as_str()) {
            Some(id) => Ok(AuthenticatedUser { id }),
            None => Err(ServiceError::Unauthorized),
        },
    }
}

/// Admits a request whose credential verifies now.
pub fn authenticate(tokens: &TokenService, credential: Option<&str>) -> (r: Result<AuthenticatedUser, ServiceError>)
    ensures
        exists|now: i64| #[trigger] spec_authenticate(tokens@.secret, credential_text(credential), now) == match r {
            Ok(u) => Ok::<i32, ServiceError>(u.id),
            Err(e) => Err::<i32, ServiceError>(e),
        },
{
    let now = unix_now();
    authenticate_at(tokens, credential, now)
}

/// The `SameSite` attribute of a credential cookie.
#[derive(Debug, Clone, Copy, PartialEq, Eq, Structural)]
pub enum SameSite {
    /// Sent on same-site requests and top-level navigations.
    Lax,
    /// Sent on cross-site requests too (`SameSite=None`); needs `Secure`.
    CrossSite,
}

/// How credential cookies are marked: always HTTP-only on path `/`.
#[derive(Debug, Clone, Copy, PartialEq, Eq, Structural)]
pub struct CookiePolicy {
    pub secure: bool,
    pub same_site: SameSite,
}

/// Production cookies are secure and cross-site; development cookies are lax.
pub fn get_cookie_config(is_production: bool) -> (r: CookiePolicy)
    ensures
        r.secure == is_production,
        r.same_site == if is_production {
            SameSite::CrossSite
        } else {
            SameSite::Lax
        },
{
    let same_site = if is_production {
        SameSite::CrossSite
    } else {
        SameSite::Lax
    };
    CookiePolicy { secure: is_production, same_site }
}

} // verus!
