use vstd::prelude::*;

use crate::decimal::decimal;
use crate::errors::{ServiceError, RedeemError};
use crate::jwt::{decoded_claims, generate_token, result_value, signed_token, spec_verify, verify_token, Claims, ClaimsValue};
use crate::model::{expiry, expiry_after, SessionRow, ACCESS_TTL_SECS, REFRESH_TTL_SECS};
use crate::seq_facts::lemma_filter_subset;
use crate::refresh_token_repository::{
    live_at, lookup, spec_create, table_wf, without_hash, without_owner, RefreshTokenRepository,
    SessionTable,
};
use crate::secret::{hash_token, random_secret, sha256_hex, unix_now};

verus! {

/// The abstract state of a token service.
pub struct TokenState {
    pub sessions: SessionTable,
    pub secret: Option<Seq<char>>,
    pub access_ttl: i64,
}

/// The access credential minted for `user_id` at `now`.
pub open spec fn spec_mint(secret: Option<Seq<char>>, ttl: i64, user_id: i32, now: i64) -> Result<Seq<char>, ServiceError> {
    match secret {
        None => Err(ServiceError::Configuration),
        Some(s) => Ok(signed_token(decimal(user_id as int), now, expiry(now, ttl), s)),
    }
}

/// Verification of an access credential under the configured secret.
pub open spec fn spec_verify_with(secret: Option<Seq<char>>, token: Seq<char>, now: i64) -> Result<ClaimsValue, ServiceError> {
    match secret {
        None => Err(ServiceError::Configuration),
        Some(s) => spec_verify(token, s, now),
    }
}

/// Issuing a refresh session for the raw secret `raw` at `now`.
pub open spec fn spec_issue(t: SessionTable, user_id: i32, raw: Seq<char>, now: i64) -> (SessionTable, Result<(), ServiceError>) {
    let (t2, r) = spec_create(t, user_id, sha256_hex(raw), expiry(now, REFRESH_TTL_SECS), now);
    (t2, match r {
        Ok(_) => Ok(()),
        Err(e) => Err(e),
    })
}

/// Redeeming the raw secret `raw` at `now`: an expired session is deleted on detection.
pub open spec fn spec_redeem(t: SessionTable, raw: Seq<char>, now: i64) -> (SessionTable, Result<i32, RedeemError>) {
    let h = sha256_hex(raw);
    match lookup(t.sessions, h) {
        None => (t, Err(RedeemError::NotFound)),
        Some(s) => if s.expired_at(now) {
            (SessionTable { sessions: without_hash(t.sessions, h), next_id: t.next_id }, Err(RedeemError::Expired))
        } else {
            (t, Ok(s.user_id))
        },
    }
}

/// Revoking the raw secret `raw`: its session, if any, is deleted.
pub open spec fn spec_revoke(t: SessionTable, raw: Seq<char>) -> SessionTable {
    SessionTable { sessions: without_hash(t.sessions, sha256_hex(raw)), next_id: t.next_id }
}

/// Revoking every session of `user_id`.
pub open spec fn spec_revoke_all(t: SessionTable, user_id: i32) -> SessionTable {
    SessionTable { sessions: without_owner(t.sessions, user_id), next_id: t.next_id }
}

/// Deleting every session past its expiry at `now`.
pub open spec fn spec_reap(t: SessionTable, now: i64) -> SessionTable {
    SessionTable { sessions: live_at(t.sessions, now), next_id: t.next_id }
}

/// Redeeming then minting: what `refresh_access_token_at` does.
pub open spec fn spec_refresh_access(st: TokenState, raw: Seq<char>, now: i64) -> (SessionTable, Result<(Seq<char>, i32), ServiceError>) {
    let (t2, r) = spec_redeem(st.sessions, raw, now);
    match r {
        Err(e) => (t2, Err(e.spec_to_service())),
        Ok(u) => match spec_mint(st.secret, st.access_ttl, u, now) {
            Err(e) => (t2, Err(e)),
            Ok(tok) => (t2, Ok((tok, u))),
        },
    }
}

/// A freshly issued refresh secret redeems for its user at any instant up to its expiry.
pub proof fn lemma_issued_secret_redeems(t: SessionTable, user_id: i32, raw: Seq<char>, now: i64, later: i64)
    requires
        table_wf(t),
        spec_issue(t, user_id, raw, now).1 is Ok,
        later <= expiry(now, REFRESH_TTL_SECS),
    ensures
        ({
            let t2 = spec_issue(t, user_id, raw, now).0;
            spec_redeem(t2, raw, later) == (t2, Ok::<i32, RedeemError>(user_id))
        }),
{
    let h = sha256_hex(raw);
    let t2 = spec_issue(t, user_id, raw, now).0;
    let ss = t2.sessions;
    let last = ss.len() - 1;
    assert(ss[last].token_hash == h);
    let c = choose|c: int| 0 <= c < ss.len() && #[trigger] ss[c].token_hash == h;
    if c != last {
        assert(ss[c] == t.sessions[c]);
        assert(lookup(t.sessions, h) is Some);
    }
}

/// An expired record fails to redeem and is deleted on the way: a second redeem of the
/// same secret finds nothing.
pub proof fn lemma_expired_secret_removed(t: SessionTable, raw: Seq<char>, now: i64, later: i64)
    requires
        table_wf(t),
        lookup(t.sessions, sha256_hex(raw)) is Some,
        lookup(t.sessions, sha256_hex(raw))->0.expired_at(now),
    ensures
        ({
            let (t2, r) = spec_redeem(t, raw, now);
            &&& r == Err::<i32, RedeemError>(RedeemError::Expired)
            &&& lookup(t2.sessions, sha256_hex(raw)) is None
            &&& spec_redeem(t2, raw, later) == (t2, Err::<i32, RedeemError>(RedeemError::NotFound))
        }),
{
    lemma_revoked_secret_gone(t, raw);
}

/// After a revoke no session carries the secret's hash.
pub proof fn lemma_revoked_secret_gone(t: SessionTable, raw: Seq<char>)
    ensures
        lookup(spec_revoke(t, raw).sessions, sha256_hex(raw)) is None,
{
    let h = sha256_hex(raw);
    let p = |s: SessionRow| s.token_hash != h;
    let f = t.sessions.filter(p);
    assert forall|i: int| 0 <= i < f.len() implies #[trigger] f[i].token_hash != h by {
        t.sessions.lemma_filter_pred(p, i);
    }
}

/// Revoking every session of a user removes exactly that user's sessions: none of theirs
/// remains, and every session of another user does.
pub proof fn lemma_revoke_all_exact(t: SessionTable, user_id: i32)
    ensures
        ({
            let t2 = spec_revoke_all(t, user_id);
            &&& forall|i: int| 0 <= i < t2.sessions.len() ==> #[trigger] t2.sessions[i].user_id != user_id
            &&& forall|i: int| 0 <= i < t.sessions.len() && t.sessions[i].user_id != user_id
                ==> t2.sessions.contains(#[trigger] t.sessions[i])
            &&& forall|i: int| 0 <= i < t2.sessions.len() ==> t.sessions.contains(#[trigger] t2.sessions[i])
        }),
{
    let p = |s: SessionRow| s.user_id != user_id;
    let f = t.sessions.filter(p);
    assert forall|i: int| 0 <= i < f.len() implies #[trigger] f[i].user_id != user_id by {
        t.sessions.lemma_filter_pred(p, i);
    }
    assert forall|i: int| 0 <= i < t.sessions.len() && t.sessions[i].user_id != user_id
        implies f.contains(#[trigger] t.sessions[i]) by {
        t.sessions.lemma_filter_contains(p, i);
    }
    lemma_filter_subset(t.sessions, p);
    assert forall|i: int| 0 <= i < f.len() implies t.sessions.contains(#[trigger] f[i]) by {
        let j = choose|j: int| 0 <= j < t.sessions.len() && f[i] == t.sessions[j];
    }
}

/// Mints access credentials and keeps refresh sessions.
pub struct TokenService {
    refresh_token_repo: RefreshTokenRepository,
    jwt_secret: Option<String>,
    access_ttl: i64,
}

impl View for TokenService {
    type V = TokenState;

    closed spec fn view(&self) -> TokenState {
        TokenState {
            sessions: self.refresh_token_repo@,
            secret: match self.jwt_secret {
                Some(s) => Some(s@),
                None => None,
            },
            access_ttl: self.access_ttl,
        }
    }
}

impl TokenService {
    pub open spec fn wf(&self) -> bool {
        table_wf(self@.sessions)
    }

    /// A service signing with `jwt_secret`, whose access credentials live 15 minutes.
    pub fn new(jwt_secret: Option<String>) -> (r: Self)
        ensures
            r.wf(),
            r@.sessions.sessions.len() == 0,
            r@.sessions.next_id == 1,
            r@.secret == match jwt_secret {
                Some(s) => Some(s@),
                None => None::<Seq<char>>,
            },
            r@.access_ttl == ACCESS_TTL_SECS,
    {
        Self::with_access_ttl(jwt_secret, ACCESS_TTL_SECS)
    }

    /// A service signing with `jwt_secret`, whose access credentials live `access_ttl` seconds.
    pub fn with_access_ttl(jwt_secret: Option<String>, access_ttl: i64) -> (r: Self)
        ensures
            r.wf(),
            r@.sessions.sessions.len() == 0,
            r@.sessions.next_id == 1,
            r@.secret == match jwt_secret {
                Some(s) => Some(s@),
                None => None::<Seq<char>>,
            },
            r@.access_ttl == access_ttl,
    {
        TokenService { refresh_token_repo: RefreshTokenRepository::new(), jwt_secret, access_ttl }
    }

    /// The refresh-session table.
    pub fn refresh_token_repo(&self) -> (r: &RefreshTokenRepository)
        ensures
            r@ == self@.sessions,
    {
        &self.refresh_token_repo
    }

    /// Mints an access credential for `user_id`, issued at `now`.
    pub fn generate_access_token_at(&self, user_id: i32, now: i64) -> (r: Result<String, ServiceError>)
        ensures
            match r {
                Ok(t) => spec_mint(self@.secret, self@.access_ttl, user_id, now) == Ok::<Seq<char>, ServiceError>(t@)
                    && decoded_claims(t@, self@.secret->0) == Some((decimal(user_id as int), now, expiry(now, self@.access_ttl))),
                Err(e) => spec_mint(self@.secret, self@.access_ttl, user_id, now) == Err::<Seq<char>, ServiceError>(e),
            },
    {
        match &self.jwt_secret {
            None => Err(ServiceError::Configuration),
            Some(s) => Ok(generate_token(user_id, s.as_str(), self.access_ttl, now)),
        }
    }

    /// Mints an access credential for `user_id`, issued now.
    pub fn generate_access_token(&self, user_id: i32) -> (r: Result<String, ServiceError>)
        ensures
            r is Err <==> self@.secret is None,
            r is Err ==> r == Err::<String, ServiceError>(ServiceError::Configuration),
            match r {
                Ok(t) => exists|now: i64| decoded_claims(t@, self@.secret->0) == Some((decimal(user_id as int), now, expiry(now, self@.access_ttl))),
                Err(_) => true,
            },
    {
        let now = unix_now();
        self.generate_access_token_at(user_id, now)
    }

    /// Verifies an access credential at `now`.
    pub fn verify_access_token_at(&self, token: &str, now: i64) -> (r: Result<Claims, ServiceError>)
        ensures
            result_value(r) == spec_verify_with(self@.secret, token@, now),
    {
        match &self.jwt_secret {
            None => Err(ServiceError::Configuration),
            Some(s) => verify_token(token, s.as_str(), now),
        }
    }

    /// Verifies an access credential against the current time.
    pub fn verify_access_token(&self, token: &str) -> (r: Result<Claims, ServiceError>)
        ensures
            exists|now: i64| result_value(r) == spec_verify_with(self@.secret, token@, now),
    {
        let now = unix_now();
        self.verify_access_token_at(token, now)
    }

    /// Stores a refresh session for the raw secret `raw`, issued at `now`.
    pub fn generate_refresh_token_with(&mut self, user_id: i32, raw: &str, now: i64) -> (r: Result<(), ServiceError>)
        requires
            old(self).wf(),
        ensures
            final(self).wf(),
            (final(self)@.sessions, r) == spec_issue(old(self)@.sessions, user_id, raw@, now),
            final(self)@.secret == old(self)@.secret,
            final(self)@.access_ttl == old(self)@.access_ttl,
    {
        let token_hash = hash_token(raw);
        let expires_at = expiry_after(now, REFRESH_TTL_SECS);
        match self.refresh_token_repo.create(user_id, token_hash, expires_at, now) {
            Ok(_) => Ok(()),
            Err(e) => Err(e),
        }
    }

    /// Stores a refresh session for a fresh random secret, issued now, and returns the secret.
    pub fn generate_refresh_token(&mut self, user_id: i32) -> (r: Result<String, ServiceError>)
        requires
            old(self).wf(),
        ensures
            final(self).wf(),
            final(self)@.secret == old(self)@.secret,
            final(self)@.access_ttl == old(self)@.access_ttl,
            match r {
                Ok(raw) => exists|now: i64| #[trigger] spec_issue(old(self)@.sessions, user_id, raw@, now) == (final(self)@.sessions, Ok::<(), ServiceError>(())),
                Err(e) => exists|raw: Seq<char>, now: i64| #[trigger] spec_issue(old(self)@.sessions, user_id, raw, now) == (final(self)@.sessions, Err::<(), ServiceError>(e)),
            },
    {
        let raw = random_secret();
        let now = unix_now();
        match self.generate_refresh_token_with(user_id, raw.as_str(), now) {
            Ok(()) => {
                let ghost v = raw@;
                assert(spec_issue(old(self)@.sessions, user_id, v, now) == (self@.sessions, Ok::<(), ServiceError>(())));
                let res: Result<String, ServiceError> = Ok(raw);
                assert(res->Ok_0@ == v);
                res
            },
            Err(e) => {
                assert(spec_issue(old(self)@.sessions, user_id, raw@, now) == (self@.sessions, Err::<(), ServiceError>(e)));
                Err(e)
            },
        }
    }

    /// Looks up the session of the raw secret `raw`; an expired one is deleted.
    pub fn redeem_at(&mut self, raw: &str, now: i64) -> (r: Result<i32, RedeemError>)
        requires
            old(self).wf(),
        ensures
            final(self).wf(),
            (final(self)@.sessions, r) == spec_redeem(old(self)@.sessions, raw@, now),
            final(self)@.secret == old(self)@.secret,
            final(self)@.access_ttl == old(self)@.access_ttl,
    {
        let token_hash = hash_token(raw);
        match self.refresh_token_repo.find_by_token_hash(&token_hash) {
            None => Err(RedeemError::NotFound),
            Some(s) => {
                if s.expires_at < now {
                    self.refresh_token_repo.delete_by_token_hash(&token_hash);
                    Err(RedeemError::Expired)
                } else {
                    Ok(s.user_id)
                }
            },
        }
    }

    /// Redeems the raw secret `raw` at `now` and mints an access credential for its owner.
    pub fn refresh_access_token_at(&mut self, raw: &str, now: i64) -> (r: Result<(String, i32), ServiceError>)
        requires
            old(self).wf(),
        ensures
            final(self).wf(),
            (final(self)@.sessions, match r {
                Ok((t, u)) => Ok((t@, u)),
                Err(e) => Err(e),
            }) == spec_refresh_access(old(self)@, raw@, now),
            final(self)@.secret == old(self)@.secret,
            final(self)@.access_ttl == old(self)@.access_ttl,
    {
        match self.redeem_at(raw, now) {
            Err(e) => Err(e.to_service_error()),
            Ok(user_id) => match self.generate_access_token_at(user_id, now) {
                Err(e) => Err(e),
                Ok(t) => Ok((t, user_id)),
            },
        }
    }

    /// Redeems the raw secret `raw` now and mints an access credential for its owner.
    pub fn refresh_access_token(&mut self, raw: &str) -> (r: Result<(String, i32), ServiceError>)
        requires
            old(self).wf(),
        ensures
            final(self).wf(),
            exists|now: i64| #[trigger] spec_refresh_access(old(self)@, raw@, now) == (final(self)@.sessions, match r {
                Ok((t, u)) => Ok((t@, u)),
                Err(e) => Err(e),
            }),
            final(self)@.secret == old(self)@.secret,
            final(self)@.access_ttl == old(self)@.access_ttl,
    {
        let now = unix_now();
        self.refresh_access_token_at(raw, now)
    }

    /// Deletes the session of the raw secret `raw`; deleting an absent one is no error.
    pub fn revoke_refresh_token(&mut self, raw: &str)
        requires
            old(self).wf(),
        ensures
            final(self).wf(),
            final(self)@.sessions == spec_revoke(old(self)@.sessions, raw@),
            final(self)@.secret == old(self)@.secret,
            final(self)@.access_ttl == old(self)@.access_ttl,
    {
        let token_hash = hash_token(raw);
        self.refresh_token_repo.delete_by_token_hash(&token_hash);
    }

    /// Deletes every session that `user_id` owns.
    pub fn revoke_all_refresh_tokens(&mut self, user_id: i32)
        requires
            old(self).wf(),
        ensures
            final(self).wf(),
            final(self)@.sessions == spec_revoke_all(old(self)@.sessions, user_id),
            final(self)@.secret == old(self)@.secret,
            final(self)@.access_ttl == old(self)@.access_ttl,
    {
        self.refresh_token_repo.delete_by_user_id(user_id);
    }

    /// Deletes every session past its expiry at `now`; returns how many went.
    pub fn reap_expired_at(&mut self, now: i64) -> (r: usize)
        requires
            old(self).wf(),
        ensures
            final(self).wf(),
            final(self)@.sessions == spec_reap(old(self)@.sessions, now),
            r == old(self)@.sessions.sessions.len() - final(self)@.sessions.sessions.len(),
            final(self)@.secret == old(self)@.secret,
            final(self)@.access_ttl == old(self)@.access_ttl,
    {
        self.refresh_token_repo.delete_expired(now)
    }

    /// Lifetime of an access credential, in seconds.
    pub fn access_token_max_age() -> (r: i64)
        ensures
            r == ACCESS_TTL_SECS,
    {
        ACCESS_TTL_SECS
    }

    /// Lifetime of a refresh session, in seconds.
    pub fn refresh_token_max_age() -> (r: i64)
        ensures
            r == REFRESH_TTL_SECS,
    {
        REFRESH_TTL_SECS
    }
}

} // verus!
