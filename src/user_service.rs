use vstd::prelude::*;

use crate::errors::{RedeemError, ServiceError};
use crate::model::{LinkRow, Provider, User, UserRow};
use crate::oauth_account_repository::{
    lemma_create_link, link_for, link_table_wf, links_not_of, spec_create_link, LinkTable,
    OAuthAccountRepository,
};
use crate::refresh_token_repository::{table_wf, SessionTable};
use crate::secret::{random_secret, unix_now};
use crate::seq_facts::{key_is, lemma_filter_subset, lemma_find_by_key};
use crate::token_service::{
    lemma_revoked_secret_gone, spec_issue, spec_mint, spec_reap, spec_redeem, spec_refresh_access,
    spec_revoke, spec_revoke_all, TokenService, TokenState,
};
use crate::user_dto::{AuthResponse, OAuthLoginRequest, UserResponse};
use crate::user_repository::{
    email_key, lemma_create_user, spec_create_user, user_by_email, user_by_id, user_id_key,
    user_table_wf, without_user, UserRepository, UserTable,
};

verus! {

/// The abstract state of the authentication core.
pub struct AuthState {
    pub users: UserTable,
    pub links: LinkTable,
    pub tokens: TokenState,
}

/// Every link belongs to a stored user.
pub open spec fn links_owned(users: UserTable, links: LinkTable) -> bool {
    forall|i: int| 0 <= i < links.links.len() ==> #[trigger] user_by_id(users.users, links.links[i].user_id) is Some
}

pub open spec fn state_wf(s: AuthState) -> bool {
    &&& user_table_wf(s.users)
    &&& link_table_wf(s.links)
    &&& table_wf(s.tokens.sessions)
    &&& links_owned(s.users, s.links)
}

/// Identity resolution, first match wins: an existing link, then a user with the same
/// email (who gets a new link), then a new user with a new link.
pub open spec fn spec_resolve(
    u: UserTable,
    l: LinkTable,
    provider: Provider,
    provider_user_id: Seq<char>,
    email: Seq<char>,
    username: Seq<char>,
    now: i64,
) -> (UserTable, LinkTable, Result<UserRow, ServiceError>) {
    match link_for(l.links, provider, provider_user_id) {
        Some(link) => match user_by_id(u.users, link.user_id) {
            Some(user) => (u, l, Ok(user)),
            None => (u, l, Err(ServiceError::Persistence)),
        },
        None => match user_by_email(u.users, email) {
            Some(user) => {
                let (l2, r) = spec_create_link(l, user.id, provider, provider_user_id, now);
                (u, l2, match r {
                    Ok(_) => Ok(user),
                    Err(e) => Err(e),
                })
            },
            None => {
                let (u2, r) = spec_create_user(u, username, email, None, now);
                match r {
                    Err(e) => (u2, l, Err(e)),
                    Ok(user) => {
                        let (l2, r2) = spec_create_link(l, user.id, provider, provider_user_id, now);
                        (u2, l2, match r2 {
                            Ok(_) => Ok(user),
                            Err(e) => Err(e),
                        })
                    },
                }
            },
        },
    }
}

/// Resolving a provider identity again returns the same user and changes nothing,
/// whatever email and username come with the repeated call.
pub proof fn lemma_resolve_idempotent(
    u: UserTable,
    l: LinkTable,
    provider: Provider,
    provider_user_id: Seq<char>,
    email: Seq<char>,
    username: Seq<char>,
    now: i64,
    email2: Seq<char>,
    username2: Seq<char>,
    now2: i64,
)
    requires
        user_table_wf(u),
        link_table_wf(l),
        spec_resolve(u, l, provider, provider_user_id, email, username, now).2 is Ok,
    ensures
        ({
            let (u1, l1, r1) = spec_resolve(u, l, provider, provider_user_id, email, username, now);
            spec_resolve(u1, l1, provider, provider_user_id, email2, username2, now2) == (u1, l1, r1)
        }),
{
    let (u1, l1, r1) = spec_resolve(u, l, provider, provider_user_id, email, username, now);
    if link_for(l.links, provider, provider_user_id) is None {
        match user_by_email(u.users, email) {
            Some(user) => {
                lemma_create_link(l, user.id, provider, provider_user_id, now);
                let k = key_is(email_key(), email);
                let c = choose|c: int| 0 <= c < u.users.len() && #[trigger] k(u.users[c]);
                lemma_find_by_key(u.users, user_id_key(), c);
            },
            None => {
                lemma_create_user(u, username, email, None, now);
                let user = spec_create_user(u, username, email, None, now).1->Ok_0;
                lemma_create_link(l, user.id, provider, provider_user_id, now);
            },
        }
    }
}

/// Two fresh identities of different providers that carry the same email resolve to one
/// user: the second is linked to the user that the first produced.
pub proof fn lemma_same_email_one_user(
    u: UserTable,
    l: LinkTable,
    provider: Provider,
    provider_user_id: Seq<char>,
    provider2: Provider,
    provider_user_id2: Seq<char>,
    email: Seq<char>,
    username: Seq<char>,
    username2: Seq<char>,
    now: i64,
    now2: i64,
)
    requires
        user_table_wf(u),
        link_table_wf(l),
        provider != provider2,
        link_for(l.links, provider, provider_user_id) is None,
        link_for(l.links, provider2, provider_user_id2) is None,
        spec_resolve(u, l, provider, provider_user_id, email, username, now).2 is Ok,
    ensures
        ({
            let (u1, l1, r1) = spec_resolve(u, l, provider, provider_user_id, email, username, now);
            let (u2, l2, r2) = spec_resolve(u1, l1, provider2, provider_user_id2, email, username2, now2);
            &&& r2 is Ok ==> r2 == r1
            &&& r2 is Err ==> r2 == Err::<UserRow, ServiceError>(ServiceError::Persistence)
            &&& u2 == u1
        }),
{
    let (u1, l1, r1) = spec_resolve(u, l, provider, provider_user_id, email, username, now);
    let user = r1->Ok_0;
    match user_by_email(u.users, email) {
        Some(found) => {
            lemma_create_link(l, found.id, provider, provider_user_id, now);
            assert(link_for(l1.links, provider2, provider_user_id2) is None);
        },
        None => {
            lemma_create_user(u, username, email, None, now);
            lemma_create_link(l, user.id, provider, provider_user_id, now);
            assert(link_for(l1.links, provider2, provider_user_id2) is None);
        },
    }
    lemma_create_link(l1, user.id, provider2, provider_user_id2, now2);
}

/// A login: resolve the identity, mint an access credential, store a refresh session
/// for `raw_refresh`.
pub open spec fn spec_login(
    s: AuthState,
    provider: Provider,
    provider_user_id: Seq<char>,
    email: Seq<char>,
    username: Seq<char>,
    raw_refresh: Seq<char>,
    now: i64,
) -> (AuthState, Result<(UserRow, Seq<char>), ServiceError>) {
    let (u2, l2, r) = spec_resolve(s.users, s.links, provider, provider_user_id, email, username, now);
    match r {
        Err(e) => (AuthState { users: u2, links: l2, tokens: s.tokens }, Err(e)),
        Ok(user) => match spec_mint(s.tokens.secret, s.tokens.access_ttl, user.id, now) {
            Err(e) => (AuthState { users: u2, links: l2, tokens: s.tokens }, Err(e)),
            Ok(access) => {
                let (t2, r2) = spec_issue(s.tokens.sessions, user.id, raw_refresh, now);
                let s2 = AuthState { users: u2, links: l2, tokens: TokenState { sessions: t2, ..s.tokens } };
                (s2, match r2 {
                    Ok(_) => Ok((user, access)),
                    Err(e) => Err(e),
                })
            },
        },
    }
}

/// A rotation: redeem `raw`, mint an access credential, store a session for `new_raw`,
/// then revoke `raw`.
pub open spec fn spec_refresh(
    t: TokenState,
    raw: Seq<char>,
    new_raw: Seq<char>,
    now: i64,
) -> (SessionTable, Result<(Seq<char>, i32), ServiceError>) {
    let (t1, r1) = spec_refresh_access(t, raw, now);
    match r1 {
        Err(e) => (t1, Err(e)),
        Ok((access, user_id)) => {
            let (t2, r2) = spec_issue(t1, user_id, new_raw, now);
            match r2 {
                Err(e) => (t2, Err(e)),
                Ok(_) => (spec_revoke(t2, raw), Ok((access, user_id))),
            }
        },
    }
}

/// A successful rotation consumes the old secret: redeeming it again finds nothing, and
/// a second rotation with it fails with `RefreshInvalid`.
pub proof fn lemma_refresh_consumes_secret(t: TokenState, raw: Seq<char>, new_raw: Seq<char>, now: i64, new_raw2: Seq<char>, later: i64)
    requires
        spec_refresh(t, raw, new_raw, now).1 is Ok,
    ensures
        ({
            let t2 = TokenState { sessions: spec_refresh(t, raw, new_raw, now).0, ..t };
            &&& spec_redeem(t2.sessions, raw, later) == (t2.sessions, Err::<i32, RedeemError>(RedeemError::NotFound))
            &&& spec_refresh(t2, raw, new_raw2, later) == (t2.sessions, Err::<(Seq<char>, i32), ServiceError>(ServiceError::RefreshInvalid))
        }),
{
    let (t1, r1) = spec_refresh_access(t, raw, now);
    let (t2, r2) = spec_issue(t1, r1->Ok_0.1, new_raw, now);
    lemma_revoked_secret_gone(t2, raw);
}

/// The state once the sessions became `t`.
pub open spec fn with_sessions(s: AuthState, t: SessionTable) -> AuthState {
    AuthState { users: s.users, links: s.links, tokens: TokenState { sessions: t, ..s.tokens } }
}

/// Resolves identities, and mints and rotates the credentials of a session.
pub struct UserService {
    user_repo: UserRepository,
    oauth_repo: OAuthAccountRepository,
    token_service: TokenService,
}

impl View for UserService {
    type V = AuthState;

    closed spec fn view(&self) -> AuthState {
        AuthState { users: self.user_repo@, links: self.oauth_repo@, tokens: self.token_service@ }
    }
}

impl UserService {
    pub open spec fn wf(&self) -> bool {
        state_wf(self@)
    }

    /// An empty service around `token_service`, which holds no sessions yet.
    pub fn new(token_service: TokenService) -> (r: Self)
        requires
            token_service.wf(),
        ensures
            r.wf(),
            r@.users.users.len() == 0,
            r@.links.links.len() == 0,
            r@.tokens == token_service@,
    {
        UserService { user_repo: UserRepository::new(), oauth_repo: OAuthAccountRepository::new(), token_service }
    }

    pub fn user_repo(&self) -> (r: &UserRepository)
        ensures
            r@ == self@.users,
    {
        &self.user_repo
    }

    pub fn oauth_repo(&self) -> (r: &OAuthAccountRepository)
        ensures
            r@ == self@.links,
    {
        &self.oauth_repo
    }

    pub fn token_service(&self) -> (r: &TokenService)
        ensures
            r@ == self@.tokens,
    {
        &self.token_service
    }

    /// Maps a provider identity to a local user, linking or creating one as needed.
    pub fn resolve(&mut self, req: &OAuthLoginRequest, now: i64) -> (r: Result<User, ServiceError>)
        requires
            old(self).wf(),
        ensures
            final(self).wf(),
            final(self)@.tokens == old(self)@.tokens,
            ({
                let (u2, l2, res) = spec_resolve(
                    old(self)@.users,
                    old(self)@.links,
                    req.provider,
                    req.provider_user_id@,
                    req.email@,
                    req.username@,
                    now,
                );
                &&& final(self)@.users == u2
                &&& final(self)@.links == l2
                &&& res == match r {
                    Ok(u) => Ok(u@),
                    Err(e) => Err::<UserRow, ServiceError>(e),
                }
            }),
    {
        let ghost u0 = self@.users;
        let ghost l0 = self@.links;
        if let Some(link) = self.oauth_repo.find_by_provider_and_id(req.provider, &req.provider_user_id) {
            return match self.user_repo.find_by_id(link.user_id) {
                Some(user) => Ok(user),
                None => Err(ServiceError::Persistence),
            };
        }
        let user = match self.user_repo.find_by_email(&req.email) {
            Some(existing) => existing,
            None => {
                match self.user_repo.create(req.username.clone(), req.email.clone(), None, now) {
                    Ok(created) => created,
                    Err(e) => {
                        return Err(e);
                    },
                }
            },
        };
        let ghost u1 = self@.users;
        proof {
            assert(user_by_id(u1.users, user@.id) is Some) by {
                assert(user_by_email(u1.users, req.email@) == Some(user@)) by {
                    if user_by_email(u0.users, req.email@) is None {
                        let i = u1.users.len() - 1;
                        assert(u1.users[i] == user@);
                        lemma_find_by_key(u1.users, email_key(), i);
                    }
                }
                let p = key_is(email_key(), req.email@);
                let c = choose|c: int| 0 <= c < u1.users.len() && #[trigger] p(u1.users[c]);
                assert(u1.users[c] == user@);
                lemma_find_by_key(u1.users, user_id_key(), c);
            }
        }
        proof {
            assert forall|i: int| 0 <= i < l0.links.len() implies #[trigger] user_by_id(u1.users, l0.links[i].user_id) is Some by {
                if u1 != u0 {
                    let id = l0.links[i].user_id;
                    assert(user_by_id(u0.users, id) is Some);
                    let p = key_is(user_id_key(), id);
                    let c = choose|c: int| 0 <= c < u0.users.len() && #[trigger] p(u0.users[c]);
                    assert(u1.users[c] == u0.users[c]);
                    assert(p(u1.users[c]));
                }
            }
        }
        match self.oauth_repo.create(user.id, req.provider, req.provider_user_id.clone(), now) {
            Ok(_) => {},
            Err(e) => {
                return Err(e);
            },
        }
        proof {
            let l2 = self@.links;
            assert forall|i: int| 0 <= i < l2.links.len() implies #[trigger] user_by_id(u1.users, l2.links[i].user_id) is Some by {
                if i < l0.links.len() {
                    assert(l2.links[i] == l0.links[i]);
                }
            }
        }
        Ok(user)
    }

    /// Logs in with a provider identity at `now`; `raw_refresh` becomes the refresh secret.
    pub fn oauth_login_at(&mut self, req: &OAuthLoginRequest, raw_refresh: &str, now: i64) -> (r: Result<(AuthResponse, String, String), ServiceError>)
        requires
            old(self).wf(),
        ensures
            final(self).wf(),
            ({
                let (s2, res) = spec_login(
                    old(self)@,
                    req.provider,
                    req.provider_user_id@,
                    req.email@,
                    req.username@,
                    raw_refresh@,
                    now,
                );
                &&& final(self)@ == s2
                &&& match r {
                    Ok((resp, access, refresh)) => res is Ok && resp.user.describes(res->Ok_0.0)
                        && access@ == res->Ok_0.1 && refresh@ == raw_refresh@,
                    Err(e) => res == Err::<(UserRow, Seq<char>), ServiceError>(e),
                }
            }),
    {
        let user = match self.resolve(req, now) {
            Ok(u) => u,
            Err(e) => {
                return Err(e);
            },
        };
        let access = match self.token_service.generate_access_token_at(user.id, now) {
            Ok(t) => t,
            Err(e) => {
                return Err(e);
            },
        };
        match self.token_service.generate_refresh_token_with(user.id, raw_refresh, now) {
            Ok(()) => {},
            Err(e) => {
                return Err(e);
            },
        }
        let refresh = raw_refresh.to_owned();
        Ok((AuthResponse { user: UserResponse::from_user(user) }, access, refresh))
    }

    /// Logs in with a provider identity now, with a fresh random refresh secret.
    pub fn oauth_login(&mut self, req: &OAuthLoginRequest) -> (r: Result<(AuthResponse, String, String), ServiceError>)
        requires
            old(self).wf(),
        ensures
            final(self).wf(),
            exists|raw: Seq<char>, now: i64| {
                let (s2, res) = #[trigger] spec_login(
                    old(self)@,
                    req.provider,
                    req.provider_user_id@,
                    req.email@,
                    req.username@,
                    raw,
                    now,
                );
                &&& final(self)@ == s2
                &&& match r {
                    Ok((resp, access, refresh)) => res is Ok && resp.user.describes(res->Ok_0.0)
                        && access@ == res->Ok_0.1 && refresh@ == raw,
                    Err(e) => res == Err::<(UserRow, Seq<char>), ServiceError>(e),
                }
            },
    {
        let raw = random_secret();
        let now = unix_now();
        let r = self.oauth_login_at(req, raw.as_str(), now);
        assert(spec_login(old(self)@, req.provider, req.provider_user_id@, req.email@, req.username@, raw@, now).0 == self@);
        r
    }

    /// Rotates the refresh secret `raw` at `now`: `new_raw` replaces it. Returns the new
    /// access credential, the new refresh secret and the user id.
    pub fn refresh_tokens_at(&mut self, raw: &str, new_raw: &str, now: i64) -> (r: Result<(String, String, i32), ServiceError>)
        requires
            old(self).wf(),
        ensures
            final(self).wf(),
            ({
                let (t2, res) = spec_refresh(old(self)@.tokens, raw@, new_raw@, now);
                &&& final(self)@ == with_sessions(old(self)@, t2)
                &&& res == match r {
                    Ok((access, _, u)) => Ok((access@, u)),
                    Err(e) => Err::<(Seq<char>, i32), ServiceError>(e),
                }
                &&& r is Ok ==> r->Ok_0.1@ == new_raw@
            }),
    {
        let (access, user_id) = match self.token_service.refresh_access_token_at(raw, now) {
            Ok(p) => p,
            Err(e) => {
                return Err(e);
            },
        };
        match self.token_service.generate_refresh_token_with(user_id, new_raw, now) {
            Ok(()) => {},
            Err(e) => {
                return Err(e);
            },
        }
        self.token_service.revoke_refresh_token(raw);
        Ok((access, new_raw.to_owned(), user_id))
    }

    /// Rotates the refresh secret `raw` now, with a fresh random replacement.
    pub fn refresh_tokens(&mut self, raw: &str) -> (r: Result<(String, String, i32), ServiceError>)
        requires
            old(self).wf(),
        ensures
            final(self).wf(),
            exists|new_raw: Seq<char>, now: i64| {
                let (t2, res) = #[trigger] spec_refresh(old(self)@.tokens, raw@, new_raw, now);
                &&& final(self)@ == with_sessions(old(self)@, t2)
                &&& res == match r {
                    Ok((access, _, u)) => Ok((access@, u)),
                    Err(e) => Err::<(Seq<char>, i32), ServiceError>(e),
                }
                &&& r is Ok ==> r->Ok_0.1@ == new_raw
            },
    {
        let new_raw = random_secret();
        let now = unix_now();
        let r = self.refresh_tokens_at(raw, new_raw.as_str(), now);
        assert(with_sessions(old(self)@, spec_refresh(old(self)@.tokens, raw@, new_raw@, now).0) == self@);
        r
    }

    /// Revokes the session of `raw`; succeeds even when it is unknown.
    pub fn logout(&mut self, raw: &str)
        requires
            old(self).wf(),
        ensures
            final(self).wf(),
            final(self)@ == with_sessions(old(self)@, spec_revoke(old(self)@.tokens.sessions, raw@)),
    {
        self.token_service.revoke_refresh_token(raw);
    }

    /// Revokes every session of `user_id`.
    pub fn logout_all(&mut self, user_id: i32)
        requires
            old(self).wf(),
        ensures
            final(self).wf(),
            final(self)@ == with_sessions(old(self)@, spec_revoke_all(old(self)@.tokens.sessions, user_id)),
    {
        self.token_service.revoke_all_refresh_tokens(user_id);
    }

    /// Deletes every session past its expiry at `now`; returns how many went.
    pub fn reap_expired_at(&mut self, now: i64) -> (r: usize)
        requires
            old(self).wf(),
        ensures
            final(self).wf(),
            final(self)@ == with_sessions(old(self)@, spec_reap(old(self)@.tokens.sessions, now)),
            r == old(self)@.tokens.sessions.sessions.len() - final(self)@.tokens.sessions.sessions.len(),
    {
        self.token_service.reap_expired_at(now)
    }

    /// Deletes every session past its expiry now.
    pub fn reap_expired(&mut self) -> (r: usize)
        requires
            old(self).wf(),
        ensures
            final(self).wf(),
            exists|now: i64| final(self)@ == #[trigger] with_sessions(old(self)@, spec_reap(old(self)@.tokens.sessions, now)),
    {
        let now = unix_now();
        self.reap_expired_at(now)
    }

    /// Deletes a user together with the links and sessions it owns.
    pub fn delete_user(&mut self, user_id: i32) -> (r: bool)
        requires
            old(self).wf(),
        ensures
            final(self).wf(),
            final(self)@.users.users == without_user(old(self)@.users.users, user_id),
            final(self)@.links.links == links_not_of(old(self)@.links.links, user_id),
            final(self)@.tokens.sessions == spec_revoke_all(old(self)@.tokens.sessions, user_id),
            final(self)@.users.next_id == old(self)@.users.next_id,
            final(self)@.links.next_id == old(self)@.links.next_id,
            final(self)@.tokens.secret == old(self)@.tokens.secret,
            final(self)@.tokens.access_ttl == old(self)@.tokens.access_ttl,
            r == (user_by_id(old(self)@.users.users, user_id) is Some),
    {
        let existed = self.user_repo.find_by_id(user_id).is_some();
        let ghost l0 = self@.links;
        let ghost u0 = self@.users;
        self.oauth_repo.delete_by_user_id(user_id);
        self.token_service.revoke_all_refresh_tokens(user_id);
        self.user_repo.delete(user_id);
        proof {
            let u1 = self@.users;
            let l1 = self@.links;
            let pl = |l: LinkRow| l.user_id != user_id;
            let pu = |u: UserRow| u.id != user_id;
            lemma_filter_subset(l0.links, pl);
            assert forall|i: int| 0 <= i < l1.links.len() implies #[trigger] user_by_id(u1.users, l1.links[i].user_id) is Some by {
                let j = choose|j: int| 0 <= j < l0.links.len() && l1.links[i] == l0.links[j];
                let id = l0.links[j].user_id;
                assert(pl(l1.links[i])) by {
                    l0.links.lemma_filter_pred(pl, i);
                }
                assert(user_by_id(u0.users, id) is Some);
                let p = key_is(user_id_key(), id);
                let c = choose|c: int| 0 <= c < u0.users.len() && #[trigger] p(u0.users[c]);
                assert(pu(u0.users[c]));
                u0.users.lemma_filter_contains(pu, c);
                let k = choose|k: int| 0 <= k < u1.users.len() && u1.users[k] == u0.users[c];
                assert(p(u1.users[k]));
            }
        }
        existed
    }
}

} // verus!
