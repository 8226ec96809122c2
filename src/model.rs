use vstd::prelude::*;

verus! {

/// Lifetime of an access credential, in seconds (15 minutes).
pub const ACCESS_TTL_SECS: i64 = 900;

/// Lifetime of a refresh session, in seconds (7 days).
pub const REFRESH_TTL_SECS: i64 = 604800;

/// The instant `ttl` seconds after `now`, clamped to the range of `i64`.
pub open spec fn expiry(now: i64, ttl: i64) -> i64 {
    let e = now + ttl;
    if e > i64::MAX {
        i64::MAX
    } else if e < i64::MIN {
        i64::MIN
    } else {
        e as i64
    }
}

pub fn expiry_after(now: i64, ttl: i64) -> (r: i64)
    ensures
        r == expiry(now, ttl),
{
    let e: i128 = now as i128 + ttl as i128;
    if e > i64::MAX as i128 {
        i64::MAX
    } else if e < i64::MIN as i128 {
        i64::MIN
    } else {
        e as i64
    }
}

/// An external identity provider.
#[derive(Debug, Clone, Copy, PartialEq, Eq, Structural)]
pub enum Provider {
    Google,
    Kakao,
    Naver,
}

/// A local account. `username` and `email` are unique across the directory.
#[derive(Debug)]
pub struct User {
    pub id: i32,
    pub username: String,
    pub email: String,
    pub password_hash: Option<String>,
    pub created_at: i64,
    pub updated_at: i64,
}

/// A user as plain values.
pub struct UserRow {
    pub id: i32,
    pub username: Seq<char>,
    pub email: Seq<char>,
    pub password_hash: Option<Seq<char>>,
    pub created_at: i64,
    pub updated_at: i64,
}

impl View for User {
    type V = UserRow;

    open spec fn view(&self) -> UserRow {
        UserRow {
            id: self.id,
            username: self.username@,
            email: self.email@,
            password_hash: match self.password_hash {
                Some(h) => Some(h@),
                None => None,
            },
            created_at: self.created_at,
            updated_at: self.updated_at,
        }
    }
}

impl User {
    pub fn copy(&self) -> (r: User)
        ensures
            r == *self,
    {
        let password_hash = match &self.password_hash {
            Some(h) => Some(h.clone()),
            None => None,
        };
        User {
            id: self.id,
            username: self.username.clone(),
            email: self.email.clone(),
            password_hash,
            created_at: self.created_at,
            updated_at: self.updated_at,
        }
    }
}

/// An association between a provider identity and a local user.
#[derive(Debug)]
pub struct OAuthLink {
    pub id: i32,
    pub user_id: i32,
    pub provider: Provider,
    pub provider_user_id: String,
    pub created_at: i64,
    pub updated_at: i64,
}

/// An OAuth link as plain values.
pub struct LinkRow {
    pub id: i32,
    pub user_id: i32,
    pub provider: Provider,
    pub provider_user_id: Seq<char>,
    pub created_at: i64,
    pub updated_at: i64,
}

impl View for OAuthLink {
    type V = LinkRow;

    open spec fn view(&self) -> LinkRow {
        LinkRow {
            id: self.id,
            user_id: self.user_id,
            provider: self.provider,
            provider_user_id: self.provider_user_id@,
            created_at: self.created_at,
            updated_at: self.updated_at,
        }
    }
}

impl OAuthLink {
    pub fn copy(&self) -> (r: OAuthLink)
        ensures
            r == *self,
    {
        OAuthLink {
            id: self.id,
            user_id: self.user_id,
            provider: self.provider,
            provider_user_id: self.provider_user_id.clone(),
            created_at: self.created_at,
            updated_at: self.updated_at,
        }
    }
}

/// A stored refresh session: only the hash of the raw secret is kept.
#[derive(Debug)]
pub struct RefreshSession {
    pub id: i32,
    pub user_id: i32,
    pub token_hash: String,
    pub expires_at: i64,
    pub created_at: i64,
}

/// A refresh session as plain values.
pub struct SessionRow {
    pub id: i32,
    pub user_id: i32,
    pub token_hash: Seq<char>,
    pub expires_at: i64,
    pub created_at: i64,
}

impl SessionRow {
    /// A session is expired once `now` is past its expiry instant.
    pub open spec fn expired_at(self, now: i64) -> bool {
        self.expires_at < now
    }
}

impl View for RefreshSession {
    type V = SessionRow;

    open spec fn view(&self) -> SessionRow {
        SessionRow {
            id: self.id,
            user_id: self.user_id,
            token_hash: self.token_hash@,
            expires_at: self.expires_at,
            created_at: self.created_at,
        }
    }
}

impl RefreshSession {
    pub fn copy(&self) -> (r: RefreshSession)
        ensures
            r == *self,
    {
        RefreshSession {
            id: self.id,
            user_id: self.user_id,
            token_hash: self.token_hash.clone(),
            expires_at: self.expires_at,
            created_at: self.created_at,
        }
    }
}

} // verus!
