use vstd::prelude::*;

use crate::model::{Provider, User, UserRow};

verus! {

/// An identity asserted by an OAuth provider.
#[derive(Debug)]
pub struct OAuthLoginRequest {
    pub provider: Provider,
    pub provider_user_id: String,
    pub email: String,
    pub username: String,
}

impl OAuthLoginRequest {
    pub fn copy(&self) -> (r: OAuthLoginRequest)
        ensures
            r == *self,
    {
        OAuthLoginRequest {
            provider: self.provider,
            provider_user_id: self.provider_user_id.clone(),
            email: self.email.clone(),
            username: self.username.clone(),
        }
    }
}

/// The public view of a user.
#[derive(Debug)]
pub struct UserResponse {
    pub id: i32,
    pub username: String,
    pub email: String,
    pub created_at: i64,
}

impl UserResponse {
    /// The response fields agree with the user row.
    pub open spec fn describes(&self, u: UserRow) -> bool {
        &&& self.id == u.id
        &&& self.username@ == u.username
        &&& self.email@ == u.email
        &&& self.created_at == u.created_at
    }

    pub fn from_user(user: User) -> (r: UserResponse)
        ensures
            r.describes(user@),
    {
        UserResponse {
            id: user.id,
            username: user.username,
            email: user.email,
            created_at: user.created_at,
        }
    }
}

/// What a successful login reports about the user.
#[derive(Debug)]
pub struct AuthResponse {
    pub user: UserResponse,
}

} // verus!
