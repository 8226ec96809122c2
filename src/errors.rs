use vstd::prelude::*;

verus! {

/// Failures surfaced by the authentication core.
#[derive(Debug, Clone, Copy, PartialEq, Eq, Structural)]
pub enum ServiceError {
    /// No signing secret is configured.
    Configuration,
    /// An access credential is malformed, badly signed or expired.
    InvalidCredential,
    /// A refresh secret is unknown or was already consumed.
    RefreshInvalid,
    /// A refresh secret is past its expiry.
    RefreshExpired,
    /// A uniqueness constraint rejected a write (an identity-resolution race).
    Conflict,
    /// The store could not complete the operation.
    Persistence,
    /// A request carried no usable access credential.
    Unauthorized,
    /// No user has the requested id.
    UserNotFound,
}

impl ServiceError {
    /// The HTTP status that a transport reports for this failure.
    pub open spec fn spec_status(self) -> u16 {
        match self {
            ServiceError::Configuration => 500,
            ServiceError::InvalidCredential => 401,
            ServiceError::RefreshInvalid => 401,
            ServiceError::RefreshExpired => 401,
            ServiceError::Conflict => 409,
            ServiceError::Persistence => 500,
            ServiceError::Unauthorized => 401,
            ServiceError::UserNotFound => 404,
        }
    }

    pub fn status_code(&self) -> (r: u16)
        ensures
            r == self.spec_status(),
    {
        match self {
            ServiceError::Configuration => 500,
            ServiceError::InvalidCredential => 401,
            ServiceError::RefreshInvalid => 401,
            ServiceError::RefreshExpired => 401,
            ServiceError::Conflict => 409,
            ServiceError::Persistence => 500,
            ServiceError::Unauthorized => 401,
            ServiceError::UserNotFound => 404,
        }
    }
}

/// Failures of a refresh-store lookup.
#[derive(Debug, Clone, Copy, PartialEq, Eq, Structural)]
pub enum RedeemError {
    /// No live session carries the secret's hash.
    NotFound,
    /// The session exists but is past its expiry; it has been deleted.
    Expired,
}

impl RedeemError {
    /// How the session facade reports a failed redeem.
    pub open spec fn spec_to_service(self) -> ServiceError {
        match self {
            RedeemError::NotFound => ServiceError::RefreshInvalid,
            RedeemError::Expired => ServiceError::RefreshExpired,
        }
    }

    pub fn to_service_error(&self) -> (r: ServiceError)
        ensures
            r == self.spec_to_service(),
    {
        match self {
            RedeemError::NotFound => ServiceError::RefreshInvalid,
            RedeemError::Expired => ServiceError::RefreshExpired,
        }
    }
}

} // verus!
