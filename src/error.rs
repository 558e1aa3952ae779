use vstd::prelude::*;

verus! {

/// The outward error kinds of the service.
#[derive(Debug, Clone, Copy, PartialEq, Eq)]
pub enum ApiError {
    /// No row matches the id or key.
    NotFound,
    /// The unique key (a user's email) is taken.
    Conflict,
    /// Bad credentials.
    Unauthorized,
    /// A partial update that supplies no field.
    BadRequest,
    /// The store refused the operation.
    Persistence,
    /// A stored password hash cannot be parsed.
    CredentialFormat,
    /// Hashing or signing failed on the server side.
    Internal,
}

/// Why a session token was refused.
#[derive(Debug, Clone, Copy, PartialEq, Eq)]
pub enum TokenError {
    /// Bad signature or malformed token.
    Invalid,
    /// The expiry time has passed.
    Expired,
}

pub open spec fn spec_status_code(e: ApiError) -> u16 {
    match e {
        ApiError::NotFound => 404,
        ApiError::Conflict => 409,
        ApiError::Unauthorized => 401,
        ApiError::BadRequest => 400,
        ApiError::Persistence => 500,
        ApiError::CredentialFormat => 500,
        ApiError::Internal => 500,
    }
}

impl ApiError {
    /// The HTTP status that reports this error.
    pub fn status_code(&self) -> (r: u16)
        ensures
            r == spec_status_code(*self),
    {
        match self {
            ApiError::NotFound => 404,
            ApiError::Conflict => 409,
            ApiError::Unauthorized => 401,
            ApiError::BadRequest => 400,
            ApiError::Persistence => 500,
            ApiError::CredentialFormat => 500,
            ApiError::Internal => 500,
        }
    }
}

impl TokenError {
    /// The HTTP status that reports this error.
    pub fn status_code(&self) -> (r: u16)
        ensures
            r == 401,
    {
        401
    }
}

} // verus!
