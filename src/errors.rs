//! The error taxonomy shared by every component.
use vstd::prelude::*;

verus! {

/// Why an operation failed. Each variant carries a human-readable detail.
#[derive(Debug)]
pub enum ApiError {
    /// The underlying store failed.
    Database(String),
    /// Malformed or out-of-range input; never retried.
    ValidationError(String),
    /// The caller is not authenticated.
    Unauthorized(String),
    /// An unknown or inactive pricing key, or an unknown user.
    NotFound(String),
    /// Too little history for a forecast; the caller may retry later.
    InsufficientData(String),
    /// An unexpected computation failure.
    Internal(String),
    /// A bearer token could not be decoded.
    JwtError(String),
}

impl ApiError {
    /// The detail text the error carries.
    pub fn detail(&self) -> (r: &String)
        ensures
            *r == match *self {
                ApiError::Database(m) => m,
                ApiError::ValidationError(m) => m,
                ApiError::Unauthorized(m) => m,
                ApiError::NotFound(m) => m,
                ApiError::InsufficientData(m) => m,
                ApiError::Internal(m) => m,
                ApiError::JwtError(m) => m,
            },
    {
        match self {
            ApiError::Database(m) => m,
            ApiError::ValidationError(m) => m,
            ApiError::Unauthorized(m) => m,
            ApiError::NotFound(m) => m,
            ApiError::InsufficientData(m) => m,
            ApiError::Internal(m) => m,
            ApiError::JwtError(m) => m,
        }
    }
}

} // verus!
