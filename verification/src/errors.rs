//! The error taxonomy of the service, with the HTTP status each kind maps to.

use vstd::prelude::*;
use vstd::string::*;

verus! {

/// Every failure the core can report.  Each variant carries a
/// human-readable message.
#[derive(Debug)]
pub enum AppError {
    /// A user or record lookup missed (HTTP 404).
    NotFound(String),
    /// A storage driver failed (HTTP 500).
    DatabaseError(String),
    /// Malformed input, duplicate email, code mismatch, or a single-use
    /// token replay (HTTP 400).
    ValidationError(String),
    /// Password hashing failed (HTTP 500).
    HashingError(String),
    /// Signing or environment configuration failed (HTTP 500).
    EnvironmentError(String),
    /// The mail transport or another upstream service failed (HTTP 502).
    ExternalServiceError(String),
    /// A required configuration value is missing or invalid (HTTP 500).
    ConfigError(String),
    /// Missing, malformed, expired or revoked credential; wrong password;
    /// inactive account (HTTP 401).
    AuthenticationError(String),
    /// Authentication was required and absent (HTTP 401).
    Unauthorized(String),
    /// Authenticated, but lacking the required role or attempting
    /// cross-user access (HTTP 403).
    Forbidden(String),
    /// A rate limiter rejected the request (HTTP 429).
    TooManyRequests(String),
}

impl AppError {
    /// The message the variant carries.
    pub open spec fn spec_message(&self) -> Seq<char> {
        match self {
            AppError::NotFound(m) => m@,
            AppError::DatabaseError(m) => m@,
            AppError::ValidationError(m) => m@,
            AppError::HashingError(m) => m@,
            AppError::EnvironmentError(m) => m@,
            AppError::ExternalServiceError(m) => m@,
            AppError::ConfigError(m) => m@,
            AppError::AuthenticationError(m) => m@,
            AppError::Unauthorized(m) => m@,
            AppError::Forbidden(m) => m@,
            AppError::TooManyRequests(m) => m@,
        }
    }

    /// The HTTP status code of the variant.
    pub open spec fn spec_status_code(&self) -> u16 {
        match self {
            AppError::NotFound(_) => 404,
            AppError::DatabaseError(_) => 500,
            AppError::ValidationError(_) => 400,
            AppError::HashingError(_) => 500,
            AppError::EnvironmentError(_) => 500,
            AppError::ExternalServiceError(_) => 502,
            AppError::ConfigError(_) => 500,
            AppError::AuthenticationError(_) => 401,
            AppError::Unauthorized(_) => 401,
            AppError::Forbidden(_) => 403,
            AppError::TooManyRequests(_) => 429,
        }
    }

    /// Returns the HTTP status code this error maps to.
    pub fn status_code(&self) -> (r: u16)
        ensures
            r == self.spec_status_code(),
    {
        match self {
            AppError::NotFound(_) => 404,
            AppError::DatabaseError(_) => 500,
            AppError::ValidationError(_) => 400,
            AppError::HashingError(_) => 500,
            AppError::EnvironmentError(_) => 500,
            AppError::ExternalServiceError(_) => 502,
            AppError::ConfigError(_) => 500,
            AppError::AuthenticationError(_) => 401,
            AppError::Unauthorized(_) => 401,
            AppError::Forbidden(_) => 403,
            AppError::TooManyRequests(_) => 429,
        }
    }

    /// Returns the carried message.
    pub fn message(&self) -> (r: &str)
        ensures
            r@ == self.spec_message(),
    {
        match self {
            AppError::NotFound(m) => m.as_str(),
            AppError::DatabaseError(m) => m.as_str(),
            AppError::ValidationError(m) => m.as_str(),
            AppError::HashingError(m) => m.as_str(),
            AppError::EnvironmentError(m) => m.as_str(),
            AppError::ExternalServiceError(m) => m.as_str(),
            AppError::ConfigError(m) => m.as_str(),
            AppError::AuthenticationError(m) => m.as_str(),
            AppError::Unauthorized(m) => m.as_str(),
            AppError::Forbidden(m) => m.as_str(),
            AppError::TooManyRequests(m) => m.as_str(),
        }
    }
}

} // verus!
