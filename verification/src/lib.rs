//! Authentication and authorization core of a personal-memo service.
//!
//! The crate issues and validates signed, purpose-tagged bearer credentials,
//! drives the two-phase email-verification workflows for registration and
//! password reset, enforces keyed token-bucket rate limits, and keeps a
//! revocation index so individual credentials can be invalidated early.

pub mod auth_service;
pub mod b64;
pub mod bytes;
pub mod claims;
pub mod client_ip;
pub mod config;
pub mod decimal;
pub mod errors;
pub mod hasher;
pub mod rate_limiter;
pub mod requests;
pub mod revocation;
pub mod strmap;
pub mod token;
pub mod user_store;
pub mod validate;
pub mod verification_store;
