//! The rules of the HTTP API: its errors and its authentication.
pub mod auth;
pub mod error;
