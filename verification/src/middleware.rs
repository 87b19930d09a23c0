//! What is decided of a call before it reaches an operation.

pub mod auth;
pub mod rate_limit;
