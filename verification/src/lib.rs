//! Zero-knowledge secret exchange: the server keeps ciphertext and a
//! consumption policy, and hands the ciphertext out at most as often as the
//! policy allows.

pub mod config;
pub mod crypto;
pub mod database;
pub mod error;
pub mod middleware;
pub mod models;
pub mod services;
pub mod utils;
