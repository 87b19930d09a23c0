//! The record stores, keyed by token and held in memory.
//!
//! Each operation of a store is one indivisible step: what it tests and what
//! it changes cannot be parted by another call. A store that keeps its
//! records elsewhere has to offer the same steps.

pub mod secret_repository;
pub mod secret_request_repository;
