//! Core of an HTTP-facing authentication layer: parsing of untrusted
//! `Authorization` header values into typed credentials or bearer tokens,
//! salted password hashing and verification, and the session-token
//! lifecycle (generation, expiry, invalidation) over an account store.
//!
//! The transport (routing, request plumbing, the clock) sits outside this
//! crate and hands the library plain values: header values as strings,
//! the current time as seconds since the Unix epoch.

pub mod accounts;
pub mod api;
pub mod credential;
pub mod errors;
pub mod hashing;
pub mod rng;
pub mod text;
pub mod token;
