//! Compact, tamper-evident, time-bounded tokens for a newsletter service,
//! and the validated domain values around them.
//!
//! The heart of the crate is [`crypto`]: a payload is framed into a small
//! JSON envelope, signed with HMAC-SHA256, and packed into a two-segment
//! unpadded base64url string that can travel inside a confirmation link.
//! Verification recomputes the signature over the exact bytes recovered
//! from the token before any payload decoding takes place, and then holds
//! the optional expiration instant against the clock, failing closed on a
//! timestamp that maps to no calendar instant. The remaining modules hold
//! the domain types and the pure request and record shapes the surrounding
//! service exchanges with this core.

pub mod auth;
pub mod client;
pub mod controller;
pub mod crypto;
pub mod domain;
pub mod repo;
pub mod settings;
