//! Cryptography-related objects: signing keys, signed tokens, and the wire
//! format they share.

pub mod confirmation;
pub mod encoding;
pub mod message;
pub mod signing_key;
pub mod token;

pub use confirmation::Confirmation;
pub use signing_key::SigningKey;
pub use token::{Token, TokenBuilder, TokenError, TokenResult};
