//! Request authorization: reading credentials out of what a request
//! carries. Password hashing and lookups live outside the library.

pub mod credentials;

pub use credentials::Credentials;
