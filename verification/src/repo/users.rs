//! User records.

use vstd::prelude::*;

verus! {

use crate::domain::EmailAddress;

/// A new user to be stored: a validated address and the hash of the
/// password, never the password itself.
#[derive(Debug)]
pub struct NewUser {
    pub email: EmailAddress,
    pub password_hash: String,
}

} // verus!
