//! Subscription records.

use vstd::prelude::*;

verus! {

use crate::domain::{EmailAddress, PersonName};

/// A new subscription request, already validated.
#[derive(Debug)]
pub struct NewSubscription {
    pub name: PersonName,
    pub email: EmailAddress,
}

/// A stored subscription record that has been confirmed via e-mail, as the
/// persistence layer hands it back: the subscription id in its text form,
/// and the address as raw text still to be re-validated.
#[derive(Debug)]
pub struct ConfirmedSubscription {
    /// Text form of the subscription id.
    pub id: String,
    /// User supplied e-mail address, unvalidated.
    pub email: String,
}

} // verus!
