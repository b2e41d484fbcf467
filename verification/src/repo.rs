//! Record shapes exchanged with the persistence layer.

pub mod subscriptions;
pub mod users;

pub use subscriptions::{ConfirmedSubscription, NewSubscription};
pub use users::NewUser;
