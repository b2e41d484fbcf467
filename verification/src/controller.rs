//! The pure decision and shaping logic behind the HTTP endpoints: form
//! validation, confirmation e-mail composition, and newsletter payloads.
//! The routing, database and transport around them live outside the
//! library.

pub mod newsletters;
pub mod subscriptions;

pub use newsletters::{PublishBody, PublishBodyContent};
pub use subscriptions::NewSubscriptionForm;
