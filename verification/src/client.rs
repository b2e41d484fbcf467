//! The value shapes exchanged with the outbound e-mail service.

pub mod email_client;

pub use email_client::{Email, SendEmailRequest};
