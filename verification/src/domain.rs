//! Domain objects: the validated value types the service works with.

pub mod email_address;
pub mod oauth2_provider;
pub mod person_name;
pub mod text;

pub use email_address::EmailAddress;
pub use oauth2_provider::OAuth2Provider;
pub use person_name::PersonName;
