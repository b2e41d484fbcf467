//! The OAuth2 providers the service knows about.

use vstd::prelude::*;

verus! {

use vstd::string::StringExecFns;

use crate::domain::text::{lower_of, str_to_lowercase};

/// An OAuth2 provider: one the service integrates with, or the lowercased
/// name of an unknown one.
#[derive(Debug, Clone, PartialEq)]
pub enum OAuth2Provider {
    Google,
    Unknown(String),
}

impl OAuth2Provider {
    /// Read a provider from its name, case-insensitively; an unrecognized
    /// name is kept, lowercased, as `Unknown`.
    pub fn parse(value: &str) -> (r: Self)
        ensures
            (match r {
                OAuth2Provider::Google => lower_of(value@) == "google"@,
                OAuth2Provider::Unknown(u) => lower_of(value@) != "google"@ && u@ == lower_of(
                    value@,
                ),
            }),
    {
        let value = str_to_lowercase(value);
        if value == String::from_str("google") {
            OAuth2Provider::Google
        } else {
            OAuth2Provider::Unknown(value)
        }
    }

    /// The provider's name.
    pub fn as_str(&self) -> (r: &str)
        ensures
            (match self {
                OAuth2Provider::Google => r@ == "google"@,
                OAuth2Provider::Unknown(u) => r@ == u@,
            }),
    {
        match self {
            OAuth2Provider::Google => "google",
            OAuth2Provider::Unknown(value) => value.as_str(),
        }
    }
}

impl core::str::FromStr for OAuth2Provider {
    type Err = core::convert::Infallible;

    fn from_str(value: &str) -> Result<Self, Self::Err> {
        Ok(OAuth2Provider::parse(value))
    }
}

} // verus!
