//! The runtime environment selector. Loading the settings files themselves
//! is configuration plumbing and stays outside the library.

use vstd::prelude::*;

verus! {

use vstd::string::StringExecFns;

use crate::domain::text::{lower_of, str_to_lowercase};

/// Runtime environment, either `Dev` for local development, or `Prod` for
/// release.
#[derive(Debug, Clone, Copy, PartialEq, Eq, Structural)]
pub enum Runtime {
    Dev,
    Prod,
}

impl Runtime {
    /// The environment's name.
    pub fn as_str(&self) -> (r: &str)
        ensures
            (match self {
                Runtime::Dev => r@ == "dev"@,
                Runtime::Prod => r@ == "prod"@,
            }),
    {
        match self {
            Runtime::Dev => "dev",
            Runtime::Prod => "prod",
        }
    }

    /// Read an environment from its name, case-insensitively; any other
    /// name is rejected with a message naming it.
    pub fn parse(s: &str) -> (r: Result<Runtime, String>)
        ensures
            (match r {
                Ok(Runtime::Dev) => lower_of(s@) == "dev"@,
                Ok(Runtime::Prod) => lower_of(s@) == "prod"@,
                Err(m) => lower_of(s@) != "dev"@ && lower_of(s@) != "prod"@ && m@ == lower_of(s@)
                    + " is not a valid runtime environment"@,
            }),
    {
        let low = str_to_lowercase(s);
        if low == String::from_str("dev") {
            Ok(Runtime::Dev)
        } else if low == String::from_str("prod") {
            Ok(Runtime::Prod)
        } else {
            Err(low.concat(" is not a valid runtime environment"))
        }
    }
}

} // verus!
