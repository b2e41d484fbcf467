//! A user supplied e-mail address.

use vstd::prelude::*;

verus! {

use vstd::string::StringExecFns;

use crate::domain::text::{
    email_shape, email_shape_matches, grapheme_count, grapheme_count_of, lower_of, str_to_lowercase,
    str_trim, trim_of,
};

/// The largest accepted length, in grapheme clusters.
pub const MAX_LEN: usize = 256;

/// What parsing an e-mail address returns: the rejection message for a
/// blank, over-long or misshapen input, else the trimmed, lowercased
/// address.
pub open spec fn spec_parse_email(s: Seq<char>) -> Result<Seq<char>, Seq<char>> {
    if trim_of(s).len() == 0 {
        Err("Email address cannot be empty"@)
    } else if grapheme_count_of(s) > MAX_LEN {
        Err("Email address too long"@)
    } else if !email_shape(s) {
        Err("Email address of incorrect format"@)
    } else {
        Ok(lower_of(trim_of(s)))
    }
}

/// A user supplied e-mail address, trimmed and lowercased.
#[derive(Debug, PartialEq, Clone)]
pub struct EmailAddress(String);

impl View for EmailAddress {
    type V = Seq<char>;

    closed spec fn view(&self) -> Seq<char> {
        self.0@
    }
}

impl EmailAddress {
    /// Validate and normalize a raw address: it must not be blank, must not
    /// run over the length cap, and must have the `word@word.word` shape;
    /// what is stored is the trimmed, lowercased form.
    pub fn parse(value: &str) -> (r: Result<EmailAddress, String>)
        ensures
            (match r {
                Ok(a) => spec_parse_email(value@) == Ok::<Seq<char>, Seq<char>>(a@),
                Err(m) => spec_parse_email(value@) == Err::<Seq<char>, Seq<char>>(m@),
            }),
    {
        if str_trim(value).is_empty() {
            return Err(String::from_str("Email address cannot be empty"));
        }
        if grapheme_count(value) > MAX_LEN {
            return Err(String::from_str("Email address too long"));
        }
        if !email_shape_matches(value) {
            return Err(String::from_str("Email address of incorrect format"));
        }
        Ok(EmailAddress(str_to_lowercase(str_trim(value))))
    }

    /// The normalized address.
    pub fn as_str(&self) -> (r: &str)
        ensures
            r@ == self@,
    {
        self.0.as_str()
    }
}

impl core::str::FromStr for EmailAddress {
    type Err = String;

    fn from_str(value: &str) -> Result<Self, String> {
        EmailAddress::parse(value)
    }
}

} // verus!
