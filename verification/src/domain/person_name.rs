//! A user supplied name of a person.

use vstd::prelude::*;

verus! {

use vstd::string::{StrSliceExecFns, StringExecFns};

use crate::domain::text::{grapheme_count, grapheme_count_of, str_trim, trim_of};

/// The largest accepted length, in grapheme clusters.
pub const MAX_LEN: usize = 256;

/// A character a name may not contain.
pub open spec fn is_forbidden_char(c: char) -> bool {
    ||| c == '/'
    ||| c == '('
    ||| c == ')'
    ||| c == '"'
    ||| c == '<'
    ||| c == '>'
    ||| c == '\\'
    ||| c == '{'
    ||| c == '}'
}

/// What parsing a name returns: the rejection message for a blank,
/// over-long input or one holding a forbidden character, else the name
/// unchanged.
pub open spec fn spec_parse_name(s: Seq<char>) -> Result<Seq<char>, Seq<char>> {
    if trim_of(s).len() == 0 {
        Err("Name cannot be empty"@)
    } else if grapheme_count_of(s) > MAX_LEN {
        Err("Name too long"@)
    } else if exists|i: int| 0 <= i < s.len() && is_forbidden_char(#[trigger] s[i]) {
        Err("Name contains invalid characters"@)
    } else {
        Ok(s)
    }
}

/// A user supplied name of a person.
#[derive(Debug, PartialEq, Clone)]
pub struct PersonName(String);

impl View for PersonName {
    type V = Seq<char>;

    closed spec fn view(&self) -> Seq<char> {
        self.0@
    }
}

impl PersonName {
    /// Validate a raw name: it must not be blank, must not run over the
    /// length cap, and must not contain a forbidden character; it is stored
    /// as given.
    pub fn parse(value: &str) -> (r: Result<PersonName, String>)
        ensures
            (match r {
                Ok(a) => spec_parse_name(value@) == Ok::<Seq<char>, Seq<char>>(a@),
                Err(m) => spec_parse_name(value@) == Err::<Seq<char>, Seq<char>>(m@),
            }),
    {
        if str_trim(value).is_empty() {
            return Err(String::from_str("Name cannot be empty"));
        }
        if grapheme_count(value) > MAX_LEN {
            return Err(String::from_str("Name too long"));
        }
        let n = value.unicode_len();
        let mut i: usize = 0;
        while i < n
            invariant
                n == value@.len(),
                0 <= i <= n,
                trim_of(value@).len() != 0,
                grapheme_count_of(value@) <= MAX_LEN,
                forall|j: int| 0 <= j < i ==> !is_forbidden_char(#[trigger] value@[j]),
            decreases n - i,
        {
            let c = value.get_char(i);
            if c == '/' || c == '(' || c == ')' || c == '"' || c == '<' || c == '>' || c == '\\'
                || c == '{' || c == '}' {
                return Err(String::from_str("Name contains invalid characters"));
            }
            i = i + 1;
        }
        Ok(PersonName(String::from_str(value)))
    }

    /// The name.
    pub fn as_str(&self) -> (r: &str)
        ensures
            r@ == self@,
    {
        self.0.as_str()
    }
}

impl core::str::FromStr for PersonName {
    type Err = String;

    fn from_str(value: &str) -> Result<Self, String> {
        PersonName::parse(value)
    }
}

} // verus!
