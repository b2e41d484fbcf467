//! Named views of the text operations the domain types lean on: trimming,
//! case folding, grapheme counting, and the e-mail shape test.

use unicode_segmentation::UnicodeSegmentation;

use vstd::prelude::*;

verus! {

/// The string with leading and trailing whitespace removed.
pub uninterp spec fn trim_of(s: Seq<char>) -> Seq<char>;

/// The lowercase form of a string; the result depends on the characters
/// alone.
pub uninterp spec fn lower_of(s: Seq<char>) -> Seq<char>;

/// The number of extended grapheme clusters in a string.
pub uninterp spec fn grapheme_count_of(s: Seq<char>) -> nat;

/// Whether a string has the basic e-mail shape: word characters, `@`, word
/// characters, `.`, word characters, spanning the whole string.
pub uninterp spec fn email_shape(s: Seq<char>) -> bool;

/// Relies on `std`'s `str::trim`: the string with leading and trailing
/// whitespace removed, a function of the characters alone.
#[verifier::external_body]
pub(crate) fn str_trim(s: &str) -> (r: &str)
    ensures
        r@ == trim_of(s@),
{
    s.trim()
}

/// Relies on `std`'s `str::to_lowercase`: the lowercase mapping of the
/// string, a function of the characters alone.
#[verifier::external_body]
pub(crate) fn str_to_lowercase(s: &str) -> (r: String)
    ensures
        r@ == lower_of(s@),
{
    s.to_lowercase()
}

/// Relies on `unicode-segmentation`'s `graphemes(true)`: the number of
/// extended grapheme clusters of the string, a function of the characters
/// alone.
#[verifier::external_body]
pub(crate) fn grapheme_count(s: &str) -> (r: usize)
    ensures
        r as nat == grapheme_count_of(s@),
{
    s.graphemes(true).count()
}

/// Relies on the `regex` crate: whether the string matches the anchored
/// pattern `^\w+@\w+\.\w+$`, a function of the characters alone. The
/// pattern is a constant and always compiles.
#[verifier::external_body]
pub(crate) fn email_shape_matches(s: &str) -> (r: bool)
    ensures
        r == email_shape(s@),
{
    match regex::Regex::new(r"^\w+@\w+\.\w+$") {
        Ok(re) => re.is_match(s),
        Err(_) => false,
    }
}

} // verus!
