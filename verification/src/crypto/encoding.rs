//! Unpadded URL-safe base64, as used for both token segments, and the UTF-8
//! step of payload recovery.
//!
//! The base64 engine itself lives in the `base64` crate; this module pins its
//! behaviour down with two named results (`b64url_of` for encoding,
//! `b64url_dec` for decoding) and the facts the token contracts need: the
//! encoding uses only the URL-safe alphabet, its length is determined by the
//! input length, and strict decoding accepts exactly the canonical encodings,
//! inverting `b64url_of`.

use base64::Engine;

use vstd::prelude::*;

verus! {

use vstd::utf8::{decode_utf8, valid_utf8};

/// A character of the unpadded URL-safe base64 alphabet
/// (`A`-`Z`, `a`-`z`, `0`-`9`, `-`, `_`).
pub open spec fn is_b64url_char(c: char) -> bool {
    ||| ('A' <= c && c <= 'Z')
    ||| ('a' <= c && c <= 'z')
    ||| ('0' <= c && c <= '9')
    ||| c == '-'
    ||| c == '_'
}

/// Length of the unpadded base64 encoding of `n` input bytes: four characters
/// for every complete three-byte group, then two or three characters for a
/// trailing group of one or two bytes.
pub open spec fn b64url_len(n: nat) -> nat {
    (n / 3) * 4 + if n % 3 == 0 {
        0nat
    } else if n % 3 == 1 {
        2nat
    } else {
        3nat
    }
}

/// The unpadded URL-safe base64 encoding of a byte sequence.
pub uninterp spec fn b64url_of(b: Seq<u8>) -> Seq<char>;

/// What strict unpadded URL-safe base64 decoding yields for a character
/// sequence: the decoded bytes, or `None` for input it rejects.
pub uninterp spec fn b64url_dec(s: Seq<char>) -> Option<Seq<u8>>;

/// Relies on `base64`'s `GeneralPurpose` engine over the `URL_SAFE` alphabet
/// with the `NO_PAD` config: `Engine::encode` emits the unpadded URL-safe
/// encoding of its input, using only alphabet characters, with the length
/// given by `encoded_len` without padding; the same engine's strict decoder
/// maps the result back to the input.
#[verifier::external_body]
pub(crate) fn b64url_encode(b: &[u8]) -> (r: String)
    ensures
        r@ == b64url_of(b@),
        r@.len() == b64url_len(b@.len()),
        forall|i: int| 0 <= i < r@.len() ==> is_b64url_char(#[trigger] r@[i]),
        b64url_dec(r@) == Some(b@),
{
    base64::engine::general_purpose::URL_SAFE_NO_PAD.encode(b)
}

/// Relies on `base64`'s `GeneralPurpose` engine over the `URL_SAFE` alphabet
/// with the `NO_PAD` config: `Engine::decode` is strict (`RequireNone`
/// padding, no trailing bits), so it succeeds exactly on canonical unpadded
/// encodings and returns their preimage under `b64url_of`.
#[verifier::external_body]
pub(crate) fn b64url_decode(s: &str) -> (r: Option<Vec<u8>>)
    ensures
        r matches Some(d) ==> b64url_dec(s@) == Some(d@) && s@ == b64url_of(d@),
        r is None ==> b64url_dec(s@) is None,
{
    base64::engine::general_purpose::URL_SAFE_NO_PAD.decode(s).ok()
}

/// Relies on `std`'s `String::from_utf8`: it succeeds exactly on valid UTF-8
/// and returns the string those bytes encode.
#[verifier::external_body]
pub(crate) fn bytes_to_string(b: Vec<u8>) -> (r: Option<String>)
    ensures
        r is Some <==> valid_utf8(b@),
        r matches Some(s) ==> s@ == decode_utf8(b@),
{
    String::from_utf8(b).ok()
}

} // verus!
