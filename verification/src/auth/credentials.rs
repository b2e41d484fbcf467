//! HTTP Basic credentials, parsed from an `Authorization` header value.

use base64::Engine;

use vstd::prelude::*;

verus! {

use vstd::string::{StrSliceExecFns, StringExecFns};
use vstd::utf8::{decode_utf8, valid_utf8};

use crate::crypto::encoding::bytes_to_string;

/// What strict padded standard-alphabet base64 decoding yields for a
/// character sequence: the decoded bytes, or `None` for input it rejects.
pub uninterp spec fn b64std_dec(s: Seq<char>) -> Option<Seq<u8>>;

/// Relies on `base64`'s `STANDARD` engine (standard alphabet, canonical
/// padding required): `Engine::decode` maps an encoding to its bytes and
/// rejects anything else; the result depends on the input alone.
#[verifier::external_body]
fn b64_standard_decode(s: &str) -> (r: Option<Vec<u8>>)
    ensures
        r matches Some(d) ==> b64std_dec(s@) == Some(d@),
        r is None ==> b64std_dec(s@) is None,
{
    base64::engine::general_purpose::STANDARD.decode(s).ok()
}

/// The index of the first `:` in `t` at or after `i`, or `t.len()` if
/// there is none.
pub open spec fn find_colon(t: Seq<char>, i: int) -> int
    decreases t.len() - i,
{
    if 0 <= i < t.len() {
        if t[i] == ':' {
            i
        } else {
            find_colon(t, i + 1)
        }
    } else {
        t.len() as int
    }
}

/// A colon bounded on the left by non-colons is the first colon.
proof fn lemma_find_colon(t: Seq<char>, i: int, p: int)
    requires
        0 <= i <= p <= t.len(),
        forall|j: int| i <= j < p ==> t[j] != ':',
        p == t.len() || t[p] == ':',
    ensures
        find_colon(t, i) == p,
    decreases p - i,
{
    if i < p {
        lemma_find_colon(t, i + 1, p);
    }
}

/// What parsing a `Basic` authorization header value yields: the username
/// and password, or the rejection message.
pub open spec fn spec_from_basic(h: Seq<char>) -> Result<(Seq<char>, Seq<char>), Seq<char>> {
    if !(h.len() >= 6 && h.subrange(0, 6) == "Basic "@) {
        Err("Authorization scheme not basic"@)
    } else {
        match b64std_dec(h.subrange(6, h.len() as int)) {
            None => Err("Failed to decode authorization header"@),
            Some(bytes) => if !valid_utf8(bytes) {
                Err("Failed to decode authorization header"@)
            } else {
                let s = decode_utf8(bytes);
                let c = find_colon(s, 0);
                if c == s.len() {
                    Err("Missing password in authorization"@)
                } else {
                    Ok((s.subrange(0, c), s.subrange(c + 1, s.len() as int)))
                }
            },
        }
    }
}

/// Credentials presented by a request.
#[derive(Debug, Clone)]
pub enum Credentials {
    Basic { username: String, password: String },
}

impl Credentials {
    /// Extract credentials from a header value formatted as
    /// `Basic <base64 of username:password>`: strip the scheme prefix,
    /// decode, and split at the first colon.
    pub fn from_basic(header_value: &str) -> (r: Result<Credentials, String>)
        ensures
            (match r {
                Ok(c) => c matches Credentials::Basic { username, password }
                    && spec_from_basic(header_value@) matches Ok(pair) && pair.0 == username@
                    && pair.1 == password@,
                Err(m) => spec_from_basic(header_value@) matches Err(e) && e == m@,
            }),
    {
        let n = header_value.unicode_len();
        proof {
            reveal_strlit("Basic ");
        }
        if n < 6 || header_value.get_char(0) != 'B' || header_value.get_char(1) != 'a'
            || header_value.get_char(2) != 's' || header_value.get_char(3) != 'i'
            || header_value.get_char(4) != 'c' || header_value.get_char(5) != ' ' {
            proof {
                if header_value@.len() >= 6 {
                    let p = header_value@.subrange(0, 6);
                    assert(p[0] == header_value@[0]);
                    assert(p[1] == header_value@[1]);
                    assert(p[2] == header_value@[2]);
                    assert(p[3] == header_value@[3]);
                    assert(p[4] == header_value@[4]);
                    assert(p[5] == header_value@[5]);
                    assert(p != "Basic "@);
                }
            }
            return Err(String::from_str("Authorization scheme not basic"));
        }
        proof {
            assert(header_value@.subrange(0, 6) =~= "Basic "@);
        }
        let encoded = header_value.substring_char(6, n);
        let decoded_bytes = match b64_standard_decode(encoded) {
            Some(b) => b,
            None => {
                return Err(String::from_str("Failed to decode authorization header"));
            },
        };
        let decoded = match bytes_to_string(decoded_bytes) {
            Some(s) => s,
            None => {
                return Err(String::from_str("Failed to decode authorization header"));
            },
        };
        let m = decoded.as_str().unicode_len();
        let mut i: usize = 0;
        while i < m
            invariant
                m == decoded@.len(),
                0 <= i <= m,
                spec_from_basic(header_value@) matches Ok(pair) || spec_from_basic(
                    header_value@,
                ) == Err::<(Seq<char>, Seq<char>), Seq<char>>(
                    "Missing password in authorization"@,
                ),
                b64std_dec(header_value@.subrange(6, header_value@.len() as int)) matches Some(
                    bytes,
                ) && valid_utf8(bytes) && decode_utf8(bytes) == decoded@,
                header_value@.len() >= 6 && header_value@.subrange(0, 6) == "Basic "@,
                forall|j: int| 0 <= j < i ==> decoded@[j] != ':',
            decreases m - i,
        {
            let c = decoded.as_str().get_char(i);
            if c == ':' {
                proof {
                    lemma_find_colon(decoded@, 0, i as int);
                }
                let username = decoded.as_str().substring_char(0, i);
                let password = decoded.as_str().substring_char(i + 1, m);
                return Ok(
                    Credentials::Basic {
                        username: String::from_str(username),
                        password: String::from_str(password),
                    },
                );
            }
            i = i + 1;
        }
        proof {
            lemma_find_colon(decoded@, 0, m as int);
        }
        Err(String::from_str("Missing password in authorization"))
    }
}

} // verus!
