//! Signed tokens: the string artifact, its builder, and verification.
//!
//! A token is `base64url(message) + "." + base64url(signature)`, unpadded,
//! where the signature is the HMAC-SHA256 digest of the message bytes. The
//! verification pipeline is fixed: split, base64-decode, check the signature
//! over the exact decoded bytes, and only then decode the payload and judge
//! the expiration against the clock. Signature checking strictly precedes
//! payload decoding, so a forged message never reaches the payload decoder.

use chrono::TimeZone;

use vstd::prelude::*;

verus! {

use vstd::string::{StrSliceExecFns, StringExecFns};
use vstd::utf8::{decode_utf8, encode_utf8, valid_utf8};

use crate::crypto::encoding::{
    b64url_dec, b64url_decode, b64url_encode, b64url_of, bytes_to_string,
    is_b64url_char,
};
use crate::crypto::message::{
    build_message, lemma_message_roundtrip, parse_message, spec_message_bytes,
    spec_parse_message,
};
use crate::crypto::signing_key::{hmac_sha256, SigningKey};

/// The ways handling a token can fail. Each kind is distinct, so callers can
/// map outcomes to different externally visible results.
#[derive(Clone, Copy, Debug, PartialEq, Eq, Structural)]
pub enum TokenError {
    /// Structural shape violation, detected before cryptography or JSON work.
    FormatError,
    /// Base64, UTF-8, or JSON decode failure.
    DecodeError,
    /// The cryptographic check failed.
    SignatureMismatch,
    /// The signature was valid, but the validity window has lapsed.
    Expired,
    /// The signing key could not be constructed.
    KeyError,
    /// The payload could not be serialized during signing.
    SerializationError,
}

/// Wrapper for token results.
pub type TokenResult<T> = Result<T, TokenError>;

impl TokenError {
    /// The HTTP status class a caller should map this failure to: malformed
    /// input is a bad request, a failed signature or a lapsed validity window
    /// is unauthorized, and key or serialization failures indicate
    /// misconfiguration rather than bad client input.
    pub fn status_code(&self) -> (r: u16)
        ensures
            r == (match self {
                TokenError::FormatError | TokenError::DecodeError => 400u16,
                TokenError::SignatureMismatch | TokenError::Expired => 401u16,
                TokenError::KeyError | TokenError::SerializationError => 500u16,
            }),
    {
        match self {
            TokenError::FormatError | TokenError::DecodeError => 400,
            TokenError::SignatureMismatch | TokenError::Expired => 401,
            TokenError::KeyError | TokenError::SerializationError => 500,
        }
    }
}

/// The earliest expiration timestamp that maps to a calendar instant, in
/// seconds since the Unix epoch: chrono's `DateTime::<Utc>::MIN_UTC`.
pub const MIN_CALENDAR_TS: i64 = -8334601228800;

/// The latest expiration timestamp that maps to a calendar instant, in
/// seconds since the Unix epoch: chrono's `DateTime::<Utc>::MAX_UTC`.
pub const MAX_CALENDAR_TS: i64 = 8210266876799;

/// Whether a timestamp maps unambiguously to a calendar instant.
pub open spec fn ts_in_calendar_range(e: i64) -> bool {
    MIN_CALENDAR_TS <= e && e <= MAX_CALENDAR_TS
}

/// A well-formed clock reading: whole seconds since the Unix epoch within
/// the calendar range, and sub-second nanoseconds (up to two billion, to
/// leave room for a leap second).
pub open spec fn clock_wf(now: (i64, u32)) -> bool {
    ts_in_calendar_range(now.0) && now.1 < 2_000_000_000
}

/// Whether a message with expiration `exp` is expired at the instant `now`.
///
/// A token with no expiration never expires. A timestamp that cannot be
/// mapped to a calendar instant is treated as expired (fail-closed).
/// Otherwise the token is expired exactly when `now` lies strictly after
/// the expiration second.
pub open spec fn spec_expired(exp: Option<i64>, now: (i64, u32)) -> bool {
    match exp {
        None => false,
        Some(e) => !ts_in_calendar_range(e) || now.0 > e || (now.0 == e && now.1 > 0),
    }
}

/// Relies on chrono's `Utc::now`: the current instant, as whole seconds
/// since the Unix epoch (`timestamp`) within chrono's representable range,
/// and the sub-second nanoseconds (`timestamp_subsec_nanos`, below two
/// billion counting a possible leap second).
#[verifier::external_body]
fn now_utc() -> (r: (i64, u32))
    ensures
        clock_wf(r),
{
    let now = chrono::Utc::now();
    (now.timestamp(), now.timestamp_subsec_nanos())
}

/// Relies on chrono's `TimeZone::timestamp_opt` on `Utc`: a whole-second
/// timestamp maps to a single calendar instant exactly when it lies within
/// the range of `DateTime::<Utc>::MIN_UTC ..= MAX_UTC`.
#[verifier::external_body]
fn ts_maps_to_instant(e: i64) -> (r: bool)
    ensures
        r == ts_in_calendar_range(e),
{
    match chrono::Utc.timestamp_opt(e, 0) {
        chrono::LocalResult::Single(_) => true,
        _ => false,
    }
}

/// The index of the first `.` in `t` at or after `i`, or `t.len()` if there
/// is none.
pub open spec fn find_dot(t: Seq<char>, i: int) -> int
    decreases t.len() - i,
{
    if 0 <= i < t.len() {
        if t[i] == '.' {
            i
        } else {
            find_dot(t, i + 1)
        }
    } else {
        t.len() as int
    }
}

/// The shape invariant of a token string: exactly one `.` separator, and
/// both segments non-empty, unpadded URL-safe base64.
pub open spec fn token_shape_wf(t: Seq<char>) -> bool {
    exists|i: int|
        #![trigger t[i]]
        {
            &&& 0 < i < t.len() - 1
            &&& t[i] == '.'
            &&& forall|j: int| 0 <= j < t.len() && j != i ==> is_b64url_char(#[trigger] t[j])
        }
}

/// The token string signed from a message envelope under a key.
pub open spec fn spec_sign(exp: Option<i64>, payload: Seq<char>, key: Seq<u8>) -> Seq<char> {
    let m = spec_message_bytes(exp, payload);
    b64url_of(m) + seq!['.'] + b64url_of(hmac_sha256(key, m))
}

/// The outcome of checking decoded message bytes `m` against a decoded
/// signature `g` under `key` at the instant `now`: the signature first,
/// then the envelope and its payload, then the expiration.
pub open spec fn spec_verify_bytes(m: Seq<u8>, g: Seq<u8>, key: Seq<u8>, now: (i64, u32)) -> Result<
    Seq<char>,
    TokenError,
> {
    if hmac_sha256(key, m) != g {
        Err(TokenError::SignatureMismatch)
    } else {
        match spec_parse_message(m) {
            None => Err(TokenError::DecodeError),
            Some(pair) => if !valid_utf8(pair.1) {
                Err(TokenError::DecodeError)
            } else if spec_expired(pair.0, now) {
                Err(TokenError::Expired)
            } else {
                Ok(decode_utf8(pair.1))
            },
        }
    }
}

/// The outcome of verifying the token string `t` against `key` at the
/// instant `now`, in the fixed pipeline order: split, decode, signature,
/// payload, expiration.
pub open spec fn spec_verify(t: Seq<char>, key: Seq<u8>, now: (i64, u32)) -> Result<
    Seq<char>,
    TokenError,
> {
    let d = find_dot(t, 0);
    if !(0 < d && d < t.len() - 1) {
        Err(TokenError::FormatError)
    } else {
        match b64url_dec(t.subrange(0, d)) {
            None => Err(TokenError::DecodeError),
            Some(m) => match b64url_dec(t.subrange(d + 1, t.len() as int)) {
                None => Err(TokenError::DecodeError),
                Some(g) => spec_verify_bytes(m, g, key, now),
            },
        }
    }
}

/// Whether an executable verification result agrees with a specification
/// outcome.
pub open spec fn result_matches(r: TokenResult<String>, s: Result<Seq<char>, TokenError>) -> bool {
    match r {
        Ok(p) => s matches Ok(q) && p@ == q,
        Err(e) => s matches Err(f) && e == f,
    }
}

/// A character of the base64url alphabet is ASCII and is never the dot
/// separator.
pub proof fn lemma_b64url_char_facts(c: char)
    requires
        is_b64url_char(c),
    ensures
        c != '.',
        '\0' <= c <= '\u{7f}',
{
}

/// A dot bounded on the left by non-dots is the first dot.
pub proof fn lemma_find_dot(t: Seq<char>, i: int, p: int)
    requires
        0 <= i <= p <= t.len(),
        forall|j: int| i <= j < p ==> t[j] != '.',
        p == t.len() || t[p] == '.',
    ensures
        find_dot(t, i) == p,
    decreases p - i,
{
    if i < p {
        lemma_find_dot(t, i + 1, p);
    }
}

/// The structural pre-check is complete: a string that carries the token
/// shape never fails verification on format, under any key and at any
/// instant. Format rejection happens before, and independently of, any
/// cryptographic work.
pub proof fn lemma_shape_precheck_complete(t: Seq<char>, key: Seq<u8>, now: (i64, u32))
    requires
        token_shape_wf(t),
    ensures
        spec_verify(t, key, now) != Err::<Seq<char>, TokenError>(TokenError::FormatError),
{
    let i = choose|i: int|
        #![trigger t[i]]
        {
            &&& 0 < i < t.len() - 1
            &&& t[i] == '.'
            &&& forall|j: int| 0 <= j < t.len() && j != i ==> is_b64url_char(#[trigger] t[j])
        };
    assert forall|j: int| 0 <= j < i implies t[j] != '.' by {
        lemma_b64url_char_facts(t[j]);
    }
    lemma_find_dot(t, 0, i);
}

/// A serialized, cryptographically-signed token.
///
/// Values of this type only come out of [`TokenBuilder::sign`] or
/// [`Token::parse`], so they always carry the two-segment base64url shape.
#[derive(Debug)]
pub struct Token(String);

impl View for Token {
    type V = Seq<char>;

    closed spec fn view(&self) -> Seq<char> {
        self.0@
    }
}

impl Token {
    #[verifier::type_invariant]
    spec fn wf(self) -> bool {
        token_shape_wf(self.0@)
    }

    /// Initialize a token builder to construct a token.
    pub fn builder(payload: String) -> (r: TokenBuilder)
        ensures
            r.payload@ == payload@,
            r.expiration is None,
    {
        TokenBuilder::new(payload)
    }

    /// The token string.
    pub fn as_str(&self) -> (r: &str)
        ensures
            r@ == self@,
    {
        self.0.as_str()
    }

    /// Parse a raw string into a token, checking the two-segment base64url
    /// shape: exactly one `.`, both segments non-empty and over the URL-safe
    /// alphabet. This is a cheap structural pre-check; no cryptographic or
    /// payload work happens here.
    pub fn parse(raw: &str) -> (r: TokenResult<Token>)
        ensures
            r matches Ok(t) ==> token_shape_wf(raw@) && t@ == raw@,
            r matches Err(e) ==> !token_shape_wf(raw@) && e == TokenError::FormatError,
    {
        let n = raw.unicode_len();
        let mut i: usize = 0;
        let mut dot: Option<usize> = None;
        while i < n
            invariant
                n == raw@.len(),
                0 <= i <= n,
                (match dot {
                    Some(p) => p < i && raw@[p as int] == '.' && (forall|j: int|
                        0 <= j < i && j != p ==> is_b64url_char(#[trigger] raw@[j])),
                    None => forall|j: int| 0 <= j < i ==> is_b64url_char(#[trigger] raw@[j]),
                }),
            decreases n - i,
        {
            let c = raw.get_char(i);
            if c == '.' {
                match dot {
                    None => {
                        dot = Some(i);
                    },
                    Some(p) => {
                        // Two dots: no candidate separator can make every
                        // other character a base64url character.
                        proof {
                            assert forall|q: int|
                                !(0 < q < raw@.len() - 1 && raw@[q] == '.' && (forall|j: int|
                                    0 <= j < raw@.len() && j != q ==> is_b64url_char(
                                        #[trigger] raw@[j],
                                    ))) by {
                                if 0 < q < raw@.len() - 1 && raw@[q] == '.' {
                                    let other: int = if q == p as int {
                                        i as int
                                    } else {
                                        p as int
                                    };
                                    assert(raw@[other] == '.');
                                    assert(!is_b64url_char(raw@[other]));
                                }
                            }
                        }
                        return Err(TokenError::FormatError);
                    },
                }
            } else if (c >= 'A' && c <= 'Z') || (c >= 'a' && c <= 'z') || (c >= '0' && c <= '9')
                || c == '-' || c == '_' {
                // A segment character.
            } else {
                // Neither the separator nor a segment character: the shape
                // cannot hold, whatever separator is chosen.
                proof {
                    assert(!is_b64url_char(raw@[i as int]) && raw@[i as int] != '.');
                    assert forall|q: int|
                        !(0 < q < raw@.len() - 1 && raw@[q] == '.' && (forall|j: int|
                            0 <= j < raw@.len() && j != q ==> is_b64url_char(
                                #[trigger] raw@[j],
                            ))) by {
                        if 0 < q < raw@.len() - 1 && raw@[q] == '.' {
                            assert(q != i as int);
                        }
                    }
                }
                return Err(TokenError::FormatError);
            }
            i = i + 1;
        }
        match dot {
            Some(p) => {
                if p > 0 && p < n - 1 {
                    let t = Token(String::from_str(raw));
                    proof {
                        assert(raw@[p as int] == '.');
                        assert(token_shape_wf(raw@));
                    }
                    Ok(t)
                } else {
                    // The single dot sits at an end: one segment is empty.
                    proof {
                        assert forall|q: int|
                            !(0 < q < raw@.len() - 1 && raw@[q] == '.' && (forall|j: int|
                                0 <= j < raw@.len() && j != q ==> is_b64url_char(
                                    #[trigger] raw@[j],
                                ))) by {
                            if 0 < q < raw@.len() - 1 && raw@[q] == '.' {
                                assert(q == p as int);
                            }
                        }
                    }
                    Err(TokenError::FormatError)
                }
            },
            None => {
                // No separator at all.
                proof {
                    assert forall|q: int|
                        !(0 < q < raw@.len() - 1 && raw@[q] == '.' && (forall|j: int|
                            0 <= j < raw@.len() && j != q ==> is_b64url_char(
                                #[trigger] raw@[j],
                            ))) by {
                        if 0 < q < raw@.len() - 1 {
                            assert(is_b64url_char(raw@[q]) || raw@[q] != '.');
                        }
                    }
                }
                Err(TokenError::FormatError)
            },
        }
    }

    /// Split the token string into its base64-encoded message and signature
    /// segments, at the first `.`.
    pub fn split(&self) -> (r: Option<(&str, &str)>)
        ensures
            r matches Some(pair) && ({
                let d = find_dot(self@, 0);
                &&& 0 < d < self@.len() - 1
                &&& pair.0@ == self@.subrange(0, d)
                &&& pair.1@ == self@.subrange(d + 1, self@.len() as int)
            }),
    {
        proof {
            use_type_invariant(&*self);
            let w = choose|i: int|
                #![trigger self.0@[i]]
                {
                    &&& 0 < i < self.0@.len() - 1
                    &&& self.0@[i] == '.'
                    &&& forall|j: int|
                        0 <= j < self.0@.len() && j != i ==> is_b64url_char(
                            #[trigger] self.0@[j],
                        )
                };
            assert forall|c: char| is_b64url_char(c) implies c != '.' && '\0' <= c <= '\u{7f}' by {
                lemma_b64url_char_facts(c);
            }
            assert(vstd::utf8::is_ascii_chars(self.0@));
        }
        let s = self.0.as_str();
        let n = s.unicode_len();
        let mut i: usize = 0;
        while i < n
            invariant
                n == s@.len(),
                s@ == self@,
                0 <= i <= n,
                s.is_ascii(),
                token_shape_wf(self@),
                forall|j: int| 0 <= j < i ==> s@[j] != '.',
            decreases n - i,
        {
            if s.get_ascii(i) == 0x2e {
                proof {
                    assert(s@[i as int] == '.');
                    lemma_find_dot(s@, 0, i as int);
                    let w = choose|q: int|
                        #![trigger s@[q]]
                        {
                            &&& 0 < q < s@.len() - 1
                            &&& s@[q] == '.'
                            &&& forall|j: int|
                                0 <= j < s@.len() && j != q ==> is_b64url_char(
                                    #[trigger] s@[j],
                                )
                        };
                    // The found dot is the separator the shape names.
                    assert(i as int == w) by {
                        if i as int != w {
                            assert(is_b64url_char(s@[i as int]));
                            lemma_b64url_char_facts(s@[i as int]);
                        }
                    }
                }
                let msg = s.substring_ascii(0, i);
                let sig = s.substring_ascii(i + 1, n);
                return Some((msg, sig));
            }
            proof {
                assert(s@[i as int] != '.') by {
                    if s@[i as int] == '.' {
                        lemma_b64url_char_facts(s@[i as int]);
                    }
                }
            }
            i = i + 1;
        }
        // Unreachable: the shape guarantees a separator.
        proof {
            let w = choose|q: int|
                #![trigger s@[q]]
                {
                    &&& 0 < q < s@.len() - 1
                    &&& s@[q] == '.'
                    &&& forall|j: int|
                        0 <= j < s@.len() && j != q ==> is_b64url_char(#[trigger] s@[j])
                };
            assert(false);
        }
        None
    }

    /// Verify the token against `key` at an explicit instant (`now_secs`
    /// whole seconds since the Unix epoch, `now_nanos` sub-second
    /// nanoseconds) and deconstruct it into the encoded payload text.
    ///
    /// The outcome is a pure function of the token string, the key, and the
    /// instant; taking the instant as an argument keeps expiration checks
    /// deterministic for callers that must pin the clock.
    pub fn verify_at(self, key: &SigningKey, now_secs: i64, now_nanos: u32) -> (r: TokenResult<
        String,
    >)
        ensures
            result_matches(r, spec_verify(self@, key@, (now_secs, now_nanos))),
    {
        proof {
            use_type_invariant(&self);
        }
        let (msg_seg, sig_seg) = match self.split() {
            Some(pair) => pair,
            None => {
                return Err(TokenError::FormatError);
            },
        };
        let msg = match b64url_decode(msg_seg) {
            Some(m) => m,
            None => {
                return Err(TokenError::DecodeError);
            },
        };
        let sig = match b64url_decode(sig_seg) {
            Some(g) => g,
            None => {
                return Err(TokenError::DecodeError);
            },
        };
        verify_bytes_at(key, msg.as_slice(), sig.as_slice(), now_secs, now_nanos)
    }

    /// Verify the token against `key` at the current instant and
    /// deconstruct it into the encoded payload text.
    pub fn verify(self, key: &SigningKey) -> (r: TokenResult<String>)
        ensures
            exists|now: (i64, u32)|
                #[trigger] clock_wf(now) && result_matches(r, spec_verify(self@, key@, now)),
    {
        let (now_secs, now_nanos) = now_utc();
        self.verify_at(key, now_secs, now_nanos)
    }
}

impl core::str::FromStr for Token {
    type Err = TokenError;

    fn from_str(token: &str) -> Result<Self, TokenError> {
        Token::parse(token)
    }
}

/// Check decoded message bytes against a decoded signature under `key` at
/// an explicit instant, and recover the payload text.
fn verify_bytes_at(key: &SigningKey, msg: &[u8], signature: &[u8], now_secs: i64, now_nanos: u32) -> (r:
    TokenResult<String>)
    ensures
        result_matches(r, spec_verify_bytes(msg@, signature@, key@, (now_secs, now_nanos))),
{
    // Recompute the signature over the exact bytes recovered from the
    // token and compare over the full length. A mismatch stops
    // verification before any payload decoding.
    let expected = key.sign_bytes(msg);
    if !fixed_bytes_eq(expected.as_slice(), signature) {
        return Err(TokenError::SignatureMismatch);
    }
    let parsed = match parse_message(msg) {
        Some(pair) => pair,
        None => {
            return Err(TokenError::DecodeError);
        },
    };
    let (exp, data) = parsed;
    let payload = match bytes_to_string(data) {
        Some(p) => p,
        None => {
            return Err(TokenError::DecodeError);
        },
    };
    match exp {
        None => Ok(payload),
        Some(e) => {
            if !ts_maps_to_instant(e) {
                // Fail closed: an expiration that maps to no calendar
                // instant counts as expired.
                Err(TokenError::Expired)
            } else if now_secs > e || (now_secs == e && now_nanos > 0) {
                Err(TokenError::Expired)
            } else {
                Ok(payload)
            }
        },
    }
}

/// Check a message recovered from a token against its signature under
/// `key`, at the current instant, and recover the payload text: the
/// signature comes first, then the envelope, then the expiration.
pub fn verify_from_bytes(key: &SigningKey, msg: &[u8], signature: &[u8]) -> (r: TokenResult<
    String,
>)
    ensures
        exists|now: (i64, u32)|
            #[trigger] clock_wf(now) && result_matches(
                r,
                spec_verify_bytes(msg@, signature@, key@, now),
            ),
{
    let (now_secs, now_nanos) = now_utc();
    verify_bytes_at(key, msg, signature, now_secs, now_nanos)
}

/// Compare two byte strings over their full length, accumulating the
/// difference instead of returning at the first mismatch, so the comparison
/// time does not reveal where a forged signature diverges.
fn fixed_bytes_eq(a: &[u8], b: &[u8]) -> (r: bool)
    ensures
        r == (a@ == b@),
{
    if a.len() != b.len() {
        assert(a@ != b@);
        return false;
    }
    let n = a.len();
    let mut diff: u8 = 0;
    let mut i: usize = 0;
    while i < n
        invariant
            n == a@.len() == b@.len(),
            0 <= i <= n,
            (diff == 0) <==> (forall|j: int| 0 <= j < i ==> a@[j] == b@[j]),
        decreases n - i,
    {
        let x = a[i];
        let y = b[i];
        let ghost diff0 = diff;
        diff = diff | (x ^ y);
        proof {
            assert((diff0 | (x ^ y)) == 0 <==> diff0 == 0 && x == y) by (bit_vector);
        }
        i = i + 1;
    }
    if diff == 0 {
        assert(a@ =~= b@);
        true
    } else {
        false
    }
}

/// Handy builder for creating and signing tokens: it accumulates a payload
/// and an optional absolute expiration instant, and is consumed by `sign`.
#[derive(Debug)]
pub struct TokenBuilder {
    /// The absolute expiration instant, in seconds since the Unix epoch,
    /// or `None` for a token that never expires.
    pub expiration: Option<i64>,
    /// The payload text the token will carry, as already-serialized JSON.
    pub payload: String,
}

/// `a + b` clamped into the signed 64-bit range.
pub open spec fn sat_add_i64(a: i64, b: i64) -> i64 {
    if a + b > i64::MAX {
        i64::MAX
    } else if a + b < i64::MIN {
        i64::MIN
    } else {
        (a + b) as i64
    }
}

impl TokenBuilder {
    /// Create a new token builder with the specified payload and no
    /// expiration.
    pub fn new(payload: String) -> (r: Self)
        ensures
            r.payload@ == payload@,
            r.expiration is None,
    {
        TokenBuilder { expiration: None, payload }
    }

    /// Set the token to expire after the specified number of seconds from
    /// now, clamped into the signed 64-bit range. The duration may be
    /// negative, for a token that is already expired.
    pub fn expires_in(self, duration_secs: i64) -> (r: Self)
        ensures
            r.payload@ == self.payload@,
            exists|now: (i64, u32)|
                #[trigger] clock_wf(now) && r.expiration == Some(
                    sat_add_i64(now.0, duration_secs),
                ),
    {
        let (now_secs, _now_nanos) = now_utc();
        let e = if duration_secs >= 0 {
            if now_secs <= i64::MAX - duration_secs {
                now_secs + duration_secs
            } else {
                i64::MAX
            }
        } else {
            if now_secs >= i64::MIN - duration_secs {
                now_secs + duration_secs
            } else {
                i64::MIN
            }
        };
        TokenBuilder { expiration: Some(e), payload: self.payload }
    }

    /// Set the token to expire at an absolute instant, in seconds since the
    /// Unix epoch.
    pub fn expires_at(self, timestamp: i64) -> (r: Self)
        ensures
            r.payload@ == self.payload@,
            r.expiration == Some(timestamp),
    {
        TokenBuilder { expiration: Some(timestamp), payload: self.payload }
    }

    /// Serialize the message envelope, sign it with `key`, and pack both
    /// into the final token string.
    ///
    /// Signing always succeeds for a payload that is already text; the
    /// `Result` shape is kept for callers that serialize payloads on the
    /// way in. The contract carries the laws of the scheme:
    /// - the token is exactly `spec_sign` of the builder and key;
    /// - round-trip and expiration boundary: at any well-formed instant,
    ///   verification under the same key returns the payload, except that a
    ///   token whose expiration has passed (or maps to no calendar instant)
    ///   fails with `Expired`;
    /// - cross-key rejection: any key whose digest of the message differs
    ///   is refused as a `SignatureMismatch`, at any instant.
    pub fn sign(self, key: &SigningKey) -> (r: TokenResult<Token>)
        ensures
            r is Ok,
            r matches Ok(t) ==> t@ == spec_sign(self.expiration, self.payload@, key@),
            r matches Ok(t) ==> token_shape_wf(t@),
            r matches Ok(t) ==> forall|now: (i64, u32)|
                #[trigger] clock_wf(now) ==> spec_verify(t@, key@, now) == (if spec_expired(
                    self.expiration,
                    now,
                ) {
                    Err::<Seq<char>, TokenError>(TokenError::Expired)
                } else {
                    Ok::<Seq<char>, TokenError>(self.payload@)
                }),
            r matches Ok(t) ==> forall|k2: Seq<u8>, now: (i64, u32)|
                #![trigger hmac_sha256(k2, spec_message_bytes(self.expiration, self.payload@)), clock_wf(now)]
                clock_wf(now) && hmac_sha256(
                    k2,
                    spec_message_bytes(self.expiration, self.payload@),
                ) != hmac_sha256(key@, spec_message_bytes(self.expiration, self.payload@))
                    ==> spec_verify(t@, k2, now) == Err::<Seq<char>, TokenError>(
                    TokenError::SignatureMismatch,
                ),
    {
        let msg = build_message(self.expiration, self.payload.as_str());
        let sig = key.sign_bytes(msg.as_slice());
        let m64 = b64url_encode(msg.as_slice());
        let s64 = b64url_encode(sig.as_slice());
        let token = m64.concat(".").concat(s64.as_str());
        proof {
            broadcast use vstd::utf8::encode_utf8_valid_utf8;
            broadcast use vstd::utf8::encode_utf8_decode_utf8;

            reveal_strlit(".");
            let t = token@;
            let mb = spec_message_bytes(self.expiration, self.payload@);
            let l1 = b64url_of(mb).len() as int;
            assert(t =~= b64url_of(mb) + seq!['.'] + b64url_of(hmac_sha256(key@, mb)));
            assert(t =~= spec_sign(self.expiration, self.payload@, key@));
            // Segment lengths: the message is at least the frame, the
            // signature is 32 bytes, so both segments are non-empty.
            assert(mb.len() >= 17);
            assert(m64@.len() >= 1 && s64@.len() >= 1);
            assert(t[l1] == '.');
            assert forall|j: int| 0 <= j < t.len() && j != l1 implies is_b64url_char(
                #[trigger] t[j],
            ) by {
                if j < l1 {
                    assert(t[j] == m64@[j]);
                } else {
                    assert(t[j] == s64@[j - l1 - 1]);
                }
            }
            assert(token_shape_wf(t));
            // The first dot is the segment boundary.
            assert forall|j: int| 0 <= j < l1 implies t[j] != '.' by {
                lemma_b64url_char_facts(t[j]);
            }
            lemma_find_dot(t, 0, l1);
            assert(t.subrange(0, l1) =~= m64@);
            assert(t.subrange(l1 + 1, t.len() as int) =~= s64@);
            // The decoded segments are the message and its digest.
            assert(b64url_dec(t.subrange(0, l1)) == Some(mb));
            assert(b64url_dec(t.subrange(l1 + 1, t.len() as int)) == Some(
                hmac_sha256(key@, mb),
            ));
            lemma_message_roundtrip(self.expiration, self.payload@);
            assert(valid_utf8(encode_utf8(self.payload@)));
            assert(decode_utf8(encode_utf8(self.payload@)) == self.payload@);
            assert forall|now: (i64, u32)| #[trigger] clock_wf(now) implies spec_verify(
                t,
                key@,
                now,
            ) == (if spec_expired(self.expiration, now) {
                Err::<Seq<char>, TokenError>(TokenError::Expired)
            } else {
                Ok::<Seq<char>, TokenError>(self.payload@)
            }) by {
                assert(hmac_sha256(key@, mb) == hmac_sha256(key@, mb));
            }
            assert forall|k2: Seq<u8>, now: (i64, u32)|
                #![trigger hmac_sha256(k2, mb), clock_wf(now)]
                clock_wf(now) && hmac_sha256(k2, mb) != hmac_sha256(key@, mb)
                    implies spec_verify(t, k2, now) == Err::<Seq<char>, TokenError>(
                TokenError::SignatureMismatch,
            ) by {}
        }
        Ok(Token(token))
    }
}

} // verus!
