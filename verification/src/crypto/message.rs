//! The token message envelope and its bit-exact wire form.
//!
//! A message is the JSON object `{"exp":E,"data":D}`: `E` is `null` or the
//! canonical decimal of a signed 64-bit Unix timestamp in seconds, and `D`
//! is the payload text, carried byte for byte. Framing and parsing are
//! implemented here directly on bytes and proved inverse to each other, so
//! the signature can cover the literal bytes produced once, never a
//! re-serialized copy.

use vstd::prelude::*;

verus! {

use vstd::string::StrSliceExecFns;
use vstd::utf8::encode_utf8;

/// An ASCII decimal digit.
pub open spec fn is_digit(b: u8) -> bool {
    0x30 <= b <= 0x39
}

/// The digit character for `n < 10`.
pub open spec fn digit_byte(n: nat) -> u8 {
    (0x30 + n) as u8
}

/// The canonical decimal digits of `n`: no leading zeros, `"0"` for zero.
pub open spec fn dec_digits(n: nat) -> Seq<u8>
    decreases n,
{
    if n < 10 {
        seq![digit_byte(n)]
    } else {
        dec_digits(n / 10).push(digit_byte(n % 10))
    }
}

/// The numeric value of a digit sequence, most significant first.
pub open spec fn dec_val(s: Seq<u8>) -> nat
    decreases s.len(),
{
    if s.len() == 0 {
        0
    } else {
        dec_val(s.drop_last()) * 10 + (if s.last() >= 0x30 {
            (s.last() - 0x30) as nat
        } else {
            0
        })
    }
}

/// The bytes of the `exp` field: `null`, or the canonical decimal of the
/// timestamp, with a leading `-` for negative values.
pub open spec fn exp_field_bytes(exp: Option<i64>) -> Seq<u8> {
    match exp {
        None => null_bytes(),
        Some(e) => if e < 0 {
            seq![0x2du8] + dec_digits((-(e as int)) as nat)
        } else {
            dec_digits(e as nat)
        },
    }
}

/// The bytes of `null`.
pub open spec fn null_bytes() -> Seq<u8> {
    seq![0x6eu8, 0x75u8, 0x6cu8, 0x6cu8]
}

/// The bytes of `{"exp":`.
pub open spec fn obj_open_bytes() -> Seq<u8> {
    seq![0x7bu8, 0x22u8, 0x65u8, 0x78u8, 0x70u8, 0x22u8, 0x3au8]
}

/// The bytes of `,"data":`.
pub open spec fn data_sep_bytes() -> Seq<u8> {
    seq![0x2cu8, 0x22u8, 0x64u8, 0x61u8, 0x74u8, 0x61u8, 0x22u8, 0x3au8]
}

/// The wire form of a message: `{"exp":E,"data":D}` with the payload text
/// `D` carried as its UTF-8 bytes.
pub open spec fn spec_message_bytes(exp: Option<i64>, payload: Seq<char>) -> Seq<u8> {
    obj_open_bytes() + exp_field_bytes(exp) + data_sep_bytes() + encode_utf8(payload)
        + seq![0x7du8]
}

/// The end of the run of decimal digits that starts at `i`.
pub open spec fn digit_run_end(m: Seq<u8>, i: int) -> int
    decreases m.len() - i,
{
    if 0 <= i < m.len() && is_digit(m[i]) {
        digit_run_end(m, i + 1)
    } else {
        i
    }
}

/// Parse the `exp` field at index 7 of `m`: the field's value and the index
/// just past it. Accepts `null` or a canonical in-range decimal, nothing
/// else.
pub open spec fn spec_parse_exp(m: Seq<u8>) -> Option<(Option<i64>, int)> {
    if m.len() >= 11 && m.subrange(7, 11) == null_bytes() {
        Some((Option::<i64>::None, 11))
    } else {
        let neg = 7 < m.len() && m[7] == 0x2d;
        let ds = if neg {
            8int
        } else {
            7int
        };
        let de = digit_run_end(m, ds);
        if de <= ds {
            None
        } else {
            let digits = m.subrange(ds, de);
            let v = dec_val(digits);
            if digits != dec_digits(v) {
                None
            } else if neg {
                if v == 0 || v > 0x8000000000000000 {
                    None
                } else {
                    Some((Some((-(v as int)) as i64), de))
                }
            } else {
                if v > 0x7fffffffffffffff {
                    None
                } else {
                    Some((Some(v as i64), de))
                }
            }
        }
    }
}

/// Parse a message: the expiration field and the payload bytes, or `None`
/// for anything that is not in the wire form.
pub open spec fn spec_parse_message(m: Seq<u8>) -> Option<(Option<i64>, Seq<u8>)> {
    if m.len() < 8 || m.subrange(0, 7) != obj_open_bytes() || m.last() != 0x7d {
        None
    } else {
        match spec_parse_exp(m) {
            None => None,
            Some((exp, k)) => if k + 8 <= m.len() - 1 && m.subrange(k, k + 8)
                == data_sep_bytes() {
                Some((exp, m.subrange(k + 8, m.len() - 1)))
            } else {
                None
            },
        }
    }
}

/// Every byte of `dec_digits(n)` is a decimal digit, and the sequence is
/// never empty.
pub proof fn lemma_dec_digits_are_digits(n: nat)
    ensures
        dec_digits(n).len() >= 1,
        forall|i: int| 0 <= i < dec_digits(n).len() ==> is_digit(#[trigger] dec_digits(n)[i]),
    decreases n,
{
    if n >= 10 {
        lemma_dec_digits_are_digits(n / 10);
    }
}

/// Reading the canonical digits of `n` back yields `n`.
pub proof fn lemma_dec_val_of_digits(n: nat)
    ensures
        dec_val(dec_digits(n)) == n,
    decreases n,
{
    if n < 10 {
        let s = dec_digits(n);
        assert(digit_byte(n) == 0x30 + n);
        assert(s.len() == 1 && s.last() == digit_byte(n));
        assert(s.drop_last() =~= Seq::<u8>::empty());
        assert(dec_val(s.drop_last()) == 0);
        assert(dec_val(s) == dec_val(s.drop_last()) * 10 + n);
    } else {
        lemma_dec_val_of_digits(n / 10);
        assert(digit_byte(n % 10) == 0x30 + n % 10);
        assert(dec_digits(n).drop_last() =~= dec_digits(n / 10));
        assert(dec_digits(n).last() == digit_byte(n % 10));
        assert(dec_val(dec_digits(n)) == (n / 10) * 10 + n % 10);
    }
}

/// A digit run bounded on the right by a non-digit (or the end of the
/// sequence) ends exactly there.
pub proof fn lemma_digit_run_end(m: Seq<u8>, i: int, de: int)
    requires
        0 <= i <= de <= m.len(),
        forall|j: int| i <= j < de ==> is_digit(#[trigger] m[j]),
        de == m.len() || !is_digit(m[de]),
    ensures
        digit_run_end(m, i) == de,
    decreases de - i,
{
    if i < de {
        lemma_digit_run_end(m, i + 1, de);
    }
}

/// Reading more digits never reads a smaller value.
pub proof fn lemma_dec_val_prefix_general(s: Seq<u8>, ds: int, a: int, b: int)
    requires
        0 <= ds <= a <= b <= s.len(),
    ensures
        dec_val(s.subrange(ds, a)) <= dec_val(s.subrange(ds, b)),
    decreases b - a,
{
    if a < b {
        lemma_dec_val_prefix_general(s, ds, a, b - 1);
        let p = s.subrange(ds, b - 1);
        let q = s.subrange(ds, b);
        assert(q.drop_last() =~= p);
        assert(dec_val(q) >= dec_val(p) * 10);
    }
}

/// Append the canonical decimal digits of `n`.
fn push_u64_dec(m: &mut Vec<u8>, n: u64)
    ensures
        final(m)@ == old(m)@ + dec_digits(n as nat),
    decreases n,
{
    if n < 10 {
        m.push(0x30 + n as u8);
        assert(m@ =~= old(m)@ + dec_digits(n as nat));
    } else {
        push_u64_dec(m, n / 10);
        m.push(0x30 + (n % 10) as u8);
        assert(m@ =~= old(m)@ + dec_digits(n as nat));
    }
}

/// Append the `exp` field bytes for an expiration of `e` seconds.
fn push_i64_dec(m: &mut Vec<u8>, e: i64)
    ensures
        final(m)@ == old(m)@ + exp_field_bytes(Some(e)),
{
    if e < 0 {
        m.push(0x2d);
        let mag: u64 = (-(e as i128)) as u64;
        assert(mag as int == -(e as int));
        push_u64_dec(m, mag);
        assert(m@ =~= old(m)@ + exp_field_bytes(Some(e)));
    } else {
        push_u64_dec(m, e as u64);
    }
}

/// Serialize the message envelope for an expiration and a payload text.
pub(crate) fn build_message(exp: Option<i64>, payload: &str) -> (r: Vec<u8>)
    ensures
        r@ == spec_message_bytes(exp, payload@),
{
    let mut m: Vec<u8> = Vec::new();
    m.push(0x7b);
    m.push(0x22);
    m.push(0x65);
    m.push(0x78);
    m.push(0x70);
    m.push(0x22);
    m.push(0x3a);
    assert(m@ =~= obj_open_bytes());
    match exp {
        None => {
            m.push(0x6e);
            m.push(0x75);
            m.push(0x6c);
            m.push(0x6c);
            assert(m@ =~= obj_open_bytes() + null_bytes());
        },
        Some(e) => {
            push_i64_dec(&mut m, e);
        },
    }
    let ghost head = m@;
    m.push(0x2c);
    m.push(0x22);
    m.push(0x64);
    m.push(0x61);
    m.push(0x74);
    m.push(0x61);
    m.push(0x22);
    m.push(0x3a);
    assert(m@ =~= head + data_sep_bytes());
    let mut data = payload.as_bytes_vec();
    m.append(&mut data);
    m.push(0x7d);
    assert(m@ =~= spec_message_bytes(exp, payload@));
    m
}

/// Whether two byte slices hold the same bytes.
fn bytes_eq(a: &[u8], b: &[u8]) -> (r: bool)
    ensures
        r == (a@ == b@),
{
    if a.len() != b.len() {
        assert(a@ != b@);
        return false;
    }
    let n = a.len();
    let mut i: usize = 0;
    while i < n
        invariant
            n == a@.len() == b@.len(),
            0 <= i <= n,
            forall|j: int| 0 <= j < i ==> a@[j] == b@[j],
        decreases n - i,
    {
        if a[i] != b[i] {
            return false;
        }
        i = i + 1;
    }
    assert(a@ =~= b@);
    true
}

/// Parse the expiration field of `m`, whose prefix has already been checked:
/// the value and the index just past the field.
fn parse_exp(m: &[u8]) -> (r: Option<(Option<i64>, usize)>)
    requires
        m@.len() >= 8,
    ensures
        (match r {
            Some((exp, k)) => spec_parse_exp(m@) == Some((exp, k as int)) && k <= m@.len(),
            None => spec_parse_exp(m@) is None,
        }),
{
    // `null`, if it is there.
    if m[7] == 0x6e {
        if m.len() >= 11 && m[8] == 0x75 && m[9] == 0x6c && m[10] == 0x6c {
            assert(m@.subrange(7, 11) =~= null_bytes());
            return Some((None, 11));
        }
        // Not `null`; the digit branch then finds no digits at index 7.
        proof {
            if m@.len() >= 11 {
                assert(m@.subrange(7, 11)[0] == m@[7]);
                assert(m@.subrange(7, 11)[1] == m@[8]);
                assert(m@.subrange(7, 11)[2] == m@[9]);
                assert(m@.subrange(7, 11)[3] == m@[10]);
            }
            assert(digit_run_end(m@, 7) == 7) by {
                lemma_digit_run_end(m@, 7, 7);
            }
        }
        return None;
    }
    proof {
        if m@.len() >= 11 {
            assert(m@.subrange(7, 11)[0] == m@[7]);
            assert(m@.subrange(7, 11) != null_bytes());
        }
    }
    let neg = m[7] == 0x2d;
    let ds: usize = if neg {
        8
    } else {
        7
    };
    // Find the end of the digit run.
    let mut j: usize = ds;
    while j < m.len() && m[j] >= 0x30 && m[j] <= 0x39
        invariant
            ds <= j <= m@.len(),
            digit_run_end(m@, ds as int) == digit_run_end(m@, j as int),
            forall|t: int| ds <= t < j ==> is_digit(#[trigger] m@[t]),
        decreases m@.len() - j,
    {
        j = j + 1;
    }
    let de = j;
    proof {
        assert(digit_run_end(m@, de as int) == de);
        assert(digit_run_end(m@, ds as int) == de);
    }
    if de == ds {
        return None;
    }
    let ghost digits = m@.subrange(ds as int, de as int);
    // Read the value, refusing anything past the largest magnitude a signed
    // 64-bit timestamp can carry.
    let mut acc: u64 = 0;
    let mut j2: usize = ds;
    while j2 < de
        invariant
            8 <= m@.len(),
            !(m@.len() >= 11 && m@.subrange(7, 11) == null_bytes()),
            neg == (m@[7] == 0x2d),
            ds as int == (if neg {
                8int
            } else {
                7int
            }),
            digit_run_end(m@, ds as int) == de as int,
            ds <= j2 <= de <= m@.len(),
            ds < de,
            digits == m@.subrange(ds as int, de as int),
            forall|t: int| ds <= t < de ==> is_digit(#[trigger] m@[t]),
            acc <= 0x8000000000000000,
            acc as nat == dec_val(m@.subrange(ds as int, j2 as int)),
        decreases de - j2,
    {
        let d: u64 = (m[j2] - 0x30) as u64;
        proof {
            assert(m@.subrange(ds as int, j2 as int + 1).drop_last() =~= m@.subrange(
                ds as int,
                j2 as int,
            ));
            assert(m@.subrange(ds as int, j2 as int + 1).last() == m@[j2 as int]);
        }
        if acc > (0x8000000000000000 - d) / 10 {
            // The run reads past the acceptable range; whichever sign it has,
            // the field is rejected.
            proof {
                let mm: int = 0x8000000000000000;
                let dd: int = d as int;
                let q: int = (mm - dd) / 10;
                assert(q * 10 <= mm - dd < q * 10 + 10) by (nonlinear_arith)
                    requires
                        q == (mm - dd) / 10,
                        0 <= dd <= 9,
                ;
                assert(acc * 10 + dd > mm);
                let cur = m@.subrange(ds as int, j2 as int + 1);
                assert(is_digit(m@[j2 as int]));
                assert(dec_val(cur) == acc * 10 + dd);
                lemma_dec_val_prefix_general(m@, ds as int, j2 as int + 1, de as int);
                assert(dec_val(digits) > 0x8000000000000000);
                assert(!(m@.len() >= 11 && m@.subrange(7, 11) == null_bytes()));
                assert(digit_run_end(m@, ds as int) == de as int);
                assert(de as int > ds as int);
                assert(spec_parse_exp(m@) is None);
            }
            return None;
        }
        acc = acc * 10 + d;
        j2 = j2 + 1;
    }
    assert(acc as nat == dec_val(digits));
    // The digits must be the canonical spelling of the value they read as.
    let mut canon: Vec<u8> = Vec::new();
    push_u64_dec(&mut canon, acc);
    assert(canon@ == dec_digits(acc as nat));
    let run = vstd::slice::slice_subrange(m, ds, de);
    if !bytes_eq(canon.as_slice(), run) {
        return None;
    }
    if neg {
        if acc == 0 {
            return None;
        }
        let e: i64 = if acc == 0x8000000000000000 {
            i64::MIN
        } else {
            -(acc as i64)
        };
        assert(e as int == -(acc as int));
        Some((Some(e), de))
    } else {
        if acc > 0x7fffffffffffffff {
            return None;
        }
        Some((Some(acc as i64), de))
    }
}

/// Parse a message into its expiration field and payload bytes, refusing
/// anything that is not in the wire form.
pub(crate) fn parse_message(m: &[u8]) -> (r: Option<(Option<i64>, Vec<u8>)>)
    ensures
        (match r {
            Some(pair) => spec_parse_message(m@) == Some((pair.0, pair.1@)),
            None => spec_parse_message(m@) is None,
        }),
{
    if m.len() < 8 {
        return None;
    }
    if m[0] != 0x7b || m[1] != 0x22 || m[2] != 0x65 || m[3] != 0x78 || m[4] != 0x70 || m[5]
        != 0x22 || m[6] != 0x3a {
        proof {
            let p = m@.subrange(0, 7);
            assert(p[0] == m@[0] && p[1] == m@[1] && p[2] == m@[2] && p[3] == m@[3] && p[4]
                == m@[4] && p[5] == m@[5] && p[6] == m@[6]);
        }
        return None;
    }
    assert(m@.subrange(0, 7) =~= obj_open_bytes());
    if m[m.len() - 1] != 0x7d {
        return None;
    }
    let parsed = parse_exp(m);
    let (exp, k) = match parsed {
        None => {
            return None;
        },
        Some(pair) => pair,
    };
    if m.len() - k < 9 {
        return None;
    }
    if m[k] != 0x2c || m[k + 1] != 0x22 || m[k + 2] != 0x64 || m[k + 3] != 0x61 || m[k + 4]
        != 0x74 || m[k + 5] != 0x61 || m[k + 6] != 0x22 || m[k + 7] != 0x3a {
        proof {
            let p = m@.subrange(k as int, k as int + 8);
            assert(p[0] == m@[k as int]);
            assert(p[1] == m@[k as int + 1]);
            assert(p[2] == m@[k as int + 2]);
            assert(p[3] == m@[k as int + 3]);
            assert(p[4] == m@[k as int + 4]);
            assert(p[5] == m@[k as int + 5]);
            assert(p[6] == m@[k as int + 6]);
            assert(p[7] == m@[k as int + 7]);
        }
        return None;
    }
    assert(m@.subrange(k as int, k as int + 8) =~= data_sep_bytes());
    let data = vstd::slice::slice_to_vec(vstd::slice::slice_subrange(m, k + 8, m.len() - 1));
    Some((exp, data))
}

/// Framing a message and parsing it back returns the original envelope.
pub proof fn lemma_message_roundtrip(exp: Option<i64>, payload: Seq<char>)
    ensures
        spec_parse_message(spec_message_bytes(exp, payload)) == Some(
            (exp, encode_utf8(payload)),
        ),
{
    let m = spec_message_bytes(exp, payload);
    let x = exp_field_bytes(exp);
    let d = encode_utf8(payload);
    assert(m.len() == 7 + x.len() + 8 + d.len() + 1);
    assert(m.subrange(0, 7) =~= obj_open_bytes());
    assert(m.last() == 0x7d);
    let k = 7 + x.len() as int;
    assert(m.subrange(k, k + 8) =~= data_sep_bytes());
    assert(m.subrange(k + 8, m.len() - 1) =~= d);
    match exp {
        None => {
            assert(m.subrange(7, 11) =~= null_bytes());
            assert(spec_parse_exp(m) == Some((Option::<i64>::None, 11int)));
        },
        Some(e) => {
            let neg = e < 0;
            let mag = if e < 0 {
                (-(e as int)) as nat
            } else {
                e as nat
            };
            let digits = dec_digits(mag);
            lemma_dec_digits_are_digits(mag);
            lemma_dec_val_of_digits(mag);
            let ds = if neg {
                8int
            } else {
                7int
            };
            // The `null` branch is not taken: the byte at index 7 is a digit
            // or `-`, never `n`.
            assert(m[7] == (if neg {
                0x2du8
            } else {
                digits[0]
            }));
            assert(m.subrange(7, 11) != null_bytes()) by {
                assert(m.subrange(7, 11)[0] == m[7]);
                assert(null_bytes()[0] == 0x6eu8);
            }
            assert(m.subrange(ds, ds + digits.len() as int) =~= digits);
            // The byte after the digits is the comma of `,"data":`.
            assert(m[ds + digits.len()] == 0x2cu8);
            lemma_digit_run_end(m, ds, ds + digits.len() as int);
            assert(digit_run_end(m, ds) == ds + digits.len());
            assert(m.subrange(ds, digit_run_end(m, ds)) =~= digits);
            if neg {
                assert(0 < mag <= 0x8000000000000000) by {
                    assert(-0x8000000000000000 <= e < 0);
                }
                assert((-(mag as int)) as i64 == e);
            } else {
                assert(mag <= 0x7fffffffffffffff);
            }
            assert(spec_parse_exp(m) == Some((Some(e), ds + digits.len() as int)));
        },
    }
}

} // verus!
