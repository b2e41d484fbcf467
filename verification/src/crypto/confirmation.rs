//! Subscription-confirmation payloads: an identifier carried through a
//! signed token as a JSON string.

use vstd::prelude::*;

verus! {

use vstd::string::{StrSliceExecFns, StringExecFns};

use crate::crypto::signing_key::SigningKey;
use crate::crypto::token::{
    clock_wf, spec_sign, spec_verify, token_shape_wf, Token, TokenError, TokenResult,
};

/// The payload text for an identifier: the identifier wrapped in double
/// quotes, as a JSON string.
pub open spec fn quoted(id: Seq<char>) -> Seq<char> {
    seq!['"'] + id + seq!['"']
}

/// Whether an identifier can be carried as a JSON string without escaping:
/// it holds no double quote and no backslash.
pub open spec fn quotable(id: Seq<char>) -> bool {
    forall|i: int| 0 <= i < id.len() ==> id[i] != '"' && id[i] != '\\'
}

/// Strip the quotes of a payload text that carries a plain JSON string;
/// `None` for any other payload.
pub open spec fn spec_unquote(p: Seq<char>) -> Option<Seq<char>> {
    if p.len() >= 2 && p[0] == '"' && p.last() == '"' && quotable(p.subrange(1, p.len() - 1)) {
        Some(p.subrange(1, p.len() - 1))
    } else {
        None
    }
}

/// The outcome of recovering a confirmation identifier from a raw token
/// string under `key` at the instant `now`: the structural pre-check, the
/// full verification pipeline, then the unquoting of the payload.
pub open spec fn spec_confirmation_verify(token: Seq<char>, key: Seq<u8>, now: (i64, u32)) -> Result<
    Seq<char>,
    TokenError,
> {
    if !token_shape_wf(token) {
        Err(TokenError::FormatError)
    } else {
        match spec_verify(token, key, now) {
            Err(e) => Err(e),
            Ok(p) => match spec_unquote(p) {
                Some(id) => Ok(id),
                None => Err(TokenError::DecodeError),
            },
        }
    }
}

/// A subscription identifier exchanged through a confirmation link: signed
/// into a token when the confirmation email goes out, and recovered from
/// the token the confirming request carries.
#[derive(Debug)]
pub struct Confirmation(String);

impl View for Confirmation {
    type V = Seq<char>;

    closed spec fn view(&self) -> Seq<char> {
        self.0@
    }
}

impl Confirmation {
    /// Wrap an identifier, most often the text form of a subscription id.
    pub fn new(id: String) -> (r: Self)
        ensures
            r@ == id@,
    {
        Confirmation(id)
    }

    /// The identifier.
    pub fn id(&self) -> (r: &str)
        ensures
            r@ == self@,
    {
        self.0.as_str()
    }

    /// Sign the identifier into a token: the payload is the identifier as a
    /// JSON string, and no expiration is set, so the confirmation link
    /// stays usable until acted on.
    pub fn sign(&self, key: &SigningKey) -> (r: TokenResult<Token>)
        ensures
            r matches Ok(t) && t@ == spec_sign(None, quoted(self@), key@),
            r matches Ok(t) ==> forall|now: (i64, u32)|
                #[trigger] clock_wf(now) ==> spec_verify(t@, key@, now) == Ok::<
                    Seq<char>,
                    TokenError,
                >(quoted(self@)),
    {
        let payload = String::from_str("\"").concat(self.0.as_str()).concat("\"");
        proof {
            reveal_strlit("\"");
            assert(payload@ =~= quoted(self@));
        }
        Token::builder(payload).sign(key)
    }

    /// Parse and verify a raw token string, and recover the identifier it
    /// carries.
    pub fn verify(key: &SigningKey, token: &str) -> (r: TokenResult<Self>)
        ensures
            exists|now: (i64, u32)|
                #[trigger] clock_wf(now) && (match r {
                    Ok(c) => spec_confirmation_verify(token@, key@, now) == Ok::<
                        Seq<char>,
                        TokenError,
                    >(c@),
                    Err(e) => spec_confirmation_verify(token@, key@, now) == Err::<
                        Seq<char>,
                        TokenError,
                    >(e),
                }),
    {
        let parsed = match Token::parse(token) {
            Ok(t) => t,
            Err(e) => {
                proof {
                    // Any well-formed instant witnesses the structural
                    // failure; verification never consulted the clock.
                    assert(clock_wf((0i64, 0u32)));
                }
                return Err(e);
            },
        };
        let payload = match parsed.verify(key) {
            Ok(p) => p,
            Err(e) => {
                return Err(e);
            },
        };
        let ghost now0 = choose|now: (i64, u32)|
            #[trigger] clock_wf(now) && spec_verify(token@, key@, now) == Ok::<
                Seq<char>,
                TokenError,
            >(payload@);
        let n = payload.as_str().unicode_len();
        if n < 2 {
            return Err(TokenError::DecodeError);
        }
        if payload.as_str().get_char(0) != '"' || payload.as_str().get_char(n - 1) != '"' {
            return Err(TokenError::DecodeError);
        }
        let mut i: usize = 1;
        while i < n - 1
            invariant
                2 <= n == payload@.len(),
                1 <= i <= n - 1,
                token_shape_wf(token@),
                clock_wf(now0),
                spec_verify(token@, key@, now0) == Ok::<Seq<char>, TokenError>(payload@),
                payload@[0] == '"' && payload@[n - 1] == '"',
                forall|j: int| 1 <= j < i ==> payload@[j] != '"' && payload@[j] != '\\',
            decreases n - i,
        {
            let c = payload.as_str().get_char(i);
            if c == '"' || c == '\\' {
                proof {
                    assert(payload@.subrange(1, n as int - 1)[i - 1] == payload@[i as int]);
                    assert(!quotable(payload@.subrange(1, n as int - 1)));
                    assert(spec_unquote(payload@) is None);
                }
                return Err(TokenError::DecodeError);
            }
            i = i + 1;
        }
        let id = payload.as_str().substring_char(1, n - 1);
        proof {
            assert(spec_unquote(payload@) == Some(id@));
        }
        Ok(Confirmation(String::from_str(id)))
    }
}

} // verus!
