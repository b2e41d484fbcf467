//! The symmetric signing key and the keyed-hash primitive behind it.

use hmac::{KeyInit, Mac};

use vstd::prelude::*;

verus! {

/// The HMAC-SHA256 digest of `msg` under the key `key`: a pure function of
/// the two byte sequences, 32 bytes long.
pub uninterp spec fn hmac_sha256(key: Seq<u8>, msg: Seq<u8>) -> Seq<u8>;

/// A symmetric secret used both to produce and to check token signatures.
///
/// The key is immutable after construction and shared read-only: every
/// signing or verification call derives a fresh MAC state from the secret
/// bytes, so concurrent use needs no coordination.
pub struct SigningKey(Vec<u8>);

impl View for SigningKey {
    type V = Seq<u8>;

    closed spec fn view(&self) -> Seq<u8> {
        self.0@
    }
}

impl SigningKey {
    /// Wrap a secret into a signing key.
    ///
    /// HMAC-SHA256 accepts secrets of any length, so construction always
    /// succeeds; the `Result` shape is kept for callers that treat key
    /// construction as fallible.
    pub fn new(secret: &[u8]) -> (r: Result<Self, crate::crypto::token::TokenError>)
        ensures
            r matches Ok(k) && k@ == secret@,
    {
        Ok(SigningKey(vstd::slice::slice_to_vec(secret)))
    }

    /// The HMAC-SHA256 digest of `msg` under this key.
    pub fn sign_bytes(&self, msg: &[u8]) -> (r: Vec<u8>)
        ensures
            r@ == hmac_sha256(self@, msg@),
            r@.len() == 32,
    {
        hmac_sha256_digest(self.0.as_slice(), msg)
    }
}

/// Relies on the `hmac` crate's `Hmac<Sha256>` (with `sha2`'s `Sha256`): a
/// fresh MAC state is derived from the key for each call (`new_from_slice`
/// returns `Ok` for keys of any length, hashing long ones down), fed `msg`,
/// and finalized into a 32-byte digest that depends on the key and message
/// bytes alone.
#[verifier::external_body]
fn hmac_sha256_digest(key: &[u8], msg: &[u8]) -> (r: Vec<u8>)
    ensures
        r@ == hmac_sha256(key@, msg@),
        r@.len() == 32,
{
    let mac = <hmac::Hmac<sha2::Sha256> as KeyInit>::new_from_slice(key)
        .expect("HMAC accepts keys of any length");
    mac.chain_update(msg).finalize().into_bytes().to_vec()
}

} // verus!
