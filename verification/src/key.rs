//! Keys and IVs as base64 text.
//!
//! Keys travel on the command line and between runs as standard, padded
//! base64. Text shorter than the cipher's key or IV size decodes to a value
//! padded with zero bytes; longer text has its extra bytes ignored.
use vstd::prelude::*;

use crate::cha::{pad_or_cut, Key, IV, IV_SIZE, KEY_SIZE};

verus! {

#[verifier::external_type_specification]
#[verifier::external_body]
pub struct ExDecodeError(base64::DecodeError);

/// The base64 text (standard alphabet, padded) that denotes `bytes`.
pub uninterp spec fn base64_encoding(bytes: Seq<u8>) -> Seq<char>;

/// The bytes that well-formed base64 text `s` denotes.
pub uninterp spec fn base64_decoding(s: Seq<char>) -> Seq<u8>;

/// Relies on `base64::encode`: the standard-alphabet, padded base64 text for
/// the bytes, a deterministic function of them.
#[verifier::external_body]
fn b64_encode(bytes: &[u8]) -> (r: String)
    ensures
        r@ == base64_encoding(bytes@),
{
    base64::encode(bytes)
}

/// Relies on `base64::decode`: on well-formed base64 text, exactly the bytes
/// the text denotes; on malformed text, the crate's error.
#[verifier::external_body]
fn b64_decode(s: &str) -> (r: Result<Vec<u8>, base64::DecodeError>)
    ensures
        r is Ok ==> r->Ok_0@ == base64_decoding(s@),
{
    base64::decode(s)
}

/// Key or IV text that is not valid base64.
#[derive(Debug)]
pub struct KeyParseError {
    /// What the decoder objected to.
    pub cause: base64::DecodeError,
}

/// The base64 text for a key.
pub fn key_to_base64(key: &Key) -> (r: String)
    ensures
        r@ == base64_encoding(key@),
{
    b64_encode(key.as_bytes())
}

/// The base64 text for an IV.
pub fn iv_to_base64(iv: &IV) -> (r: String)
    ensures
        r@ == base64_encoding(iv@),
{
    b64_encode(iv.as_bytes())
}

/// Read a key from base64 text: the decoded bytes, padded with zero bytes or
/// cut to the key size.
pub fn key_from_base64(s: &str) -> (r: Result<Key, KeyParseError>)
    ensures
        r is Ok ==> r->Ok_0.wf() && r->Ok_0@ == pad_or_cut(base64_decoding(s@), KEY_SIZE as nat),
{
    match b64_decode(s) {
        Ok(bytes) => Ok(Key::from_bytes(bytes.as_slice())),
        Err(cause) => Err(KeyParseError { cause }),
    }
}

/// Read an IV from base64 text: the decoded bytes, padded with zero bytes or
/// cut to the IV size.
pub fn iv_from_base64(s: &str) -> (r: Result<IV, KeyParseError>)
    ensures
        r is Ok ==> r->Ok_0.wf() && r->Ok_0@ == pad_or_cut(base64_decoding(s@), IV_SIZE as nat),
{
    match b64_decode(s) {
        Ok(bytes) => Ok(IV::from_bytes(bytes.as_slice())),
        Err(cause) => Err(KeyParseError { cause }),
    }
}

} // verus!
