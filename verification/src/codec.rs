//! Byte and text codecs used at the edges of the protocol: base64 for the
//! wire representation of binary fields, UTF-8 for recovered secrets.

use vstd::prelude::*;

use crate::errors::CryptoError;

verus! {

use vstd::utf8::{encode_utf8, valid_utf8};

/// The canonical padded base64 text (standard alphabet) of a byte sequence.
pub uninterp spec fn b64_of(bytes: Seq<u8>) -> Seq<char>;

/// Relies on base64's STANDARD engine: `encode` returns the canonical padded
/// base64 text of the input bytes, a function of the input alone.
#[verifier::external_body]
pub fn base64_encode(input: &[u8]) -> (r: String)
    ensures
        r@ == b64_of(input@),
{
    base64::Engine::encode(&base64::engine::general_purpose::STANDARD, input)
}

/// Relies on base64's STANDARD engine: `decode` requires canonical padding and
/// rejects set trailing bits, so it accepts exactly the canonical encodings
/// and inverts `encode`.
#[verifier::external_body]
pub fn base64_decode(input: &str) -> (r: Result<Vec<u8>, CryptoError>)
    ensures
        forall|b: Seq<u8>| input@ == b64_of(b) ==> r is Ok && r.unwrap()@ == b,
        r is Ok ==> input@ == b64_of(r.unwrap()@),
        r matches Err(e) ==> e == CryptoError::Base64,
{
    match base64::Engine::decode(&base64::engine::general_purpose::STANDARD, input) {
        Ok(v) => Ok(v),
        Err(_) => Err(CryptoError::Base64),
    }
}

/// Relies on String::from_utf8: it succeeds exactly on valid UTF-8 input and
/// the returned string holds the given bytes unchanged.
#[verifier::external_body]
pub fn utf8_to_string(bytes: Vec<u8>) -> (r: Option<String>)
    ensures
        r is Some <==> valid_utf8(bytes@),
        r is Some ==> encode_utf8(r.unwrap()@) == bytes@,
{
    match String::from_utf8(bytes) {
        Ok(s) => Some(s),
        Err(_) => None,
    }
}

/// Byte-for-byte equality of two slices.
pub fn bytes_eq(a: &[u8], b: &[u8]) -> (r: bool)
    ensures
        r == (a@ == b@),
{
    if a.len() != b.len() {
        return false;
    }
    let mut i: usize = 0;
    while i < a.len()
        invariant
            i <= a@.len(),
            a@.len() == b@.len(),
            forall|j: int| 0 <= j < i ==> a@[j] == b@[j],
        decreases a@.len() - i,
    {
        if a[i] != b[i] {
            return false;
        }
        i = i + 1;
    }
    proof {
        assert(a@ =~= b@);
    }
    true
}

/// Equality of two strings, decided on their UTF-8 bytes.
pub fn str_eq(a: &str, b: &str) -> (r: bool)
    ensures
        r == (a@ == b@),
{
    let r = bytes_eq(a.as_bytes(), b.as_bytes());
    proof {
        if encode_utf8(a@) == encode_utf8(b@) {
            vstd::utf8::encode_utf8_decode_utf8(a@);
            vstd::utf8::encode_utf8_decode_utf8(b@);
        }
    }
    r
}

} // verus!
