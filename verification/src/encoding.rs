//! Byte encodings that the protocol messages use: bincode for proof data and
//! base64 for transport.

use vstd::prelude::*;
use base64::Engine;
use crate::signer::le_bytes_of;

verus! {

/// The bincode encoding (fixed-width integers, little endian) of a sequence of
/// `u64`: its length as eight bytes, then each value as eight bytes.
pub open spec fn bincode_of_words(values: Seq<u64>) -> Seq<u8> {
    le_bytes_of(seq![values.len() as u64] + values)
}

/// The sequence of `u64` that bincode decodes from `bytes`, if any.
pub uninterp spec fn words_from_bincode(bytes: Seq<u8>) -> Option<Seq<u64>>;

/// The bincode encoding (fixed-width integers, little endian) of a byte vector:
/// its length as eight bytes, then the bytes.
pub open spec fn bincode_of_bytes(bytes: Seq<u8>) -> Seq<u8> {
    le_bytes_of(seq![bytes.len() as u64]) + bytes
}

/// The standard base64 text (with padding) of `bytes`.
pub uninterp spec fn base64_of(bytes: Seq<u8>) -> Seq<char>;

/// The bytes that standard base64 decodes from `text`, if it is valid base64.
pub uninterp spec fn bytes_from_base64(text: Seq<char>) -> Option<Seq<u8>>;

/// Trusted: calls `bincode::serialize::<Vec<u64>>`. Claimed: it succeeds (a
/// sequence of known length written into a `Vec` with no size limit cannot fail),
/// the bytes are `bincode_of_words(values)`, and `bincode::deserialize` of them
/// gives the values back (serde's round trip for bincode's default options).
#[verifier::external_body]
pub(crate) fn serialize_words(values: &Vec<u64>) -> (res: Option<Vec<u8>>)
    ensures
        res is Some,
        res matches Some(bytes) ==> bytes@ == bincode_of_words(values@) && words_from_bincode(bytes@)
            == Some(values@),
{
    bincode::serialize(values).ok()
}

/// Trusted: calls `bincode::deserialize::<Vec<u64>>`. Claimed: the result is
/// `words_from_bincode(bytes)`.
#[verifier::external_body]
pub(crate) fn deserialize_words(bytes: &[u8]) -> (res: Option<Vec<u64>>)
    ensures
        match res {
            Some(v) => words_from_bincode(bytes@) == Some(v@),
            None => words_from_bincode(bytes@) is None,
        },
{
    bincode::deserialize::<Vec<u64>>(bytes).ok()
}

/// Trusted: calls `bincode::serialize::<Vec<u8>>`. Claimed: it succeeds (as for
/// `serialize_words`) and the bytes are `bincode_of_bytes(bytes)`.
#[verifier::external_body]
pub(crate) fn serialize_bytes(bytes: &Vec<u8>) -> (res: Option<Vec<u8>>)
    ensures
        res is Some,
        res matches Some(out) ==> out@ == bincode_of_bytes(bytes@),
{
    bincode::serialize(bytes).ok()
}

/// Trusted: calls `Engine::encode` of `base64::engine::general_purpose::STANDARD`.
/// Claimed: the text is `base64_of(bytes)`, and decoding it gives the bytes back.
/// `encode` panics only where the output length overflows `usize`, which no byte
/// slice in memory (at most `isize::MAX` bytes) reaches.
#[verifier::external_body]
pub(crate) fn base64_encode(bytes: &[u8]) -> (text: String)
    ensures
        text@ == base64_of(bytes@),
        bytes_from_base64(text@) == Some(bytes@),
{
    base64::engine::general_purpose::STANDARD.encode(bytes)
}

/// The text of the error with which standard base64 refuses `text` (the
/// decoder error's `Display` form, such as "Invalid padding").
pub uninterp spec fn base64_error_text(text: Seq<char>) -> Seq<char>;

/// Trusted: calls `Engine::decode` of `base64::engine::general_purpose::STANDARD`,
/// and formats a decoder error with `to_string`. Claimed: the bytes are
/// `bytes_from_base64(text)`, or, where there are none, the error text is
/// `base64_error_text(text)`.
#[verifier::external_body]
pub(crate) fn base64_decode(text: &str) -> (res: Result<Vec<u8>, String>)
    ensures
        match res {
            Ok(bytes) => bytes_from_base64(text@) == Some(bytes@),
            Err(msg) => bytes_from_base64(text@) is None && msg@ == base64_error_text(text@),
        },
{
    match base64::engine::general_purpose::STANDARD.decode(text) {
        Ok(bytes) => Ok(bytes),
        Err(e) => Err(e.to_string()),
    }
}

} // verus!
