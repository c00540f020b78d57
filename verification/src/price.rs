//! Reading an answer: the oracle delivers a price as base64 text, and the
//! requester reads the text that it encodes.

use vstd::prelude::*;
use vstd::string::StringSliceAdditionalSpecFns;
use vstd::utf8::{decode_utf8, encode_utf8, valid_utf8};

verus! {

/// Why an answer cannot be read.
#[derive(Clone, Copy, PartialEq, Eq, Structural, Debug)]
pub enum PriceError {
    /// The answer is no base64 text.
    InvalidBase64,
    /// The bytes that the answer encodes are no UTF-8 text.
    InvalidUtf8,
}

/// `base64::DecodeError`, the reason that `base64::decode` gives for refusing
/// a text. Nothing is read from it.
#[verifier::external_type_specification]
#[verifier::external_body]
pub struct ExDecodeError(base64::DecodeError);

/// The bytes that `base64::decode` returns for a text, or nothing where it
/// refuses the text.
pub uninterp spec fn base64_decoded(input: Seq<char>) -> Option<Seq<u8>>;

/// Calls `base64::decode`, which decodes the standard alphabet with padding.
/// Trusted: the outcome depends on the text alone, and is what
/// `base64_decoded` names. The outside function panics where the length of
/// its input plus 7 overflows, which `requires` leaves out.
#[verifier::external_body]
fn base64_decode(input: &String) -> (r: Result<Vec<u8>, base64::DecodeError>)
    requires
        encode_utf8(input@).len() + 7 <= usize::MAX,
    ensures
        match r {
            Ok(bytes) => base64_decoded(input@) == Some(bytes@),
            Err(_) => base64_decoded(input@) is None,
        },
{
    base64::decode(input)
}

/// Calls `String::from_utf8`. Trusted: it succeeds exactly on valid UTF-8,
/// and the string then holds the characters that the bytes encode.
#[verifier::external_body]
fn string_from_utf8(bytes: Vec<u8>) -> (r: Option<String>)
    ensures
        match r {
            Some(text) => valid_utf8(bytes@) && text@ == decode_utf8(bytes@),
            None => !valid_utf8(bytes@),
        },
{
    match String::from_utf8(bytes) {
        Ok(text) => Some(text),
        Err(_) => None,
    }
}

/// The text that decoded bytes stand for.
pub open spec fn readable(decoded: Option<Seq<u8>>) -> Result<Seq<char>, PriceError> {
    match decoded {
        None => Err(PriceError::InvalidBase64),
        Some(bytes) => if valid_utf8(bytes) {
            Ok(decode_utf8(bytes))
        } else {
            Err(PriceError::InvalidUtf8)
        },
    }
}

/// The price that an answer stands for. An answer too long for the decoder
/// is refused like one that is no base64.
pub open spec fn price_of(answer: Seq<char>) -> Result<Seq<char>, PriceError> {
    if encode_utf8(answer).len() + 7 > usize::MAX {
        Err(PriceError::InvalidBase64)
    } else {
        readable(base64_decoded(answer))
    }
}

/// Decoded bytes as plain values.
pub open spec fn decoded_view(decoded: Option<Vec<u8>>) -> Option<Seq<u8>> {
    match decoded {
        Some(bytes) => Some(bytes@),
        None => None,
    }
}

/// A price that was read, or the refusal, as plain values.
pub open spec fn price_view(r: Result<String, PriceError>) -> Result<Seq<char>, PriceError> {
    match r {
        Ok(text) => Ok(text@),
        Err(e) => Err(e),
    }
}

/// Reads decoded bytes as text. `None` stands for an answer that was no
/// base64.
pub fn read_price(decoded: Option<Vec<u8>>) -> (r: Result<String, PriceError>)
    ensures
        price_view(r) == readable(decoded_view(decoded)),
{
    match decoded {
        None => Err(PriceError::InvalidBase64),
        Some(bytes) => match string_from_utf8(bytes) {
            Some(text) => Ok(text),
            None => Err(PriceError::InvalidUtf8),
        },
    }
}

/// Reads the price that `answer` stands for.
pub fn decode_price(answer: &String) -> (r: Result<String, PriceError>)
    ensures
        price_view(r) == price_of(answer@),
{
    if answer.as_str().as_bytes().len() > usize::MAX - 7 {
        return Err(PriceError::InvalidBase64);
    }
    match base64_decode(answer) {
        Ok(bytes) => read_price(Some(bytes)),
        Err(_) => read_price(None),
    }
}

} // verus!
