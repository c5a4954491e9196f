//! Base64 of the values of error details.
use base64::engine::general_purpose::STANDARD;
use base64::engine::general_purpose::STANDARD_NO_PAD;
use base64::Engine;
use vstd::prelude::*;

use crate::radix64::base64_bytes;
use crate::radix64::base64_text;
use crate::radix64::lemma_base64_reads_back;
use crate::radix64::lemma_ends_in_digit;
use crate::radix64::Alphabet;
use crate::text::without_trailing;

verus! {

/// Standard base64 without padding.
pub open spec fn unpadded_base64(bytes: Seq<u8>) -> Seq<char> {
    base64_text(bytes, Alphabet::Standard)
}

/// Standard base64, padded with `=` to a multiple of four characters.
pub open spec fn padded_base64(bytes: Seq<u8>) -> Seq<char> {
    let text = unpadded_base64(bytes);
    if text.len() % 4 == 2 {
        text + seq!['=', '=']
    } else if text.len() % 4 == 3 {
        text + seq!['=']
    } else {
        text
    }
}

/// The bytes that a text stands for in standard base64 without padding: nothing
/// where it is not what these bytes are written as.
pub open spec fn unpadded_decoded(text: Seq<char>) -> Option<Seq<u8>> {
    let bytes = base64_bytes(text);
    if unpadded_base64(bytes) == text {
        Some(bytes)
    } else {
        None
    }
}

/// The bytes that a text stands for in standard base64 with padding: nothing
/// where it is not what these bytes are written as.
pub open spec fn padded_decoded(text: Seq<char>) -> Option<Seq<u8>> {
    let bytes = base64_bytes(without_trailing(text, '='));
    if padded_base64(bytes) == text {
        Some(bytes)
    } else {
        None
    }
}

/// What is written in base64 is read back, with padding or without it.
pub proof fn lemma_details_read_back(bytes: Seq<u8>)
    ensures
        unpadded_decoded(unpadded_base64(bytes)) == Some(bytes),
        padded_decoded(padded_base64(bytes)) == Some(bytes),
{
    lemma_base64_reads_back(bytes, Alphabet::Standard);
    lemma_ends_in_digit(bytes, Alphabet::Standard);
    let text = unpadded_base64(bytes);
    let padded = padded_base64(bytes);
    reveal_with_fuel(without_trailing, 3);
    if text.len() % 4 == 2 {
        assert(padded.drop_last().drop_last() =~= text);
    } else if text.len() % 4 == 3 {
        assert(padded.drop_last() =~= text);
    } else {
        assert(padded =~= text);
    }
    assert(without_trailing(padded, '=') == text);
}

/// `Engine::encode` of `STANDARD_NO_PAD` writes standard base64 without padding.
#[verifier::external_body]
pub(crate) fn encode_unpadded(bytes: &[u8]) -> (text: String)
    ensures
        text@ == unpadded_base64(bytes@),
{
    STANDARD_NO_PAD.encode(bytes)
}

/// `Engine::decode` of `STANDARD_NO_PAD` reads what bytes are written as without
/// padding, and refuses anything else.
#[verifier::external_body]
pub(crate) fn decode_unpadded(text: &str) -> (bytes: Option<Vec<u8>>)
    ensures
        bytes is Some <==> unpadded_decoded(text@) is Some,
        bytes matches Some(b) ==> unpadded_decoded(text@) == Some(b@),
{
    STANDARD_NO_PAD.decode(text).ok()
}

/// `Engine::decode` of `STANDARD` reads what bytes are written as with padding,
/// and refuses anything else.
#[verifier::external_body]
pub(crate) fn decode_padded(text: &str) -> (bytes: Option<Vec<u8>>)
    ensures
        bytes is Some <==> padded_decoded(text@) is Some,
        bytes matches Some(b) ==> padded_decoded(text@) == Some(b@),
{
    STANDARD.decode(text).ok()
}

/// What a detail's text stands for, with or without padding.
pub open spec fn leniently_decoded(text: Seq<char>) -> Option<Seq<u8>> {
    match unpadded_decoded(text) {
        Some(bytes) => Some(bytes),
        None => padded_decoded(text),
    }
}

/// Write bytes as base64 without padding. [`decode_lenient`] reads them back.
pub fn encode(bytes: &[u8]) -> (text: String)
    ensures
        text@ == unpadded_base64(bytes@),
        leniently_decoded(text@) == Some(bytes@),
{
    proof {
        lemma_details_read_back(bytes@);
    }
    encode_unpadded(bytes)
}

/// Read base64 without padding, or else with it.
pub fn decode_lenient(s: &str) -> (bytes: Option<Vec<u8>>)
    ensures
        bytes is Some <==> leniently_decoded(s@) is Some,
        bytes matches Some(b) ==> leniently_decoded(s@) == Some(b@),
{
    match decode_unpadded(s) {
        Some(bytes) => Some(bytes),
        None => decode_padded(s),
    }
}

} // verus!
