//! Percent-decoding of a query-string token into text.

use vstd::prelude::*;
use vstd::utf8::*;

verus! {

/// The byte `%`, which opens an escape.
pub const PERCENT: u8 = 0x25;

/// Whether `b` is an ASCII hexadecimal digit, in either case.
pub open spec fn is_hex_digit(b: u8) -> bool {
    (0x30 <= b <= 0x39) || (0x41 <= b <= 0x46) || (0x61 <= b <= 0x66)
}

/// The number that the hexadecimal digit `b` stands for.
pub open spec fn hex_value(b: u8) -> int
    recommends
        is_hex_digit(b),
{
    if 0x30 <= b <= 0x39 {
        b - 0x30
    } else if 0x41 <= b <= 0x46 {
        b - 0x41 + 10
    } else {
        b - 0x61 + 10
    }
}

/// Whether `bytes` begins with `%` and two hexadecimal digits.
pub open spec fn starts_with_escape(bytes: Seq<u8>) -> bool {
    &&& bytes.len() >= 3
    &&& bytes[0] == PERCENT
    &&& is_hex_digit(bytes[1])
    &&& is_hex_digit(bytes[2])
}

/// The bytes that `bytes` stands for: every `%` followed by two hexadecimal
/// digits becomes the byte the digits spell, every other byte stays, a `%`
/// that opens no escape included.
pub open spec fn percent_decoded(bytes: Seq<u8>) -> Seq<u8>
    decreases bytes.len(),
{
    if bytes.len() == 0 {
        Seq::empty()
    } else if starts_with_escape(bytes) {
        seq![(16 * hex_value(bytes[1]) + hex_value(bytes[2])) as u8] + percent_decoded(
            bytes.skip(3),
        )
    } else {
        seq![bytes[0]] + percent_decoded(bytes.skip(1))
    }
}

/// The text that the token `raw` decodes to, if its decoded bytes are
/// well-formed UTF-8.
pub open spec fn decoded_text(raw: Seq<u8>) -> Option<Seq<char>> {
    let bytes = percent_decoded(raw);
    if valid_utf8(bytes) {
        Some(decode_utf8(bytes))
    } else {
        None
    }
}

/// Why a token could not be decoded.
#[derive(Debug, Clone, Copy, PartialEq, Eq)]
pub enum DecodeError {
    /// The percent-decoded bytes are not well-formed UTF-8.
    InvalidUtf8,
}

/// `core::str::Utf8Error`, carried through and never looked into.
#[verifier::external_type_specification]
#[verifier::external_body]
pub struct ExUtf8Error(core::str::Utf8Error);

/// `percent_encoding::percent_decode` followed by `PercentDecode::decode_utf8`.
///
/// Trusted: the iterator yields `percent_decoded(input)`, and `decode_utf8`
/// returns that as text exactly when it is well-formed UTF-8.
#[verifier::external_body]
fn percent_decode_utf8(input: &[u8]) -> (r: Result<String, core::str::Utf8Error>)
    ensures
        r is Ok <==> valid_utf8(percent_decoded(input@)),
        r matches Ok(text) ==> text@ == decode_utf8(percent_decoded(input@)),
{
    match percent_encoding::percent_decode(input).decode_utf8() {
        Ok(text) => Ok(text.into_owned()),
        Err(e) => Err(e),
    }
}

/// Percent-decodes the UTF-8 bytes `input` into text.
pub fn decode_bytes(input: &[u8]) -> (r: Result<String, DecodeError>)
    ensures
        match r {
            Ok(text) => decoded_text(input@) == Some(text@),
            Err(e) => decoded_text(input@) is None && e == DecodeError::InvalidUtf8,
        },
{
    match percent_decode_utf8(input) {
        Ok(text) => Ok(text),
        Err(_) => Err(DecodeError::InvalidUtf8),
    }
}

/// Percent-decodes `input` into text.
///
/// Fails exactly when the decoded bytes are not well-formed UTF-8. An input
/// without `%` comes back unchanged.
pub fn urldecode(input: &str) -> (r: Result<String, DecodeError>)
    ensures
        match r {
            Ok(text) => decoded_text(encode_utf8(input@)) == Some(text@),
            Err(e) => decoded_text(encode_utf8(input@)) is None && e == DecodeError::InvalidUtf8,
        },
        !encode_utf8(input@).contains(PERCENT) ==> r is Ok && r->Ok_0@ == input@,
{
    proof {
        if !encode_utf8(input@).contains(PERCENT) {
            lemma_decoded_text_of_plain(input@);
        }
    }
    decode_bytes(input.as_bytes())
}

/// Bytes without `%` decode to themselves.
pub proof fn lemma_decoded_without_percent(bytes: Seq<u8>)
    requires
        !bytes.contains(PERCENT),
    ensures
        percent_decoded(bytes) == bytes,
    decreases bytes.len(),
{
    if bytes.len() > 0 {
        assert(bytes.contains(bytes[0]));
        assert forall|b: u8| bytes.skip(1).contains(b) implies bytes.contains(b) by {
            let i = choose|i: int| 0 <= i < bytes.skip(1).len() && bytes.skip(1)[i] == b;
            assert(bytes[i + 1] == b);
        }
        lemma_decoded_without_percent(bytes.skip(1));
        assert(seq![bytes[0]] + bytes.skip(1) =~= bytes);
    }
}

/// Text whose UTF-8 bytes hold no `%` decodes to itself.
pub proof fn lemma_decoded_text_of_plain(text: Seq<char>)
    requires
        !encode_utf8(text).contains(PERCENT),
    ensures
        decoded_text(encode_utf8(text)) == Some(text),
{
    lemma_decoded_without_percent(encode_utf8(text));
    encode_utf8_valid_utf8(text);
    encode_utf8_decode_utf8(text);
}

/// The upper-case hexadecimal digit that spells `v`.
pub open spec fn hex_digit(v: u8) -> u8
    recommends
        v < 16,
{
    if v < 10 {
        (0x30 + v) as u8
    } else {
        (0x41 + v - 10) as u8
    }
}

/// The escape that spells the byte `b`: `%` and two hexadecimal digits.
pub open spec fn escape_of(b: u8) -> Seq<u8> {
    seq![PERCENT, hex_digit(b / 16), hex_digit(b % 16)]
}

/// The percent-encoding of `bytes` that leaves the bytes in `literal` as they
/// are and escapes every other byte.
pub open spec fn percent_encoded(bytes: Seq<u8>, literal: Set<u8>) -> Seq<u8>
    decreases bytes.len(),
{
    if bytes.len() == 0 {
        Seq::empty()
    } else {
        let head = if literal.contains(bytes[0]) {
            seq![bytes[0]]
        } else {
            escape_of(bytes[0])
        };
        head + percent_encoded(bytes.skip(1), literal)
    }
}

/// Decoding undoes encoding: whatever set of bytes the encoder leaves
/// literal, as long as it escapes `%` itself, the encoded bytes decode to the
/// bytes that were encoded.
pub proof fn lemma_decode_inverts_encode(bytes: Seq<u8>, literal: Set<u8>)
    requires
        !literal.contains(PERCENT),
    ensures
        percent_decoded(percent_encoded(bytes, literal)) == bytes,
    decreases bytes.len(),
{
    if bytes.len() > 0 {
        let b = bytes[0];
        let rest = percent_encoded(bytes.skip(1), literal);
        let encoded = percent_encoded(bytes, literal);
        lemma_decode_inverts_encode(bytes.skip(1), literal);
        if literal.contains(b) {
            assert(encoded.skip(1) =~= rest);
        } else {
            assert(encoded.skip(3) =~= rest);
            assert(starts_with_escape(encoded));
            assert(16 * hex_value(hex_digit(b / 16)) + hex_value(hex_digit(b % 16)) == b);
        }
        assert(seq![b] + bytes.skip(1) =~= bytes);
    }
}

/// The round trip on text: the percent-encoding of the UTF-8 bytes of any
/// text decodes to that text.
pub proof fn lemma_text_round_trip(text: Seq<char>, literal: Set<u8>)
    requires
        !literal.contains(PERCENT),
    ensures
        decoded_text(percent_encoded(encode_utf8(text), literal)) == Some(text),
{
    lemma_decode_inverts_encode(encode_utf8(text), literal);
    encode_utf8_valid_utf8(text);
    encode_utf8_decode_utf8(text);
}

} // verus!
