//! Hexadecimal text for byte strings, as the JSON-RPC wire format writes them.
//!
//! Byte strings travel as `0x`-prefixed lowercase hex. Reading accepts what the
//! hex codec of `alloy-primitives` accepts: an optional `0x`/`0X` prefix, then an
//! even number of hex digits in either case.
use vstd::prelude::*;

verus! {

/// The value of one hex digit, in either case.
pub open spec fn hex_digit_value(c: char) -> Option<u8> {
    if '0' <= c && c <= '9' {
        Some((c as u32 - 48) as u8)
    } else if 'a' <= c && c <= 'f' {
        Some((c as u32 - 87) as u8)
    } else if 'A' <= c && c <= 'F' {
        Some((c as u32 - 55) as u8)
    } else {
        None
    }
}

/// The lowercase hex digit of a nibble.
pub open spec fn lower_hex_digit(n: u8) -> char {
    if n == 0 {
        '0'
    } else if n == 1 {
        '1'
    } else if n == 2 {
        '2'
    } else if n == 3 {
        '3'
    } else if n == 4 {
        '4'
    } else if n == 5 {
        '5'
    } else if n == 6 {
        '6'
    } else if n == 7 {
        '7'
    } else if n == 8 {
        '8'
    } else if n == 9 {
        '9'
    } else if n == 10 {
        'a'
    } else if n == 11 {
        'b'
    } else if n == 12 {
        'c'
    } else if n == 13 {
        'd'
    } else if n == 14 {
        'e'
    } else {
        'f'
    }
}

/// Two lowercase hex digits per byte, high nibble first, without a prefix.
pub open spec fn hex_digits(bytes: Seq<u8>) -> Seq<char>
    decreases bytes.len(),
{
    if bytes.len() == 0 {
        Seq::empty()
    } else {
        seq![lower_hex_digit(bytes[0] / 16), lower_hex_digit(bytes[0] % 16)] + hex_digits(
            bytes.skip(1),
        )
    }
}

/// The wire text of a byte string: `0x` followed by its lowercase hex digits.
pub open spec fn hex_text(bytes: Seq<u8>) -> Seq<char> {
    seq!['0', 'x'] + hex_digits(bytes)
}

/// The digits of a hex text once an optional `0x` or `0X` prefix is removed.
pub open spec fn strip_hex_prefix(s: Seq<char>) -> Seq<char> {
    if s.len() >= 2 && s[0] == '0' && (s[1] == 'x' || s[1] == 'X') {
        s.skip(2)
    } else {
        s
    }
}

/// The bytes spelled by a run of hex digits, read in pairs; `None` when the run
/// has odd length or holds a character that is not a hex digit.
pub open spec fn hex_pairs(digits: Seq<char>) -> Option<Seq<u8>>
    decreases digits.len(),
{
    if digits.len() == 0 {
        Some(Seq::empty())
    } else if digits.len() == 1 {
        None
    } else {
        match (hex_digit_value(digits[0]), hex_digit_value(digits[1]), hex_pairs(digits.skip(2))) {
            (Some(hi), Some(lo), Some(rest)) => Some(seq![(hi * 16 + lo) as u8] + rest),
            _ => None,
        }
    }
}

/// The bytes that a hex text denotes, or `None` when it is not valid hex.
pub open spec fn hex_value(s: Seq<char>) -> Option<Seq<u8>> {
    hex_pairs(strip_hex_prefix(s))
}

proof fn lemma_nibble_digit(n: u8)
    requires
        n < 16,
    ensures
        hex_digit_value(lower_hex_digit(n)) == Some(n),
{
}

/// Reading back the digits of a byte string gives the byte string.
pub proof fn lemma_hex_digits_roundtrip(bytes: Seq<u8>)
    ensures
        hex_pairs(hex_digits(bytes)) == Some(bytes),
    decreases bytes.len(),
{
    if bytes.len() > 0 {
        let b = bytes[0];
        let d = hex_digits(bytes);
        let rest = hex_digits(bytes.skip(1));
        lemma_hex_digits_roundtrip(bytes.skip(1));
        lemma_nibble_digit(b / 16);
        lemma_nibble_digit(b % 16);
        assert(d.skip(2) =~= rest);
        assert(d[0] == lower_hex_digit(b / 16));
        assert(d[1] == lower_hex_digit(b % 16));
        assert(((b / 16) * 16 + b % 16) as u8 == b);
        assert(seq![b] + bytes.skip(1) =~= bytes);
    }
}

/// The wire text of a byte string reads back as that byte string.
pub proof fn lemma_hex_text_roundtrip(bytes: Seq<u8>)
    ensures
        hex_value(hex_text(bytes)) == Some(bytes),
{
    let t = hex_text(bytes);
    assert(t.skip(2) =~= hex_digits(bytes));
    lemma_hex_digits_roundtrip(bytes);
}

/// The error of the hex codec of `alloy-primitives` (from `const-hex`).
#[verifier::external_type_specification]
#[verifier::external_body]
pub struct ExFromHexError(alloy_primitives::hex::FromHexError);

/// Calls `alloy_primitives::hex::encode_prefixed`, which writes `0x` and then two
/// lowercase hex digits per byte, high nibble first. The contract states exactly
/// that text.
#[verifier::external_body]
fn encode_prefixed(bytes: &[u8]) -> (text: String)
    ensures
        text@ == hex_text(bytes@),
{
    alloy_primitives::hex::encode_prefixed(bytes)
}

/// Calls `alloy_primitives::hex::decode`. The source fails on an odd length,
/// strips one leading `0x` or `0X`, and decodes the rest in pairs of digits of
/// either case, failing on any other character. The contract states that it
/// succeeds exactly when `hex_value` is defined, with those bytes; which error
/// value it returns on failure is not stated.
#[verifier::external_body]
fn decode(text: &str) -> (r: Result<Vec<u8>, alloy_primitives::hex::FromHexError>)
    ensures
        match r {
            Ok(bytes) => hex_value(text@) == Some(bytes@),
            Err(_) => hex_value(text@) is None,
        },
{
    alloy_primitives::hex::decode(text)
}

/// A text that is not hex.
#[derive(Clone, Copy, Debug, PartialEq, Eq)]
pub enum HexError {
    /// The text has odd length or a character that is not a hex digit.
    InvalidHex,
}

/// The `0x`-prefixed lowercase hex text of a byte string.
pub fn to_hex(bytes: &[u8]) -> (text: String)
    ensures
        text@ == hex_text(bytes@),
{
    encode_prefixed(bytes)
}

/// The bytes that a hex text spells, with or without a `0x` prefix.
pub fn from_hex(text: &str) -> (r: Result<Vec<u8>, HexError>)
    ensures
        match r {
            Ok(bytes) => hex_value(text@) == Some(bytes@),
            Err(e) => hex_value(text@) is None && e == HexError::InvalidHex,
        },
{
    match decode(text) {
        Ok(bytes) => Ok(bytes),
        Err(_) => Err(HexError::InvalidHex),
    }
}

} // verus!
