//! Keys as hexadecimal text.
//!
//! A key is handed to the oracle as text: two hexadecimal digits for each
//! byte, with or without a leading `0x`.

use crate::errors::EnvError;
use vstd::prelude::*;
use vstd::slice::slice_subrange;
use vstd::utf8::{encode_utf8, is_ascii_chars_encode_utf8};

verus! {

/// What is wrong with a hexadecimal text.
#[derive(Debug, Clone, Copy, PartialEq, Eq)]
pub enum HexFault {
    /// The byte at `index` is no hexadecimal digit; `c` is that byte as a
    /// character.
    InvalidHexCharacter { c: char, index: usize },
    /// The text has an odd number of bytes.
    OddLength,
    /// The text does not have two digits for each byte of the target.
    InvalidStringLength,
}

/// `digit` is one of `0`-`9`, `a`-`f`, `A`-`F`.
pub open spec fn is_hex_digit(digit: u8) -> bool {
    ||| 0x30 <= digit <= 0x39
    ||| 0x41 <= digit <= 0x46
    ||| 0x61 <= digit <= 0x66
}

/// The number that a hexadecimal digit stands for.
pub open spec fn hex_digit_value(digit: u8) -> int {
    if digit <= 0x39 {
        digit - 0x30
    } else if digit <= 0x46 {
        digit - 0x41 + 10
    } else {
        digit - 0x61 + 10
    }
}

/// The lower-case hexadecimal digit for a number below 16.
pub open spec fn hex_digit(value: int) -> u8 {
    if value < 10 {
        (0x30 + value) as u8
    } else {
        (0x61 + value - 10) as u8
    }
}

/// Every byte of `text` is a hexadecimal digit.
pub open spec fn all_hex_digits(text: Seq<u8>) -> bool {
    forall|i: int| 0 <= i < text.len() ==> is_hex_digit(#[trigger] text[i])
}

/// `index` is the place of the first byte of `text` that is no hexadecimal
/// digit.
pub open spec fn is_first_bad_digit(text: Seq<u8>, index: int) -> bool {
    &&& 0 <= index < text.len()
    &&& !is_hex_digit(text[index])
    &&& forall|j: int| 0 <= j < index ==> is_hex_digit(#[trigger] text[j])
}

/// The bytes that a text of hexadecimal digits spells: each pair of digits is
/// one byte, the first digit its upper half.
pub open spec fn hex_decoding(text: Seq<u8>) -> Seq<u8> {
    Seq::new(
        text.len() / 2,
        |i: int| (hex_digit_value(text[2 * i]) * 16 + hex_digit_value(text[2 * i + 1])) as u8,
    )
}

/// The lower-case hexadecimal digits of `bytes`, two for each byte.
pub open spec fn hex_encoding(bytes: Seq<u8>) -> Seq<u8> {
    Seq::new(
        2 * bytes.len(),
        |i: int|
            if i % 2 == 0 {
                hex_digit(bytes[i / 2] as int / 16)
            } else {
                hex_digit(bytes[i / 2] as int % 16)
            },
    )
}

/// The lower-case hexadecimal digits of `bytes` as characters.
pub open spec fn hex_text(bytes: Seq<u8>) -> Seq<char> {
    Seq::new(2 * bytes.len(), |i: int| hex_encoding(bytes)[i] as char)
}

/// The two bytes of `0x`.
pub open spec fn hex_prefix() -> Seq<u8> {
    seq![0x30u8, 0x78u8]
}

/// `text` begins with `0x`.
pub open spec fn has_hex_prefix(text: Seq<u8>) -> bool {
    text.len() >= 2 && text[0] == 0x30 && text[1] == 0x78
}

/// `text` without a leading `0x`, if it has one.
pub open spec fn hex_payload(text: Seq<u8>) -> Seq<u8> {
    if has_hex_prefix(text) {
        text.subrange(2, text.len() as int)
    } else {
        text
    }
}

/// The bytes that reading `n` bytes from `text` gives: `text` is taken as its
/// UTF-8 bytes, a leading `0x` is dropped, and what is left must be two
/// hexadecimal digits for each byte. `None` where it is not.
pub open spec fn hex_reading(text: Seq<char>, n: nat) -> Option<Seq<u8>> {
    let payload = hex_payload(encode_utf8(text));
    if payload.len() == 2 * n && all_hex_digits(payload) {
        Some(hex_decoding(payload))
    } else {
        None
    }
}

/// The message for a byte that is no hexadecimal digit: it names the byte as
/// a character and its place.
pub uninterp spec fn invalid_character_text(c: char, index: int) -> Seq<char>;

/// Calls `hex::decode_to_slice` on an array of `N` zero bytes. As `hex`
/// documents: a text of odd length, then one of another length than `2 * N`,
/// is refused; then the digits are read in order, and the first byte that is
/// none is reported with its place; otherwise each pair of digits gives a byte.
#[verifier::external_body]
fn decode_to_array<const N: usize>(text: &[u8]) -> (decoded: Result<[u8; N], HexFault>)
    ensures
        match decoded {
            Ok(bytes) => {
                &&& text@.len() == 2 * N
                &&& all_hex_digits(text@)
                &&& bytes@ == hex_decoding(text@)
            },
            Err(HexFault::OddLength) => text@.len() % 2 != 0,
            Err(HexFault::InvalidStringLength) => text@.len() % 2 == 0 && text@.len() != 2 * N,
            Err(HexFault::InvalidHexCharacter { c, index }) => {
                &&& text@.len() == 2 * N
                &&& is_first_bad_digit(text@, index as int)
                &&& c == text@[index as int] as char
            },
        },
{
    let mut bytes = [0u8; N];
    match hex::decode_to_slice(text, &mut bytes) {
        Ok(()) => Ok(bytes),
        Err(hex::FromHexError::InvalidHexCharacter { c, index }) => Err(
            HexFault::InvalidHexCharacter { c, index },
        ),
        Err(hex::FromHexError::OddLength) => Err(HexFault::OddLength),
        Err(hex::FromHexError::InvalidStringLength) => Err(HexFault::InvalidStringLength),
    }
}

/// The text that `hex::FromHexError::InvalidHexCharacter` displays as.
#[verifier::external_body]
fn invalid_character_message(c: char, index: usize) -> (message: String)
    ensures
        message@ == invalid_character_text(c, index as int),
{
    hex::FromHexError::InvalidHexCharacter { c, index }.to_string()
}

/// Calls `hex::encode`: two lower-case hexadecimal digits for each byte.
#[verifier::external_body]
fn encode(data: &[u8]) -> (text: String)
    ensures
        text@ == hex_text(data@),
{
    hex::encode(data)
}

/// The error for a text that `hex` has refused.
pub fn parse_failure(fault: HexFault) -> (error: EnvError)
    ensures
        match fault {
            HexFault::InvalidHexCharacter { c, index } => error matches EnvError::HexParseError(
                message,
            ) && message@ == invalid_character_text(c, index as int),
            _ => error matches EnvError::InvalidHexLength,
        },
{
    match fault {
        HexFault::InvalidHexCharacter { c, index } => EnvError::HexParseError(
            invalid_character_message(c, index),
        ),
        _ => EnvError::InvalidHexLength,
    }
}

/// Reads `N` bytes from hexadecimal text, with or without a leading `0x`.
///
/// Fails with `InvalidHexLength` unless the digits are two for each byte,
/// and with `HexParseError` where a byte of the text is no digit: the message
/// names the first such byte and its place after the prefix.
pub fn try_hex_to_array<const N: usize>(hex_string: String) -> (parsed: Result<[u8; N], EnvError>)
    ensures
        ({
            let payload = hex_payload(encode_utf8(hex_string@));
            match parsed {
                Ok(bytes) => hex_reading(hex_string@, N as nat) == Some(bytes@),
                Err(EnvError::InvalidHexLength) => payload.len() != 2 * N,
                Err(EnvError::HexParseError(message)) => {
                    &&& payload.len() == 2 * N
                    &&& exists|i: int|
                        is_first_bad_digit(payload, i) && message@ == #[trigger] invalid_character_text(
                            payload[i] as char,
                            i,
                        )
                },
                Err(EnvError::VarNotFound) => false,
            }
        }),
{
    let text = hex_string.as_str().as_bytes();
    let payload = if text.len() >= 2 && text[0] == 0x30 && text[1] == 0x78 {
        slice_subrange(text, 2, text.len())
    } else {
        text
    };
    assert(text@ == encode_utf8(hex_string@));
    assert(payload@ == hex_payload(text@));
    match decode_to_array::<N>(payload) {
        Ok(bytes) => Ok(bytes),
        Err(fault) => {
            let error = parse_failure(fault);
            proof {
                if let HexFault::InvalidHexCharacter { c, index } = fault {
                    assert(is_first_bad_digit(payload@, index as int));
                    assert(error->HexParseError_0@ == invalid_character_text(
                        payload@[index as int] as char,
                        index as int,
                    ));
                }
            }
            Err(error)
        },
    }
}

/// The lower-case hexadecimal text of `array`.
pub fn array_to_hex(array: &[u8]) -> (text: String)
    ensures
        text@ == hex_text(array@),
{
    encode(array)
}

/// Reads a 32-byte key from the value of the key variable of the
/// environment: `VarNotFound` where the variable is not set, else as
/// [`try_hex_to_array`] reads it.
pub fn try_key_from_environment(value: Option<String>) -> (key: Result<[u8; 32], EnvError>)
    ensures
        value is None ==> key matches Err(EnvError::VarNotFound),
        value matches Some(hex_string) ==> ({
            let payload = hex_payload(encode_utf8(hex_string@));
            match key {
                Ok(bytes) => hex_reading(hex_string@, 32) == Some(bytes@),
                Err(EnvError::InvalidHexLength) => payload.len() != 64,
                Err(EnvError::HexParseError(message)) => {
                    &&& payload.len() == 64
                    &&& exists|i: int|
                        is_first_bad_digit(payload, i) && message@ == #[trigger] invalid_character_text(
                            payload[i] as char,
                            i,
                        )
                },
                Err(EnvError::VarNotFound) => false,
            }
        }),
{
    match value {
        Some(hex_string) => try_hex_to_array::<32>(hex_string),
        None => Err(EnvError::VarNotFound),
    }
}

/// The digits of a byte spell that byte.
proof fn lemma_digit_round_trip(byte: u8)
    ensures
        is_hex_digit(hex_digit(byte as int / 16)),
        is_hex_digit(hex_digit(byte as int % 16)),
        hex_digit_value(hex_digit(byte as int / 16)) == byte as int / 16,
        hex_digit_value(hex_digit(byte as int % 16)) == byte as int % 16,
        hex_digit(byte as int / 16) < 0x80,
        hex_digit(byte as int % 16) < 0x80,
        hex_digit(byte as int / 16) != 0x78,
        hex_digit(byte as int % 16) != 0x78,
{
}

/// The characters of `0x`.
pub open spec fn hex_prefix_text() -> Seq<char> {
    seq!['0', 'x']
}

/// Writing bytes as hexadecimal text and reading the text back gives the
/// bytes again, with or without a leading `0x`.
pub proof fn lemma_hex_round_trip(bytes: Seq<u8>)
    ensures
        hex_text(bytes).len() == 2 * bytes.len(),
        hex_reading(hex_text(bytes), bytes.len()) == Some(bytes),
        hex_reading(hex_prefix_text() + hex_text(bytes), bytes.len()) == Some(bytes),
{
    let digits = hex_encoding(bytes);
    let text = hex_text(bytes);
    let prefixed_text = hex_prefix_text() + text;
    let prefixed = hex_prefix() + digits;
    assert forall|i: int| 0 <= i < digits.len() implies is_hex_digit(#[trigger] digits[i])
        && digits[i] < 0x80 && digits[i] != 0x78 by {
        lemma_digit_round_trip(bytes[i / 2]);
    }
    assert forall|i: int| 0 <= i < text.len() implies '\0' <= #[trigger] text[i] <= '\u{7f}' by {
        assert(digits[i] < 0x80);
    }
    is_ascii_chars_encode_utf8(text);
    assert forall|i: int| 0 <= i < text.len() implies encode_utf8(text)[i] == digits[i] by {
        assert(text[i] as u8 == encode_utf8(text)[i]);
        assert(digits[i] < 0x80);
    }
    assert(encode_utf8(text) =~= digits);
    assert forall|i: int| 0 <= i < prefixed_text.len() implies '\0' <= #[trigger] prefixed_text[i]
        <= '\u{7f}' by {
        if i >= 2 {
            assert(prefixed_text[i] == text[i - 2]);
        }
    }
    is_ascii_chars_encode_utf8(prefixed_text);
    assert forall|i: int| 0 <= i < prefixed_text.len() implies encode_utf8(prefixed_text)[i]
        == prefixed[i] by {
        assert(prefixed_text[i] as u8 == encode_utf8(prefixed_text)[i]);
        if i >= 2 {
            assert(prefixed_text[i] == text[i - 2]);
            assert(digits[i - 2] < 0x80);
        }
    }
    assert(encode_utf8(prefixed_text) =~= prefixed);
    if digits.len() >= 2 {
        assert(digits[1] != 0x78);
    }
    assert(has_hex_prefix(prefixed));
    assert(prefixed.subrange(2, prefixed.len() as int) =~= digits);
    assert forall|i: int| 0 <= i < bytes.len() implies hex_decoding(digits)[i] == bytes[i] by {
        lemma_digit_round_trip(bytes[i]);
        assert(digits[2 * i] == hex_digit(bytes[i] as int / 16));
        assert(digits[2 * i + 1] == hex_digit(bytes[i] as int % 16));
    }
    assert(hex_decoding(digits) =~= bytes);
}

} // verus!
