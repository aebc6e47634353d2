//! The codec one byte at a time: a byte to its pair of digits, a pair of
//! digits to its byte, and whole arrays of fixed size.

use crate::model::{
    decode_pair, digit_value, hex_pair, hex_text, is_alphabet, is_hex_digit, DIGIT_0, DIGIT_9,
    LOWER_A, LOWER_F, UPPER_A, UPPER_F,
};
use crate::pair::{pairs_text, CharPair};
use crate::{CharTable, DecodeError, CHAR_TABLE_LOWER, CHAR_TABLE_UPPER};
use vstd::prelude::*;

verus! {

/// The pair of digits of `byt` in the alphabet `table`.
#[inline(always)]
pub(crate) fn dec2hex(table: CharTable, byt: u8) -> (pair: CharPair)
    requires
        is_alphabet(table@),
    ensures
        pair@ == hex_pair(table@, byt),
{
    let hi: u8 = byt.wrapping_shr(4) & 0xf;
    let lo: u8 = byt & 0xf;
    // A wrapping shift takes its amount modulo the width of the type.
    assert(hi == byt / 16 && lo == byt % 16) by (bit_vector)
        requires
            hi == (byt >> (4u32 % 8u32)) & 0xf,
            lo == byt & 0xf,
    ;
    CharPair::from_digits(table[hi as usize], table[lo as usize])
}

/// The pairs of digits of `input` in the alphabet `table`, byte by byte.
fn hex<const N: usize>(table: CharTable, input: [u8; N]) -> (output: [CharPair; N])
    requires
        is_alphabet(table@),
    ensures
        forall|i: int| 0 <= i < N ==> (#[trigger] output@[i])@ == hex_pair(table@, input@[i]),
        pairs_text(output@) == hex_text(table@, input@),
{
    let mut output = [CharPair::from_digits(DIGIT_0, DIGIT_0);N];
    let mut idx: usize = 0;
    while idx < N
        invariant
            idx <= N,
            is_alphabet(table@),
            forall|i: int| 0 <= i < idx ==> (#[trigger] output@[i])@ == hex_pair(table@, input@[i]),
        decreases N - idx,
    {
        output[idx] = dec2hex(table, input[idx]);
        idx += 1;
    }
    output
}

/// Encodes `input` with the upper-case alphabet, one pair for each byte.
#[inline(always)]
pub fn const_hex_upper<const N: usize>(input: [u8; N]) -> (output: [CharPair; N])
    ensures
        forall|i: int|
            0 <= i < N ==> (#[trigger] output@[i])@ == hex_pair(CHAR_TABLE_UPPER@, input@[i]),
        pairs_text(output@) == hex_text(CHAR_TABLE_UPPER@, input@),
{
    hex(CHAR_TABLE_UPPER, input)
}

/// Encodes `input` with the lower-case alphabet, one pair for each byte.
#[inline(always)]
pub fn const_hex_lower<const N: usize>(input: [u8; N]) -> (output: [CharPair; N])
    ensures
        forall|i: int|
            0 <= i < N ==> (#[trigger] output@[i])@ == hex_pair(CHAR_TABLE_LOWER@, input@[i]),
        pairs_text(output@) == hex_text(CHAR_TABLE_LOWER@, input@),
{
    hex(CHAR_TABLE_LOWER, input)
}

/// The nibble of the digit `ch`, by the rule that classifies characters:
/// `0-9` stand for 0 to 9, `A-F` and `a-f` for 10 to 15, and nothing else is
/// a digit.
#[inline(always)]
pub fn hex2dec(ch: u8) -> (nibble: Result<u8, DecodeError>)
    ensures
        nibble == if is_hex_digit(ch) {
            Ok::<u8, DecodeError>(digit_value(ch))
        } else {
            Err(DecodeError::InvalidChar(ch))
        },
{
    if UPPER_A <= ch && ch <= UPPER_F {
        Ok(ch - UPPER_A + 10)
    } else if LOWER_A <= ch && ch <= LOWER_F {
        Ok(ch - LOWER_A + 10)
    } else if DIGIT_0 <= ch && ch <= DIGIT_9 {
        Ok(ch - DIGIT_0)
    } else {
        Err(DecodeError::unexpected_char(ch))
    }
}

/// The entry of the nibble table for a byte that is no hexadecimal digit.
pub const UNHEX_INVALID_CHAR: u8 = 0xff;

/// The nibble table: for each byte value, the nibble it stands for as a
/// hexadecimal digit, or `UNHEX_INVALID_CHAR`.
pub const UNHEX_TABLE: &'static [u8; 256] = &[
    0xff, 0xff, 0xff, 0xff, 0xff, 0xff, 0xff, 0xff, 0xff, 0xff, 0xff, 0xff, 0xff, 0xff, 0xff, 0xff,
    0xff, 0xff, 0xff, 0xff, 0xff, 0xff, 0xff, 0xff, 0xff, 0xff, 0xff, 0xff, 0xff, 0xff, 0xff, 0xff,
    0xff, 0xff, 0xff, 0xff, 0xff, 0xff, 0xff, 0xff, 0xff, 0xff, 0xff, 0xff, 0xff, 0xff, 0xff, 0xff,
    0x00, 0x01, 0x02, 0x03, 0x04, 0x05, 0x06, 0x07, 0x08, 0x09, 0xff, 0xff, 0xff, 0xff, 0xff, 0xff,
    0xff, 0x0a, 0x0b, 0x0c, 0x0d, 0x0e, 0x0f, 0xff, 0xff, 0xff, 0xff, 0xff, 0xff, 0xff, 0xff, 0xff,
    0xff, 0xff, 0xff, 0xff, 0xff, 0xff, 0xff, 0xff, 0xff, 0xff, 0xff, 0xff, 0xff, 0xff, 0xff, 0xff,
    0xff, 0x0a, 0x0b, 0x0c, 0x0d, 0x0e, 0x0f, 0xff, 0xff, 0xff, 0xff, 0xff, 0xff, 0xff, 0xff, 0xff,
    0xff, 0xff, 0xff, 0xff, 0xff, 0xff, 0xff, 0xff, 0xff, 0xff, 0xff, 0xff, 0xff, 0xff, 0xff, 0xff,
    0xff, 0xff, 0xff, 0xff, 0xff, 0xff, 0xff, 0xff, 0xff, 0xff, 0xff, 0xff, 0xff, 0xff, 0xff, 0xff,
    0xff, 0xff, 0xff, 0xff, 0xff, 0xff, 0xff, 0xff, 0xff, 0xff, 0xff, 0xff, 0xff, 0xff, 0xff, 0xff,
    0xff, 0xff, 0xff, 0xff, 0xff, 0xff, 0xff, 0xff, 0xff, 0xff, 0xff, 0xff, 0xff, 0xff, 0xff, 0xff,
    0xff, 0xff, 0xff, 0xff, 0xff, 0xff, 0xff, 0xff, 0xff, 0xff, 0xff, 0xff, 0xff, 0xff, 0xff, 0xff,
    0xff, 0xff, 0xff, 0xff, 0xff, 0xff, 0xff, 0xff, 0xff, 0xff, 0xff, 0xff, 0xff, 0xff, 0xff, 0xff,
    0xff, 0xff, 0xff, 0xff, 0xff, 0xff, 0xff, 0xff, 0xff, 0xff, 0xff, 0xff, 0xff, 0xff, 0xff, 0xff,
    0xff, 0xff, 0xff, 0xff, 0xff, 0xff, 0xff, 0xff, 0xff, 0xff, 0xff, 0xff, 0xff, 0xff, 0xff, 0xff,
    0xff, 0xff, 0xff, 0xff, 0xff, 0xff, 0xff, 0xff, 0xff, 0xff, 0xff, 0xff, 0xff, 0xff, 0xff, 0xff,
];

/// What the nibble table holds for the byte `ch`.
pub open spec fn nibble_entry(ch: u8) -> u8 {
    if is_hex_digit(ch) {
        digit_value(ch)
    } else {
        UNHEX_INVALID_CHAR
    }
}

/// The nibble table holds, entry by entry, what the rule that classifies
/// characters gives.
pub proof fn lemma_unhex_table()
    ensures
        forall|ch: u8| #[trigger] UNHEX_TABLE@[ch as int] == nibble_entry(ch),
{
}

/// Converts a pair of hexadecimal digits to the byte it stands for, or
/// reports the first of the two characters that is no digit.
#[inline(always)]
pub fn unhex_pair(ch: [u8; 2]) -> (byte: Result<u8, DecodeError>)
    ensures
        byte == decode_pair(ch@[0], ch@[1]),
{
    proof {
        lemma_unhex_table();
    }
    let left: u8 = UNHEX_TABLE[ch[0] as usize];
    let right: u8 = UNHEX_TABLE[ch[1] as usize];
    if left == UNHEX_INVALID_CHAR {
        Err(DecodeError::InvalidChar(ch[0]))
    } else if right == UNHEX_INVALID_CHAR {
        Err(DecodeError::InvalidChar(ch[1]))
    } else {
        let byte: u8 = left.wrapping_shl(4) | right;
        // A wrapping shift takes its amount modulo the width of the type.
        assert(byte == left * 16 + right) by (bit_vector)
            requires
                left < 16,
                right < 16,
                byte == (left << (4u32 % 8u32)) | right,
        ;
        Ok(byte)
    }
}

} // verus!
