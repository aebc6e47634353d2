//! The mathematical model of the codec: what hexadecimal text is, which bytes
//! it stands for, and how much of a buffer one call fills.
//!
//! Everything here is specification. Text and data are sequences of bytes, an
//! alphabet is a sequence of sixteen digits indexed by nibble, and a region is
//! the sequence of bytes that a caller's buffer holds.

use crate::DecodeError;
use vstd::prelude::*;

verus! {

/// The ASCII character `0`.
pub const DIGIT_0: u8 = 0x30;

/// The ASCII character `9`.
pub const DIGIT_9: u8 = 0x39;

/// The ASCII character `A`.
pub const UPPER_A: u8 = 0x41;

/// The ASCII character `F`.
pub const UPPER_F: u8 = 0x46;

/// The ASCII character `a`.
pub const LOWER_A: u8 = 0x61;

/// The ASCII character `f`.
pub const LOWER_F: u8 = 0x66;

/// Whether `c` is one of the ASCII characters `0-9`, `A-F` or `a-f`.
pub open spec fn is_hex_digit(c: u8) -> bool {
    ||| DIGIT_0 <= c <= DIGIT_9
    ||| UPPER_A <= c <= UPPER_F
    ||| LOWER_A <= c <= LOWER_F
}

/// The nibble (0 to 15) that the hexadecimal digit `c` stands for.
pub open spec fn digit_value(c: u8) -> u8
    recommends
        is_hex_digit(c),
{
    if DIGIT_0 <= c <= DIGIT_9 {
        (c - DIGIT_0) as u8
    } else if UPPER_A <= c <= UPPER_F {
        (c - UPPER_A + 10) as u8
    } else {
        (c - LOWER_A + 10) as u8
    }
}

/// The four most significant bits of `byte`, as a number from 0 to 15.
pub open spec fn high_nibble(byte: u8) -> int {
    byte as int / 16
}

/// The four least significant bits of `byte`, as a number from 0 to 15.
pub open spec fn low_nibble(byte: u8) -> int {
    byte as int % 16
}

/// An alphabet gives each nibble a hexadecimal digit that stands for it.
/// Letter case is free, digit by digit.
pub open spec fn is_alphabet(table: Seq<u8>) -> bool {
    &&& table.len() == 16
    &&& forall|n: int|
        0 <= n < 16 ==> is_hex_digit(#[trigger] table[n]) && digit_value(table[n]) == n
}

/// The two digits of `byte` in the alphabet `table`, the high nibble first.
pub open spec fn hex_pair(table: Seq<u8>, byte: u8) -> Seq<u8> {
    seq![table[high_nibble(byte)], table[low_nibble(byte)]]
}

/// The hexadecimal text of `data` in the alphabet `table`: two characters per
/// byte, the high nibble first.
pub open spec fn hex_text(table: Seq<u8>, data: Seq<u8>) -> Seq<u8> {
    Seq::new(
        2 * data.len(),
        |i: int|
            if i % 2 == 0 {
                table[high_nibble(data[i / 2])]
            } else {
                table[low_nibble(data[i / 2])]
            },
    )
}

/// Whether the first `n` characters of `text` are hexadecimal digits.
pub open spec fn is_hex_prefix(text: Seq<u8>, n: int) -> bool {
    forall|i: int| 0 <= i < n ==> is_hex_digit(#[trigger] text[i])
}

/// Whether every character of `text` is a hexadecimal digit.
pub open spec fn is_hex_text(text: Seq<u8>) -> bool {
    is_hex_prefix(text, text.len() as int)
}

/// The byte that the two digits `hi` and `lo` stand for.
pub open spec fn pair_value(hi: u8, lo: u8) -> u8
    recommends
        is_hex_digit(hi),
        is_hex_digit(lo),
{
    (digit_value(hi) * 16 + digit_value(lo)) as u8
}

/// What decoding one pair of characters gives: the byte, or the first of the
/// two characters that is no hexadecimal digit.
pub open spec fn decode_pair(hi: u8, lo: u8) -> Result<u8, DecodeError> {
    if !is_hex_digit(hi) {
        Err(DecodeError::InvalidChar(hi))
    } else if !is_hex_digit(lo) {
        Err(DecodeError::InvalidChar(lo))
    } else {
        Ok(pair_value(hi, lo))
    }
}

/// The bytes that `text` stands for, one per complete pair of characters. A
/// last unpaired character is ignored.
pub open spec fn hex_bytes(text: Seq<u8>) -> Seq<u8>
    recommends
        is_hex_text(text),
{
    Seq::new(text.len() / 2, |i: int| pair_value(text[2 * i], text[2 * i + 1]))
}

/// Whether `k` is the position of the first character among the first `n` of
/// `text` that is no hexadecimal digit.
pub open spec fn is_first_invalid(text: Seq<u8>, n: int, k: int) -> bool {
    &&& 0 <= k < n
    &&& !is_hex_digit(text[k])
    &&& forall|j: int| 0 <= j < k ==> is_hex_digit(#[trigger] text[j])
}

/// The position of the first character among the first `n` of `text` that is
/// no hexadecimal digit, if there is one.
pub open spec fn first_invalid(text: Seq<u8>, n: int) -> Option<int> {
    if exists|k: int| is_first_invalid(text, n, k) {
        Some(choose|k: int| is_first_invalid(text, n, k))
    } else {
        None
    }
}

/// The length of the text that encodes `len` bytes: twice `len`, held to the
/// largest `usize`.
pub open spec fn encoded_len(len: nat) -> nat {
    if 2 * len <= usize::MAX {
        2 * len
    } else {
        usize::MAX as nat
    }
}

/// The number of bytes that a text of `len` characters decodes to.
pub open spec fn decoded_len(len: nat) -> nat {
    len / 2
}

/// The part of an output region of `len` bytes that encoding can use: a pair
/// of characters is never split, so an odd last byte stays out.
pub open spec fn usable_len(len: nat) -> nat {
    (len - len % 2) as nat
}

/// The number of characters that encoding `input_len` bytes writes into a
/// region of `out_len` bytes.
pub open spec fn encode_target(input_len: nat, out_len: nat) -> nat {
    if encoded_len(input_len) <= usable_len(out_len) {
        encoded_len(input_len)
    } else {
        usable_len(out_len)
    }
}

/// The region `out` after encoding `input` into it: the text in front, the
/// rest as it was.
pub open spec fn encode_output(table: Seq<u8>, input: Seq<u8>, out: Seq<u8>) -> Seq<u8> {
    let target = encode_target(input.len(), out.len());
    hex_text(table, input).take(target as int) + out.skip(target as int)
}

/// The number of bytes that decoding `input_len` characters writes into a
/// region of `out_len` bytes, where every character read is a digit.
pub open spec fn decode_target(input_len: nat, out_len: nat) -> nat {
    if decoded_len(input_len) <= out_len {
        decoded_len(input_len)
    } else {
        out_len
    }
}

/// The number of characters that decoding reads at most: the pairs that fit
/// the region, and nothing behind them.
pub open spec fn decode_reach(input_len: nat, out_len: nat) -> int {
    2 * decode_target(input_len, out_len) as int
}

/// What decoding `input` into a region of `out_len` bytes returns: the number
/// of bytes written, or the first character within reach that is no digit.
pub open spec fn decode_result(input: Seq<u8>, out_len: nat) -> Result<usize, DecodeError> {
    match first_invalid(input, decode_reach(input.len(), out_len)) {
        None => Ok(decode_target(input.len(), out_len) as usize),
        Some(k) => Err(DecodeError::InvalidChar(input[k])),
    }
}

/// The number of bytes that decoding `input` into a region of `out_len` bytes
/// has committed when it returns: all of the target on success, the pairs in
/// front of the offending one on failure.
pub open spec fn decode_progress(input: Seq<u8>, out_len: nat) -> int {
    match first_invalid(input, decode_reach(input.len(), out_len)) {
        None => decode_target(input.len(), out_len) as int,
        Some(k) => k / 2,
    }
}

/// The region `out` after decoding `input` into it: the committed bytes in
/// front, the rest as it was.
pub open spec fn decode_output(input: Seq<u8>, out: Seq<u8>) -> Seq<u8> {
    let done = decode_progress(input, out.len());
    hex_bytes(input.take(2 * done)) + out.skip(done)
}

/// The character `c` with a letter among `a-f` turned to upper case.
pub open spec fn upper_case(c: u8) -> u8 {
    if LOWER_A <= c <= LOWER_F {
        (c - LOWER_A + UPPER_A) as u8
    } else {
        c
    }
}

/// The character `c` with a letter among `A-F` turned to lower case.
pub open spec fn lower_case(c: u8) -> u8 {
    if UPPER_A <= c <= UPPER_F {
        (c - UPPER_A + LOWER_A) as u8
    } else {
        c
    }
}

/// Whether the texts `a` and `b` differ in the case of the letters `a-f`
/// and `A-F` only.
pub open spec fn same_up_to_case(a: Seq<u8>, b: Seq<u8>) -> bool {
    &&& a.len() == b.len()
    &&& forall|i: int| 0 <= i < a.len() ==> upper_case(#[trigger] a[i]) == upper_case(b[i])
}

/// The bytes of the ASCII characters `chars`.
pub open spec fn ascii_bytes(chars: Seq<char>) -> Seq<u8> {
    Seq::new(chars.len(), |i: int| chars[i] as u8)
}

/// The characters that the ASCII bytes `bytes` spell.
pub open spec fn ascii_text(bytes: Seq<u8>) -> Seq<char> {
    Seq::new(bytes.len(), |i: int| bytes[i] as char)
}

} // verus!
