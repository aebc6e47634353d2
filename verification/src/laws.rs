//! What holds of the codec as a whole, proved from the model: that decoding
//! undoes encoding, what a short region cuts off, and which character a
//! failure reports.

use crate::model::{
    decode_output, decode_pair, decode_reach, decode_result, decode_target, decoded_len,
    digit_value, encode_output, encode_target, encoded_len, first_invalid, hex_bytes, hex_pair,
    hex_text, high_nibble, is_alphabet, is_first_invalid, is_hex_digit, is_hex_prefix,
    is_hex_text, low_nibble, lower_case, same_up_to_case, upper_case, usable_len,
};
use crate::{DecodeError, CHAR_TABLE_LOWER, CHAR_TABLE_UPPER};
use vstd::prelude::*;

verus! {

/// Both tables of the library are alphabets.
pub proof fn lemma_alphabets()
    ensures
        is_alphabet(CHAR_TABLE_LOWER@),
        is_alphabet(CHAR_TABLE_UPPER@),
{
}

/// The text of `len` bytes has twice as many characters and decodes to `len`
/// bytes again, unless its length is held to the largest `usize`; it is never
/// longer than either.
pub proof fn lemma_required_lengths(len: nat)
    ensures
        2 * len <= usize::MAX ==> encoded_len(len) == 2 * len && decoded_len(encoded_len(len))
            == len,
        encoded_len(len) <= 2 * len,
        encoded_len(len) <= usize::MAX,
{
}

/// A pair of digits decodes to the byte it was made of, whatever the
/// alphabet.
pub proof fn lemma_pair_round_trip(table: Seq<u8>, byte: u8)
    requires
        is_alphabet(table),
    ensures
        is_hex_digit(hex_pair(table, byte)[0]),
        is_hex_digit(hex_pair(table, byte)[1]),
        decode_pair(hex_pair(table, byte)[0], hex_pair(table, byte)[1]) == Ok::<u8, DecodeError>(
            byte,
        ),
{
    assert(digit_value(table[high_nibble(byte)]) == high_nibble(byte));
    assert(digit_value(table[low_nibble(byte)]) == low_nibble(byte));
}

/// The text of bytes is the pairs of the single bytes laid end to end, so
/// taking the bytes one by one gives what encoding them at once gives.
pub proof fn lemma_text_by_pairs(table: Seq<u8>, data: Seq<u8>, i: int)
    requires
        0 <= i < data.len(),
    ensures
        hex_text(table, data).subrange(2 * i, 2 * i + 2) == hex_pair(table, data[i]),
{
}

/// The bytes of a text are what its pairs of digits decode to one by one.
pub proof fn lemma_bytes_by_pairs(text: Seq<u8>, i: int)
    requires
        0 <= i < text.len() / 2,
        is_hex_digit(text[2 * i]),
        is_hex_digit(text[2 * i + 1]),
    ensures
        decode_pair(text[2 * i], text[2 * i + 1]) == Ok::<u8, DecodeError>(hex_bytes(text)[i]),
{
}

/// The text of any bytes holds digits only, and stands for these bytes.
pub proof fn lemma_round_trip(table: Seq<u8>, data: Seq<u8>)
    requires
        is_alphabet(table),
    ensures
        is_hex_text(hex_text(table, data)),
        hex_bytes(hex_text(table, data)) == data,
{
    let text = hex_text(table, data);
    assert forall|i: int| 0 <= i < text.len() implies is_hex_digit(#[trigger] text[i]) by {
        lemma_pair_round_trip(table, data[i / 2]);
    }
    assert forall|i: int| 0 <= i < data.len() implies hex_bytes(text)[i] == data[i] by {
        lemma_pair_round_trip(table, data[i]);
    }
}

/// Where every character within reach is a digit, decoding succeeds with
/// all of the pairs within reach.
pub proof fn lemma_decode_completes(input: Seq<u8>, out: Seq<u8>)
    requires
        is_hex_prefix(input, decode_reach(input.len(), out.len())),
    ensures
        first_invalid(input, decode_reach(input.len(), out.len())) is None,
        decode_result(input, out.len()) == Ok::<usize, DecodeError>(
            decode_target(input.len(), out.len()) as usize,
        ),
        decode_output(input, out) == hex_bytes(input.take(decode_reach(input.len(), out.len())))
            + out.skip(decode_target(input.len(), out.len()) as int),
{
}

/// Decoding reports the first character within reach that is no digit, and
/// has then committed the pairs in front of it.
pub proof fn lemma_decode_stops(input: Seq<u8>, out: Seq<u8>, k: int)
    requires
        is_first_invalid(input, decode_reach(input.len(), out.len()), k),
    ensures
        first_invalid(input, decode_reach(input.len(), out.len())) == Some(k),
        !is_hex_prefix(input, decode_reach(input.len(), out.len())),
        decode_result(input, out.len()) == Err::<usize, DecodeError>(
            DecodeError::InvalidChar(input[k]),
        ),
        decode_output(input, out) == hex_bytes(input.take(2 * (k / 2))) + out.skip(k / 2),
{
    // Of two first offenders the later one would have the earlier one, which
    // is no digit, among the digits in front of it.
    let reach = decode_reach(input.len(), out.len());
    let chosen = choose|j: int| is_first_invalid(input, reach, j);
    assert(is_first_invalid(input, reach, chosen));
    assert(chosen == k);
}

/// Encoding and then decoding through regions that are large enough gives
/// the bytes back: the text is written whole, and decoding it succeeds with
/// every byte in place.
pub proof fn lemma_round_trip_through_regions(
    table: Seq<u8>,
    data: Seq<u8>,
    out: Seq<u8>,
    back: Seq<u8>,
)
    requires
        is_alphabet(table),
        2 * data.len() <= out.len() <= usize::MAX,
        data.len() <= back.len(),
    ensures
        encode_target(data.len(), out.len()) == 2 * data.len(),
        encode_output(table, data, out).take(2 * data.len() as int) == hex_text(table, data),
        decode_result(hex_text(table, data), back.len()) == Ok::<usize, DecodeError>(
            data.len() as usize,
        ),
        decode_output(hex_text(table, data), back) == data + back.skip(data.len() as int),
{
    let text = hex_text(table, data);
    lemma_round_trip(table, data);
    lemma_decode_completes(text, back);
    assert(text.take(2 * data.len() as int) =~= text);
}

/// The tables hold, for the value of a digit, the digit itself in their case.
proof fn lemma_digit_in_tables(c: u8)
    requires
        is_hex_digit(c),
    ensures
        CHAR_TABLE_UPPER@[digit_value(c) as int] == upper_case(c),
        CHAR_TABLE_LOWER@[digit_value(c) as int] == lower_case(c),
{
}

/// Encoding what a text of digits stands for gives the text back in the case
/// of the alphabet: letters turn to upper case with the upper-case alphabet,
/// to lower case with the lower-case one, and nothing else changes.
pub proof fn lemma_reencode_normalizes_case(text: Seq<u8>)
    requires
        is_hex_text(text),
        text.len() % 2 == 0,
    ensures
        hex_text(CHAR_TABLE_UPPER@, hex_bytes(text)) == text.map_values(|c: u8| upper_case(c)),
        hex_text(CHAR_TABLE_LOWER@, hex_bytes(text)) == text.map_values(|c: u8| lower_case(c)),
{
    let upper = hex_text(CHAR_TABLE_UPPER@, hex_bytes(text));
    let lower = hex_text(CHAR_TABLE_LOWER@, hex_bytes(text));
    assert forall|i: int| 0 <= i < text.len() implies upper[i] == upper_case(text[i]) && lower[i]
        == lower_case(text[i]) by {
        lemma_digit_in_tables(text[2 * (i / 2)]);
        lemma_digit_in_tables(text[2 * (i / 2) + 1]);
    }
}

/// A region shorter than the text takes the start of the text, as far as
/// whole pairs fit, and keeps the rest of what it held.
pub proof fn lemma_encode_truncation(table: Seq<u8>, input: Seq<u8>, out: Seq<u8>)
    requires
        out.len() < encoded_len(input.len()),
    ensures
        encode_target(input.len(), out.len()) == usable_len(out.len()),
        encode_output(table, input, out).take(usable_len(out.len()) as int) == hex_text(
            table,
            input,
        ).take(usable_len(out.len()) as int),
        encode_output(table, input, out).skip(usable_len(out.len()) as int) == out.skip(
            usable_len(out.len()) as int,
        ),
{
}

/// A region shorter than the bytes of a text takes the first of these bytes
/// and is then full, where the characters read are digits.
pub proof fn lemma_decode_truncation(input: Seq<u8>, out: Seq<u8>)
    requires
        out.len() < decoded_len(input.len()),
        out.len() <= usize::MAX,
        is_hex_prefix(input, 2 * out.len() as int),
    ensures
        decode_result(input, out.len()) == Ok::<usize, DecodeError>(out.len() as usize),
        decode_output(input, out) == hex_bytes(input).take(out.len() as int),
{
    lemma_decode_completes(input, out);
}

/// Decoding looks at the characters within reach only: two inputs that agree
/// on the characters in front of the end of the region decode alike, whatever
/// follows in either.
pub proof fn lemma_decode_reads_reach_only(a: Seq<u8>, b: Seq<u8>, out: Seq<u8>)
    requires
        out.len() <= decoded_len(a.len()),
        out.len() <= decoded_len(b.len()),
        a.take(2 * out.len() as int) == b.take(2 * out.len() as int),
    ensures
        decode_result(a, out.len()) == decode_result(b, out.len()),
        decode_output(a, out) == decode_output(b, out),
{
    let reach = 2 * out.len() as int;
    assert forall|i: int| 0 <= i < reach implies a[i] == b[i] by {
        assert(a.take(reach)[i] == b.take(reach)[i]);
    }
    assert forall|k: int| is_first_invalid(a, reach, k) <==> is_first_invalid(b, reach, k) by {}
    if let Some(k) = first_invalid(a, reach) {
        lemma_decode_stops(a, out, k);
        lemma_decode_stops(b, out, k);
    }
}

/// A text with one character that is no digit, at a position within reach,
/// fails with that very character, wherever in the text the position lies.
pub proof fn lemma_single_invalid_char(input: Seq<u8>, out: Seq<u8>, k: int)
    requires
        0 <= k < decode_reach(input.len(), out.len()),
        !is_hex_digit(input[k]),
        forall|j: int| 0 <= j < input.len() && j != k ==> is_hex_digit(#[trigger] input[j]),
    ensures
        decode_result(input, out.len()) == Err::<usize, DecodeError>(
            DecodeError::InvalidChar(input[k]),
        ),
{
    lemma_decode_stops(input, out, k);
}

/// Two characters that differ in case only are digits together, with one
/// value, and are the same character where they are no digits.
proof fn lemma_case_of_digit(x: u8, y: u8)
    requires
        upper_case(x) == upper_case(y),
    ensures
        is_hex_digit(x) <==> is_hex_digit(y),
        digit_value(x) == digit_value(y),
        !is_hex_digit(x) ==> x == y,
{
}

/// Letter case makes no difference to decoding: two texts that differ in the
/// case of their letters only give the same result and the same output.
pub proof fn lemma_case_insensitive(a: Seq<u8>, b: Seq<u8>, out: Seq<u8>)
    requires
        same_up_to_case(a, b),
    ensures
        is_hex_text(a) <==> is_hex_text(b),
        hex_bytes(a) == hex_bytes(b),
        decode_result(a, out.len()) == decode_result(b, out.len()),
        decode_output(a, out) == decode_output(b, out),
{
    assert forall|i: int|
        #![trigger a[i]]
        #![trigger b[i]]
        0 <= i < a.len() implies (is_hex_digit(a[i]) <==> is_hex_digit(b[i])) && digit_value(a[i])
            == digit_value(b[i]) && (!is_hex_digit(a[i]) ==> a[i] == b[i]) by {
        lemma_case_of_digit(a[i], b[i]);
    }
    let reach = decode_reach(a.len(), out.len());
    assert forall|k: int| is_first_invalid(a, reach, k) <==> is_first_invalid(b, reach, k) by {}
    if let Some(k) = first_invalid(a, reach) {
        lemma_decode_stops(a, out, k);
        lemma_decode_stops(b, out, k);
    }
}

} // verus!
