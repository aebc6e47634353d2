//! Encoding and decoding onto the end of a vector, which grows by what the
//! call needs.

use crate::arch;
use crate::model::{decode_result, decoded_len, hex_bytes, hex_text, is_hex_prefix};
use crate::{
    required_decode_len, required_encode_len, CharTable, DecodeError, CHAR_TABLE_LOWER,
    CHAR_TABLE_UPPER,
};
use vstd::prelude::*;

verus! {

/// Appends the text of `input` in the alphabet `table` to `out`.
fn hex_to_vec(table: CharTable, input: &[u8], out: &mut Vec<u8>) -> (written: usize)
    requires
        old(out)@.len() + 2 * input@.len() <= usize::MAX,
    ensures
        written == 2 * input@.len(),
        final(out)@ == old(out)@ + hex_text(table@, input@),
{
    let required_len: usize = required_encode_len(input.len());
    let len: usize = out.len();
    out.reserve(required_len);
    out.resize(len + required_len, 0);

    let (_, region) = out.as_mut_slice().split_at_mut(len);
    arch::hex(table, input, region)
}

/// Appends the upper-case hexadecimal text of `input` to `out` and returns
/// the number of characters appended.
#[inline(always)]
pub fn hex_upper_to_vec(input: &[u8], out: &mut Vec<u8>) -> (written: usize)
    requires
        old(out)@.len() + 2 * input@.len() <= usize::MAX,
    ensures
        written == 2 * input@.len(),
        final(out)@ == old(out)@ + hex_text(CHAR_TABLE_UPPER@, input@),
{
    hex_to_vec(CHAR_TABLE_UPPER, input, out)
}

/// Appends the lower-case hexadecimal text of `input` to `out` and returns
/// the number of characters appended.
#[inline(always)]
pub fn hex_lower_to_vec(input: &[u8], out: &mut Vec<u8>) -> (written: usize)
    requires
        old(out)@.len() + 2 * input@.len() <= usize::MAX,
    ensures
        written == 2 * input@.len(),
        final(out)@ == old(out)@ + hex_text(CHAR_TABLE_LOWER@, input@),
{
    hex_to_vec(CHAR_TABLE_LOWER, input, out)
}

/// Appends the bytes that the hexadecimal text `input` stands for to `out`
/// and returns their number, or the first character that is no hexadecimal
/// digit.
///
/// All pairs of `input` are decoded. On failure `out` holds what it held
/// before the call; only its capacity may have grown.
#[inline(always)]
pub fn unhex_to_vec(input: &[u8], out: &mut Vec<u8>) -> (res: Result<usize, DecodeError>)
    requires
        old(out)@.len() + input@.len() / 2 <= usize::MAX,
    ensures
        res == decode_result(input@, decoded_len(input@.len())),
        res is Ok <==> is_hex_prefix(input@, 2 * decoded_len(input@.len()) as int),
        final(out)@ == match res {
            Ok(_) => old(out)@ + hex_bytes(input@),
            Err(_) => old(out)@,
        },
{
    let required_len: usize = required_decode_len(input.len());
    let len: usize = out.len();
    out.reserve(required_len);
    out.resize(len + required_len, 0);

    let (_, region) = out.as_mut_slice().split_at_mut(len);
    match arch::unhex(input, region) {
        Ok(written) => Ok(written),
        Err(error) => {
            out.truncate(len);
            Err(error)
        },
    }
}

} // verus!
