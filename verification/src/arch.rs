//! The engine: whole buffers at a time, eight pairs to a round where the
//! buffers allow it and pair by pair behind that.
//!
//! Both directions write into a region that the caller owns, in order from
//! its start, and leave what lies behind the last byte written as it was.

use crate::const_fn::unhex_pair;
use crate::laws::{lemma_decode_completes, lemma_decode_stops};
use crate::model::{
    decode_output, decode_reach, decode_result, decode_target, encode_output, encode_target,
    hex_bytes, hex_text, is_first_invalid, is_hex_digit, is_hex_prefix,
};
use crate::{required_decode_len, required_encode_len, CharTable, DecodeError};
use vstd::prelude::*;

verus! {

/// The number of characters of text that one round of the unrolled loops
/// covers.
const CHUNK_LEN: usize = 16;

/// The number of bytes that one round of the unrolled loops covers.
const OUTPUT_CHUNK: usize = CHUNK_LEN / 2;

/// Whether `now` is the region `orig` with the first `written` characters of
/// the text of `input` written over its start.
spec fn encoded_upto(
    table: Seq<u8>,
    input: Seq<u8>,
    orig: Seq<u8>,
    now: Seq<u8>,
    written: int,
) -> bool {
    &&& now.len() == orig.len()
    &&& now == hex_text(table, input).take(written) + orig.skip(written)
}

/// Writes the two digits of the byte that the characters at `written` and
/// `written + 1` stand for.
#[inline(always)]
fn process_byte(
    table: CharTable,
    input: &[u8],
    output: &mut [u8],
    written: usize,
    Ghost(orig): Ghost<Seq<u8>>,
)
    requires
        written % 2 == 0,
        written / 2 < input.len(),
        written + 2 <= old(output).len(),
        encoded_upto(table@, input@, orig, old(output)@, written as int),
    ensures
        encoded_upto(table@, input@, orig, final(output)@, written + 2),
{
    let byt: u8 = input[written / 2];
    let hi: u8 = byt.wrapping_shr(4) & 0xf;
    let lo: u8 = byt & 0xf;
    // A wrapping shift takes its amount modulo the width of the type.
    assert(hi == byt / 16 && lo == byt % 16) by (bit_vector)
        requires
            hi == (byt >> (4u32 % 8u32)) & 0xf,
            lo == byt & 0xf,
    ;
    output[written] = table[hi as usize];
    output[written + 1] = table[lo as usize];
    assert(output@ =~= hex_text(table@, input@).take(written + 2) + orig.skip(written + 2));
}

/// Encodes `input` into `output` with the alphabet `table` and returns the
/// number of characters written.
///
/// As many whole pairs are written as both the input and the region allow:
/// a region that is too short cuts the text off, and a region of odd length
/// keeps its last byte.
pub fn hex(table: CharTable, input: &[u8], output: &mut [u8]) -> (written: usize)
    ensures
        written == encode_target(input@.len(), old(output)@.len()),
        final(output)@ == encode_output(table@, input@, old(output)@),
{
    let ghost orig = output@;
    let usable: usize = if output.len() % 2 != 0 {
        output.len() - 1
    } else {
        output.len()
    };
    let required: usize = required_encode_len(input.len());
    let len: usize = if required < usable {
        required
    } else {
        usable
    };

    let mut written: usize = 0;
    assert(output@ =~= hex_text(table@, input@).take(0) + orig.skip(0));

    // One round writes `CHUNK_LEN` characters for `CHUNK_LEN / 2` bytes.
    while len - written >= CHUNK_LEN
        invariant
            written % 2 == 0,
            written <= len,
            len % 2 == 0,
            len <= 2 * input@.len(),
            len <= orig.len(),
            encoded_upto(table@, input@, orig, output@, written as int),
        decreases len - written,
    {
        process_byte(table, input, output, written, Ghost(orig));
        process_byte(table, input, output, written + 2, Ghost(orig));
        process_byte(table, input, output, written + 4, Ghost(orig));
        process_byte(table, input, output, written + 6, Ghost(orig));
        process_byte(table, input, output, written + 8, Ghost(orig));
        process_byte(table, input, output, written + 10, Ghost(orig));
        process_byte(table, input, output, written + 12, Ghost(orig));
        process_byte(table, input, output, written + 14, Ghost(orig));

        written = written + CHUNK_LEN;
    }

    while written < len
        invariant
            written % 2 == 0,
            written <= len,
            len % 2 == 0,
            len <= 2 * input@.len(),
            len <= orig.len(),
            encoded_upto(table@, input@, orig, output@, written as int),
        decreases len - written,
    {
        process_byte(table, input, output, written, Ghost(orig));

        written = written + 2;
    }

    written
}

/// Whether `now` is the region `orig` with the bytes of the first `written`
/// pairs of `input` written over its start, all of them pairs of digits.
spec fn decoded_upto(input: Seq<u8>, orig: Seq<u8>, now: Seq<u8>, written: int) -> bool {
    &&& now.len() == orig.len()
    &&& is_hex_prefix(input, 2 * written)
    &&& now == hex_bytes(input.take(2 * written)) + orig.skip(written)
}

/// Decodes the pair of characters for the byte at `at` and commits the byte,
/// or fails on the first of the two characters that is no digit.
#[inline(always)]
fn process_pair(input: &[u8], output: &mut [u8], at: usize, Ghost(orig): Ghost<Seq<u8>>) -> (res:
    Result<(), DecodeError>)
    requires
        at < decode_target(input.len() as nat, old(output).len() as nat),
        decoded_upto(input@, orig, old(output)@, at as int),
    ensures
        match res {
            Ok(()) => decoded_upto(input@, orig, final(output)@, at + 1),
            Err(e) => {
                &&& decode_result(input@, orig.len()) == Err::<usize, DecodeError>(e)
                &&& !is_hex_prefix(input@, decode_reach(input@.len(), orig.len()))
                &&& final(output)@ == decode_output(input@, orig)
            },
        },
{
    let chunk: [u8; 2] = [input[2 * at], input[2 * at + 1]];
    match unhex_pair(chunk) {
        Ok(byte) => {
            output[at] = byte;
            assert(output@ =~= hex_bytes(input@.take(2 * (at + 1))) + orig.skip(at + 1));
            Ok(())
        },
        Err(e) => {
            proof {
                let k: int = if is_hex_digit(input@[2 * at]) {
                    2 * at + 1
                } else {
                    2 * at
                };
                lemma_decode_stops(input@, orig, k);
            }
            Err(e)
        },
    }
}

/// Decodes the hexadecimal text `input` into `output` and returns the number
/// of bytes written, or the first character that is no hexadecimal digit.
///
/// As many pairs are read as the region has room for; a last unpaired
/// character and everything behind the pairs read is never looked at. Bytes
/// are committed pair by pair, so on failure the bytes of the pairs in front
/// of the offending one are in place.
pub fn unhex(input: &[u8], output: &mut [u8]) -> (res: Result<usize, DecodeError>)
    ensures
        res == decode_result(input@, old(output)@.len()),
        res is Ok <==> is_hex_prefix(input@, decode_reach(input@.len(), old(output)@.len())),
        final(output)@ == decode_output(input@, old(output)@),
{
    let ghost orig = output@;
    let required: usize = required_decode_len(input.len());
    let len: usize = if required < output.len() {
        required
    } else {
        output.len()
    };

    let mut written: usize = 0;
    assert(output@ =~= hex_bytes(input@.take(0)) + orig.skip(0));

    // One round reads `CHUNK_LEN` characters for `OUTPUT_CHUNK` bytes.
    while len - written >= OUTPUT_CHUNK
        invariant
            written <= len,
            len == decode_target(input@.len(), orig.len()),
            orig == old(output)@,
            decoded_upto(input@, orig, output@, written as int),
        decreases len - written,
    {
        process_pair(input, output, written, Ghost(orig))?;
        process_pair(input, output, written + 1, Ghost(orig))?;
        process_pair(input, output, written + 2, Ghost(orig))?;
        process_pair(input, output, written + 3, Ghost(orig))?;
        process_pair(input, output, written + 4, Ghost(orig))?;
        process_pair(input, output, written + 5, Ghost(orig))?;
        process_pair(input, output, written + 6, Ghost(orig))?;
        process_pair(input, output, written + 7, Ghost(orig))?;

        written = written + OUTPUT_CHUNK;
    }

    while written < len
        invariant
            written <= len,
            len == decode_target(input@.len(), orig.len()),
            orig == old(output)@,
            decoded_upto(input@, orig, output@, written as int),
        decreases len - written,
    {
        process_pair(input, output, written, Ghost(orig))?;

        written = written + 1;
    }

    proof {
        lemma_decode_completes(input@, orig);
    }
    Ok(written)
}

} // verus!
