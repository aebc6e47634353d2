//! Base-16 (hexadecimal) encoding and decoding over caller-owned buffers.
//!
//! Every function states what it writes and returns in terms of the model in
//! [`model`], and Verus proves that it does so.

use vstd::prelude::*;
use vstd::string::{StringExecFns, StringSliceAdditionalSpecFns};
use vstd::utf8::is_ascii_chars_encode_utf8;

mod arch;
mod const_fn;
mod growable;
pub mod laws;
pub mod model;
mod pair;

pub use const_fn::{
    const_hex_lower, const_hex_upper, hex2dec, lemma_unhex_table, nibble_entry, unhex_pair,
    UNHEX_INVALID_CHAR, UNHEX_TABLE,
};
pub use growable::{hex_lower_to_vec, hex_upper_to_vec, unhex_to_vec};
pub use pair::{pairs_text, CharPair};

use const_fn::dec2hex;
use model::{
    ascii_bytes, ascii_text, decode_output, decode_pair, decode_reach, decode_result, encode_output,
    encode_target, hex_pair, hex_text, is_alphabet, is_hex_prefix,
};

verus! {

/// An alphabet: the digit for each nibble, 0 to 15.
pub type CharTable = &'static [u8; 16];

/// The lower-case alphabet, `0123456789abcdef`.
pub const CHAR_TABLE_LOWER: CharTable = &[
    0x30, 0x31, 0x32, 0x33, 0x34, 0x35, 0x36, 0x37, 0x38, 0x39, 0x61, 0x62, 0x63, 0x64, 0x65, 0x66,
];

/// The upper-case alphabet, `0123456789ABCDEF`.
pub const CHAR_TABLE_UPPER: CharTable = &[
    0x30, 0x31, 0x32, 0x33, 0x34, 0x35, 0x36, 0x37, 0x38, 0x39, 0x41, 0x42, 0x43, 0x44, 0x45, 0x46,
];

/// The error of decoding.
#[derive(Debug, Copy, Clone, PartialEq, Eq, Structural)]
pub enum DecodeError {
    /// A character that is no hexadecimal digit, with the byte that was found.
    InvalidChar(u8),
}

impl DecodeError {
    /// The error for the character `ch`, which is no hexadecimal digit.
    pub fn unexpected_char(ch: u8) -> (error: Self)
        ensures
            error == DecodeError::InvalidChar(ch),
    {
        Self::InvalidChar(ch)
    }
}

/// The length of the hexadecimal text of `len` bytes.
pub fn required_encode_len(len: usize) -> (out: usize)
    ensures
        out == model::encoded_len(len as nat),
{
    len.saturating_add(len)
}

/// The number of bytes that a hexadecimal text of `len` characters holds.
pub fn required_decode_len(len: usize) -> (out: usize)
    ensures
        out == model::decoded_len(len as nat),
{
    len / 2
}

/// Writes the upper-case hexadecimal text of `input` into `out` and returns
/// the number of characters written.
///
/// A region shorter than the text takes as many whole pairs as fit; what lies
/// behind the last character written stays as it was.
#[inline(always)]
pub fn hex_upper(input: &[u8], out: &mut [u8]) -> (written: usize)
    ensures
        written == encode_target(input@.len(), old(out)@.len()),
        final(out)@ == encode_output(CHAR_TABLE_UPPER@, input@, old(out)@),
{
    arch::hex(CHAR_TABLE_UPPER, input, out)
}

/// Writes the lower-case hexadecimal text of `input` into `out` and returns
/// the number of characters written.
///
/// A region shorter than the text takes as many whole pairs as fit; what lies
/// behind the last character written stays as it was.
#[inline(always)]
pub fn hex_lower(input: &[u8], out: &mut [u8]) -> (written: usize)
    ensures
        written == encode_target(input@.len(), old(out)@.len()),
        final(out)@ == encode_output(CHAR_TABLE_LOWER@, input@, old(out)@),
{
    arch::hex(CHAR_TABLE_LOWER, input, out)
}

/// Decodes the hexadecimal text `input` into `out` and returns the number of
/// bytes written, or the first character that is no hexadecimal digit.
///
/// A region shorter than the decoded bytes takes as many as fit, and the
/// characters behind them are not looked at; neither is a last unpaired
/// character. On failure the bytes of the pairs in front of the offending one
/// are in place, and the rest of the region is as it was.
#[inline(always)]
pub fn unhex(input: &[u8], out: &mut [u8]) -> (res: Result<usize, DecodeError>)
    ensures
        res == decode_result(input@, old(out)@.len()),
        res is Ok <==> is_hex_prefix(input@, decode_reach(input@.len(), old(out)@.len())),
        final(out)@ == decode_output(input@, old(out)@),
{
    arch::unhex(input, out)
}

/// An encoder that hands out the bytes of a slice one by one, each as its
/// pair of digits.
///
/// Rendering the encoder as text shows what is left of the data and takes
/// nothing from it.
pub struct Encoder<'a> {
    table: CharTable,
    data: &'a [u8],
}

impl<'a> Encoder<'a> {
    #[verifier::type_invariant]
    spec fn has_alphabet(self) -> bool {
        is_alphabet(self.table@)
    }

    /// The alphabet that the encoder writes in.
    pub closed spec fn alphabet(&self) -> Seq<u8> {
        self.table@
    }

    /// The bytes that the encoder has not handed out yet.
    pub closed spec fn remaining(&self) -> Seq<u8> {
        self.data@
    }

    /// Creates an encoder of `data` with the upper-case alphabet.
    #[inline(always)]
    pub fn upper(data: &'a [u8]) -> (encoder: Self)
        ensures
            encoder.alphabet() == CHAR_TABLE_UPPER@,
            encoder.remaining() == data@,
    {
        Self { table: CHAR_TABLE_UPPER, data }
    }

    /// Creates an encoder of `data` with the lower-case alphabet.
    #[inline(always)]
    pub fn lower(data: &'a [u8]) -> (encoder: Self)
        ensures
            encoder.alphabet() == CHAR_TABLE_LOWER@,
            encoder.remaining() == data@,
    {
        Self { table: CHAR_TABLE_LOWER, data }
    }

    /// Takes the next byte and returns its pair of digits, or `None` when no
    /// byte is left.
    #[inline(always)]
    pub fn next_byte(&mut self) -> (pair: Option<CharPair>)
        ensures
            final(self).alphabet() == old(self).alphabet(),
            match pair {
                Some(pair) => {
                    &&& old(self).remaining().len() > 0
                    &&& pair@ == hex_pair(old(self).alphabet(), old(self).remaining()[0])
                    &&& final(self).remaining() == old(self).remaining().drop_first()
                },
                None => {
                    &&& old(self).remaining().len() == 0
                    &&& final(self).remaining() == old(self).remaining()
                },
            },
    {
        proof {
            use_type_invariant(&*self);
        }
        if self.data.is_empty() {
            None
        } else {
            let (first, rest) = self.data.split_at(1);
            self.data = rest;
            Some(dec2hex(self.table, first[0]))
        }
    }

    /// Renders what is left of the data as hexadecimal text, and takes
    /// nothing from it.
    pub fn to_string(&self) -> (text: String)
        ensures
            text@ == ascii_text(hex_text(self.alphabet(), self.remaining())),
    {
        proof {
            use_type_invariant(self);
        }
        let mut text = String::new();
        let mut idx: usize = 0;
        while idx < self.data.len()
            invariant
                idx <= self.data.len(),
                is_alphabet(self.table@),
                text@ == ascii_text(hex_text(self.table@, self.data@.take(idx as int))),
            decreases self.data.len() - idx,
        {
            text.append(dec2hex(self.table, self.data[idx]).as_str());
            idx += 1;
        }
        text
    }

    /// Renders what is left of the data as hexadecimal text between double
    /// quotes, and takes nothing from it.
    pub fn to_debug_string(&self) -> (text: String)
        ensures
            text@ == seq!['"'] + ascii_text(hex_text(self.alphabet(), self.remaining())) + seq!['"'],
    {
        proof {
            reveal_strlit("\"");
        }
        let mut text = String::from_str("\"");
        text.append(self.to_string().as_str());
        text.append("\"");
        text
    }

    /// The number of pairs that the encoder has left to hand out.
    pub fn len(&self) -> (len: usize)
        ensures
            len == self.remaining().len(),
    {
        self.data.len()
    }
}

/// A decoder that hands out the pairs of a hexadecimal text one by one, each
/// as the byte it stands for or as the character that spoils it.
///
/// A pair that fails does not end the sequence: the next call goes on with
/// the next pair.
pub struct Decoder<'a>(&'a [u8]);

impl<'a> Decoder<'a> {
    #[verifier::type_invariant]
    spec fn holds_pairs(self) -> bool {
        self.0@.len() % 2 == 0
    }

    /// The characters that the decoder has not read yet.
    pub closed spec fn remaining(&self) -> Seq<u8> {
        self.0@
    }

    /// Creates a decoder of `data`, or `None` where its length in bytes is
    /// odd.
    ///
    /// The decoder reads the bytes of the UTF-8 encoding of `data`, which for
    /// ASCII text are its characters.
    #[inline(always)]
    pub fn new(data: &'a str) -> (decoder: Option<Self>)
        ensures
            decoder is Some <==> data.spec_bytes().len() % 2 == 0,
            decoder matches Some(d) ==> d.remaining() == data.spec_bytes(),
            data.is_ascii() ==> (decoder is Some <==> data@.len() % 2 == 0),
            decoder matches Some(d) ==> data.is_ascii() ==> d.remaining() == ascii_bytes(data@),
    {
        proof {
            if data.is_ascii() {
                is_ascii_chars_encode_utf8(data@);
                assert(data.spec_bytes() =~= ascii_bytes(data@));
            }
        }
        let text = data.as_bytes();
        if text.len() % 2 != 0 {
            None
        } else {
            Some(Self(text))
        }
    }

    /// Reads the next pair of characters.
    #[inline]
    fn inner_next_byte(&mut self) -> (byte: Result<u8, DecodeError>)
        requires
            old(self).remaining().len() >= 2,
        ensures
            byte == decode_pair(old(self).remaining()[0], old(self).remaining()[1]),
            final(self).remaining() == old(self).remaining().skip(2),
    {
        proof {
            use_type_invariant(&*self);
        }
        let (chunk, rest) = self.0.split_at(2);
        self.0 = rest;
        unhex_pair([chunk[0], chunk[1]])
    }

    /// Reads the next pair of characters and returns the byte it stands for,
    /// or the first of the two characters that is no hexadecimal digit;
    /// `None` when no pair is left.
    #[inline]
    pub fn next_byte(&mut self) -> (byte: Option<Result<u8, DecodeError>>)
        ensures
            match byte {
                Some(byte) => {
                    &&& old(self).remaining().len() >= 2
                    &&& byte == decode_pair(old(self).remaining()[0], old(self).remaining()[1])
                    &&& final(self).remaining() == old(self).remaining().skip(2)
                },
                None => {
                    &&& old(self).remaining().len() == 0
                    &&& final(self).remaining() == old(self).remaining()
                },
            },
    {
        proof {
            use_type_invariant(&*self);
        }
        if self.0.is_empty() {
            return None;
        }
        Some(self.inner_next_byte())
    }

    /// The number of characters that the decoder has left to read, which is
    /// twice the number of pairs.
    pub fn len(&self) -> (len: usize)
        ensures
            len == self.remaining().len(),
            len % 2 == 0,
    {
        proof {
            use_type_invariant(self);
        }
        self.0.len()
    }
}

} // verus!
