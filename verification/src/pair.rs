//! The pair of characters that stands for one byte.

use crate::model::{ascii_text, is_hex_digit};
use core::cmp::Ordering;
use vstd::prelude::*;
use vstd::std_specs::cmp::{PartialEqSpecImpl, PartialOrdSpecImpl};
use vstd::string::{StringExecFns, StringSliceAdditionalSpecFns};
use vstd::utf8::{
    encode_utf8, encode_utf8_decode_utf8, encode_utf8_valid_utf8, is_ascii_chars,
    is_ascii_chars_encode_utf8, valid_utf8,
};

verus! {

/// `core::str::Utf8Error`, the error of `core::str::from_utf8`. Nothing is
/// known of what it holds.
#[verifier::external_type_specification]
#[verifier::external_body]
pub struct ExUtf8Error(core::str::Utf8Error);

/// `core::str::from_utf8` accepts exactly the byte sequences that are valid
/// UTF-8, and the string slice it returns then has these bytes. Taken from the
/// function's documentation; not proved.
pub assume_specification[ core::str::from_utf8 ](v: &[u8]) -> (res: Result<
    &str,
    core::str::Utf8Error,
>)
    ensures
        res is Ok <==> valid_utf8(v@),
        res matches Ok(s) ==> s.spec_bytes() == v@,
;

/// The two hexadecimal digits that stand for one byte, the high nibble first.
///
/// Pairs compare as their two characters do, the first character first.
#[derive(Debug, Copy, Clone, Eq, Ord)]
pub struct CharPair(pub(crate) [u8; 2]);

impl PartialEq for CharPair {
    fn eq(&self, other: &Self) -> (equal: bool) {
        self.0[0] == other.0[0] && self.0[1] == other.0[1]
    }
}

impl PartialEqSpecImpl for CharPair {
    open spec fn obeys_eq_spec() -> bool {
        true
    }

    /// Two pairs are equal where their characters are.
    open spec fn eq_spec(&self, other: &Self) -> bool {
        self@[0] == other@[0] && self@[1] == other@[1]
    }
}

impl PartialOrd for CharPair {
    fn partial_cmp(&self, other: &Self) -> (order: Option<Ordering>) {
        if self.0[0] < other.0[0] {
            Some(Ordering::Less)
        } else if self.0[0] > other.0[0] {
            Some(Ordering::Greater)
        } else if self.0[1] < other.0[1] {
            Some(Ordering::Less)
        } else if self.0[1] > other.0[1] {
            Some(Ordering::Greater)
        } else {
            Some(Ordering::Equal)
        }
    }
}

impl PartialOrdSpecImpl for CharPair {
    open spec fn obeys_partial_cmp_spec() -> bool {
        true
    }

    /// Pairs are ordered by their first characters, and by their second
    /// characters where the first are equal.
    open spec fn partial_cmp_spec(&self, other: &Self) -> Option<Ordering> {
        if self@[0] < other@[0] {
            Some(Ordering::Less)
        } else if self@[0] > other@[0] {
            Some(Ordering::Greater)
        } else if self@[1] < other@[1] {
            Some(Ordering::Less)
        } else if self@[1] > other@[1] {
            Some(Ordering::Greater)
        } else {
            Some(Ordering::Equal)
        }
    }
}

impl View for CharPair {
    type V = Seq<u8>;

    /// The two characters of the pair.
    closed spec fn view(&self) -> Seq<u8> {
        self.0@
    }
}

/// The bytes of a sequence of pairs laid end to end.
pub open spec fn pairs_text(pairs: Seq<CharPair>) -> Seq<u8> {
    Seq::new(2 * pairs.len(), |i: int| pairs[i / 2]@[i % 2])
}

impl CharPair {
    #[verifier::type_invariant]
    spec fn holds_digits(self) -> bool {
        is_hex_digit(self.0@[0]) && is_hex_digit(self.0@[1])
    }

    /// The pair of the digits `hi` and `lo`.
    pub(crate) fn from_digits(hi: u8, lo: u8) -> (pair: Self)
        requires
            is_hex_digit(hi),
            is_hex_digit(lo),
        ensures
            pair@ == seq![hi, lo],
    {
        CharPair([hi, lo])
    }

    /// Returns the pair as two `char`s.
    #[inline(always)]
    pub fn as_chars(&self) -> (chars: [char; 2])
        ensures
            chars@ == ascii_text(self@),
    {
        [self.0[0] as char, self.0[1] as char]
    }

    /// Returns the pair as its two bytes, which are hexadecimal digits.
    #[inline(always)]
    pub fn as_bytes(&self) -> (bytes: &[u8; 2])
        ensures
            bytes@ == self@,
            is_hex_digit(bytes@[0]),
            is_hex_digit(bytes@[1]),
    {
        proof {
            use_type_invariant(self);
        }
        &self.0
    }

    /// Returns the pair as a string of two characters.
    #[inline(always)]
    pub fn as_str(&self) -> (text: &str)
        ensures
            text@ == ascii_text(self@),
    {
        let ghost chars = ascii_text(self@);
        proof {
            // Digits are ASCII, so the two bytes are the UTF-8 encoding of the
            // two characters they spell.
            use_type_invariant(self);
            assert(is_ascii_chars(chars));
            is_ascii_chars_encode_utf8(chars);
            assert(encode_utf8(chars) =~= self.0@);
            encode_utf8_valid_utf8(chars);
        }
        match core::str::from_utf8(self.0.as_slice()) {
            Ok(text) => {
                proof {
                    // Two strings with the same bytes hold the same characters.
                    encode_utf8_decode_utf8(chars);
                    encode_utf8_decode_utf8(text@);
                }
                text
            },
            Err(_) => vstd::pervasive::unreached(),
        }
    }

    /// Returns the bytes of the pairs of `array`, laid end to end.
    pub fn array_as_bytes<const N: usize>(array: &[Self; N]) -> (bytes: Vec<u8>)
        ensures
            bytes@ == pairs_text(array@),
    {
        let mut bytes: Vec<u8> = Vec::new();
        let mut idx: usize = 0;
        while idx < N
            invariant
                idx <= N,
                bytes@ == pairs_text(array@.take(idx as int)),
            decreases N - idx,
        {
            let pair: &[u8; 2] = array[idx].as_bytes();
            bytes.push(pair[0]);
            bytes.push(pair[1]);
            idx += 1;
        }
        bytes
    }

    /// Returns the pairs of `array` as one string, laid end to end.
    pub fn array_as_str<const N: usize>(array: &[Self; N]) -> (text: String)
        ensures
            text@ == ascii_text(pairs_text(array@)),
    {
        let mut text = String::new();
        let mut idx: usize = 0;
        while idx < N
            invariant
                idx <= N,
                text@ == ascii_text(pairs_text(array@.take(idx as int))),
            decreases N - idx,
        {
            text.append(array[idx].as_str());
            idx += 1;
        }
        text
    }
}

} // verus!
