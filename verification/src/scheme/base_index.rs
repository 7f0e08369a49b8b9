//! A single-byte color key and its `baseXX` textual form.

use crate::scheme::ColorDecodeError;
use crate::text::{digit_char_upper, digit_str_upper, hex_digit_val, hex_digit_value, is_hex_digit,
    lemma_digit_char_val};
use vstd::prelude::*;
use vstd::string::StrSliceExecFns;
use vstd::string::StringExecFns;

verus! {

/// A base16 color key: a single byte.
///
/// Its textual form is `base` followed by the two hexadecimal digits of
/// the byte, written in upper case and read in either case (for example
/// byte `0x07` and `base07`). Indices order numerically by the byte.
#[derive(Debug, Default, Clone, Copy, PartialEq, Eq, PartialOrd, Ord, Hash)]
pub struct BaseIndex(pub u8);

/// The textual form of an index: `base` and two upper-case digits.
pub open spec fn index_chars(v: int) -> Seq<char>
    recommends
        0 <= v < 256,
{
    seq!['b', 'a', 's', 'e', digit_char_upper(v / 16), digit_char_upper(v % 16)]
}

/// The index a string decodes to: `base` (lower case, as written in
/// scheme documents) and two hexadecimal digits of either case, or
/// nothing.
pub open spec fn index_of_chars(s: Seq<char>) -> Option<BaseIndex> {
    if s.len() == 6 && s[0] == 'b' && s[1] == 'a' && s[2] == 's' && s[3] == 'e' && is_hex_digit(
        s[4],
    ) && is_hex_digit(s[5]) {
        Some(BaseIndex((16 * hex_digit_val(s[4]) + hex_digit_val(s[5])) as u8))
    } else {
        None
    }
}

impl BaseIndex {
    /// Write the index as `base` followed by two upper-case digits.
    pub fn encode(&self) -> (s: String)
        ensures
            s@ == index_chars(self.0 as int),
    {
        let mut s = String::from_str("base");
        s.append(digit_str_upper(self.0 / 16));
        s.append(digit_str_upper(self.0 % 16));
        proof {
            reveal_strlit("base");
            assert(s@ =~= index_chars(self.0 as int));
        }
        s
    }

    /// Read an index from its textual form. Any other string is refused.
    pub fn decode(s: &str) -> (r: Result<BaseIndex, ColorDecodeError>)
        ensures
            r is Ok <==> index_of_chars(s@) is Some,
            r is Ok ==> index_of_chars(s@) == Some(r->Ok_0),
    {
        let n = s.unicode_len();
        if n != 6 {
            return Err(ColorDecodeError);
        }
        if s.get_char(0) != 'b' || s.get_char(1) != 'a' || s.get_char(2) != 's' || s.get_char(3)
            != 'e' {
            return Err(ColorDecodeError);
        }
        let hi = match hex_digit_value(s.get_char(4)) {
            Some(v) => v,
            None => {
                return Err(ColorDecodeError);
            },
        };
        let lo = match hex_digit_value(s.get_char(5)) {
            Some(v) => v,
            None => {
                return Err(ColorDecodeError);
            },
        };
        Ok(BaseIndex(16 * hi + lo))
    }
}

/// Law: decoding the textual form of an index yields the index again;
/// this holds for every byte value.
pub proof fn lemma_index_round_trip(i: BaseIndex)
    ensures
        index_of_chars(index_chars(i.0 as int)) == Some(i),
{
    lemma_digit_char_val(i.0 as int / 16);
    lemma_digit_char_val(i.0 as int % 16);
}

} // verus!
