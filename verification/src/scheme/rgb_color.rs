//! A three-byte color and its six-digit hexadecimal textual form.

use crate::scheme::ColorDecodeError;
use crate::text::{digit_char, digit_str, hex_digit_val, hex_digit_value, is_hex_digit,
    lemma_digit_char_val};
use vstd::prelude::*;
use vstd::string::StrSliceExecFns;
use vstd::string::StringExecFns;

pub mod formatter;

pub use formatter::RgbColorFormatter;

verus! {

broadcast use vstd::array::group_array_axioms;

/// A color as exactly three bytes: red, green and blue, in that order.
///
/// Its textual form is six hexadecimal digits, read case-insensitively
/// and written in lower case (for example `7cafc2`).
#[derive(Debug, Clone, Copy, PartialEq, Eq, PartialOrd, Ord, Hash)]
pub struct RgbColor(pub [u8; 3]);

/// The two lower-case hexadecimal digits of one byte.
pub open spec fn byte_hex_chars(v: int) -> Seq<char>
    recommends
        0 <= v < 256,
{
    seq![digit_char(v / 16), digit_char(v % 16)]
}

/// The textual form of a color: `rrggbb`, lower case.
pub open spec fn rgb_chars(c: RgbColor) -> Seq<char> {
    byte_hex_chars(c.0[0] as int) + byte_hex_chars(c.0[1] as int) + byte_hex_chars(c.0[2] as int)
}

/// The color a string decodes to: six hexadecimal digits, either case,
/// or nothing.
pub open spec fn rgb_of_chars(s: Seq<char>) -> Option<RgbColor> {
    if s.len() == 6 && (forall|i: int| 0 <= i < 6 ==> is_hex_digit(#[trigger] s[i])) {
        Some(
            RgbColor(
                [
                    (16 * hex_digit_val(s[0]) + hex_digit_val(s[1])) as u8,
                    (16 * hex_digit_val(s[2]) + hex_digit_val(s[3])) as u8,
                    (16 * hex_digit_val(s[4]) + hex_digit_val(s[5])) as u8,
                ],
            ),
        )
    } else {
        None
    }
}

/// Write one byte as two lower-case hexadecimal digits.
pub fn byte_hex_str(v: u8) -> (s: String)
    ensures
        s@ == byte_hex_chars(v as int),
{
    let mut s = String::new();
    s.append(digit_str(v / 16));
    s.append(digit_str(v % 16));
    proof {
        assert(s@ =~= byte_hex_chars(v as int));
    }
    s
}

impl RgbColor {
    /// Write the color as six lower-case hexadecimal digits.
    pub fn encode(&self) -> (s: String)
        ensures
            s@ == rgb_chars(*self),
    {
        let mut s = byte_hex_str(self.0[0]);
        s.append(byte_hex_str(self.0[1]).as_str());
        s.append(byte_hex_str(self.0[2]).as_str());
        proof {
            assert(s@ =~= rgb_chars(*self));
        }
        s
    }

    /// Read a color from six hexadecimal digits, either case. Any other
    /// string is refused.
    pub fn decode(s: &str) -> (r: Result<RgbColor, ColorDecodeError>)
        ensures
            r is Ok <==> rgb_of_chars(s@) is Some,
            r is Ok ==> rgb_of_chars(s@) == Some(r->Ok_0),
    {
        let n = s.unicode_len();
        if n != 6 {
            return Err(ColorDecodeError);
        }
        let mut digits: [u8; 3] = [0, 0, 0];
        let mut i: usize = 0;
        while i < 3
            invariant
                s@.len() == 6,
                0 <= i <= 3,
                forall|j: int| 0 <= j < 2 * i ==> is_hex_digit(#[trigger] s@[j]),
                forall|k: int|
                    0 <= k < i ==> #[trigger] digits[k] == 16 * hex_digit_val(s@[2 * k])
                        + hex_digit_val(s@[2 * k + 1]),
            decreases 3 - i,
        {
            let hi = match hex_digit_value(s.get_char(2 * i)) {
                Some(v) => v,
                None => {
                    return Err(ColorDecodeError);
                },
            };
            let lo = match hex_digit_value(s.get_char(2 * i + 1)) {
                Some(v) => v,
                None => {
                    return Err(ColorDecodeError);
                },
            };
            digits[i] = 16 * hi + lo;
            i += 1;
        }
        let c = RgbColor(digits);
        proof {
            let decoded = rgb_of_chars(s@)->0;
            assert(decoded.0 =~= digits);
            assert(rgb_of_chars(s@) == Some(c));
        }
        Ok(c)
    }
}

/// Law: decoding the textual form of a color yields the color again.
pub proof fn lemma_rgb_round_trip(c: RgbColor)
    ensures
        rgb_of_chars(rgb_chars(c)) == Some(c),
{
    let s = rgb_chars(c);
    assert forall|i: int| 0 <= i < 6 implies is_hex_digit(#[trigger] s[i]) by {
        lemma_digit_char_val(c.0[i / 2] as int / 16);
        lemma_digit_char_val(c.0[i / 2] as int % 16);
    }
    assert forall|k: int| 0 <= k < 3 implies 16 * hex_digit_val(s[2 * k]) + hex_digit_val(
        s[2 * k + 1],
    ) == c.0[k] by {
        lemma_digit_char_val(c.0[k] as int / 16);
        lemma_digit_char_val(c.0[k] as int % 16);
    }
    let decoded = rgb_of_chars(s)->0;
    assert(decoded.0 =~= c.0);
}

} // verus!
