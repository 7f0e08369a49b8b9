//! Color field specifiers: a color index together with an output format.

use crate::text::{hex_digit_val, hex_digit_value, is_hex_digit, str_eq};
use vstd::prelude::*;
use vstd::string::StrSliceExecFns;

pub mod format;

pub use format::hsl::HslFormatter;
pub use format::{Dec, Format, Hex, Hsl, Rgb};

verus! {

/// A color description in a template field: the color's index byte and
/// the format to render it in. Up to 256 colors can be named, exactly
/// what fits into the two hexadecimal digits of the grammar.
#[derive(Debug, Clone, Copy, PartialEq, Eq, PartialOrd, Ord, Hash)]
pub struct ColorField {
    pub number: u8,
    pub format: Format,
}

/// Error for a field string that does not match the color-field grammar.
#[derive(Debug, Default, Clone, Copy, PartialEq, Eq, PartialOrd, Ord, Hash)]
pub struct ColorFieldError;

/// The format named by the body of a field, the part after the dash
/// that follows the index: one of fourteen fixed words. `hex` alone
/// selects the whole color and `hex-bgr` the byte-swapped whole color;
/// `rgb` and `dec` have no whole-color body, and `hsl` selects one of
/// hue, saturation and luminance. Any other body names no format.
pub open spec fn format_of_body(t: Seq<char>) -> Option<Format> {
    if t == "hex"@ {
        Some(Format::Hex(Hex::Rgb))
    } else if t == "hex-r"@ {
        Some(Format::Hex(Hex::R))
    } else if t == "hex-g"@ {
        Some(Format::Hex(Hex::G))
    } else if t == "hex-b"@ {
        Some(Format::Hex(Hex::B))
    } else if t == "hex-bgr"@ {
        Some(Format::Hex(Hex::Bgr))
    } else if t == "rgb-r"@ {
        Some(Format::Rgb(Rgb::R))
    } else if t == "rgb-g"@ {
        Some(Format::Rgb(Rgb::G))
    } else if t == "rgb-b"@ {
        Some(Format::Rgb(Rgb::B))
    } else if t == "dec-r"@ {
        Some(Format::Dec(Dec::R))
    } else if t == "dec-g"@ {
        Some(Format::Dec(Dec::G))
    } else if t == "dec-b"@ {
        Some(Format::Dec(Dec::B))
    } else if t == "hsl-h"@ {
        Some(Format::Hsl(Hsl::H))
    } else if t == "hsl-s"@ {
        Some(Format::Hsl(Hsl::S))
    } else if t == "hsl-l"@ {
        Some(Format::Hsl(Hsl::L))
    } else {
        None
    }
}

/// What a string parses to under the color-field grammar: `base`, two
/// hexadecimal digits of either case, a dash, and a format body, with
/// nothing before or after. Any string that does not match the whole
/// grammar parses to nothing.
pub open spec fn color_field_of_chars(s: Seq<char>) -> Option<ColorField> {
    if s.len() >= 8 && s.subrange(0, 4) == "base"@ && is_hex_digit(s[4]) && is_hex_digit(s[5])
        && s[6] == '-' && format_of_body(s.subrange(7, s.len() as int)) is Some {
        Some(
            ColorField {
                number: (16 * hex_digit_val(s[4]) + hex_digit_val(s[5])) as u8,
                format: format_of_body(s.subrange(7, s.len() as int))->0,
            },
        )
    } else {
        None
    }
}

/// The format a body string names, matched against the fourteen words.
fn body_format(t: &str) -> (r: Option<Format>)
    ensures
        r == format_of_body(t@),
{
    if str_eq(t, "hex") {
        Some(Format::Hex(Hex::Rgb))
    } else if str_eq(t, "hex-r") {
        Some(Format::Hex(Hex::R))
    } else if str_eq(t, "hex-g") {
        Some(Format::Hex(Hex::G))
    } else if str_eq(t, "hex-b") {
        Some(Format::Hex(Hex::B))
    } else if str_eq(t, "hex-bgr") {
        Some(Format::Hex(Hex::Bgr))
    } else if str_eq(t, "rgb-r") {
        Some(Format::Rgb(Rgb::R))
    } else if str_eq(t, "rgb-g") {
        Some(Format::Rgb(Rgb::G))
    } else if str_eq(t, "rgb-b") {
        Some(Format::Rgb(Rgb::B))
    } else if str_eq(t, "dec-r") {
        Some(Format::Dec(Dec::R))
    } else if str_eq(t, "dec-g") {
        Some(Format::Dec(Dec::G))
    } else if str_eq(t, "dec-b") {
        Some(Format::Dec(Dec::B))
    } else if str_eq(t, "hsl-h") {
        Some(Format::Hsl(Hsl::H))
    } else if str_eq(t, "hsl-s") {
        Some(Format::Hsl(Hsl::S))
    } else if str_eq(t, "hsl-l") {
        Some(Format::Hsl(Hsl::L))
    } else {
        None
    }
}

impl ColorField {
    /// Parse a color field, accepting exactly the grammar: matching is
    /// leftmost and must consume the entire input. Any other string is
    /// refused.
    pub fn parse(s: &str) -> (r: Result<ColorField, ColorFieldError>)
        ensures
            r is Ok <==> color_field_of_chars(s@) is Some,
            r is Ok ==> color_field_of_chars(s@) == Some(r->Ok_0),
    {
        let n = s.unicode_len();
        if n < 8 {
            return Err(ColorFieldError);
        }
        proof {
            reveal_strlit("base");
        }
        if s.get_char(0) != 'b' || s.get_char(1) != 'a' || s.get_char(2) != 's' || s.get_char(3)
            != 'e' {
            proof {
                assert(s@.subrange(0, 4)[0] == s@[0]);
                assert(s@.subrange(0, 4)[1] == s@[1]);
                assert(s@.subrange(0, 4)[2] == s@[2]);
                assert(s@.subrange(0, 4)[3] == s@[3]);
            }
            return Err(ColorFieldError);
        }
        proof {
            assert(s@.subrange(0, 4) =~= "base"@);
        }
        let hi = match hex_digit_value(s.get_char(4)) {
            Some(v) => v,
            None => {
                return Err(ColorFieldError);
            },
        };
        let lo = match hex_digit_value(s.get_char(5)) {
            Some(v) => v,
            None => {
                return Err(ColorFieldError);
            },
        };
        if s.get_char(6) != '-' {
            return Err(ColorFieldError);
        }
        let body = s.substring_char(7, n);
        match body_format(body) {
            Some(format) => Ok(ColorField { number: 16 * hi + lo, format }),
            None => Err(ColorFieldError),
        }
    }
}

} // verus!
