//! Rendering of a color under a chosen output format.

use crate::scheme::rgb_color::{byte_hex_chars, byte_hex_str, rgb_chars, RgbColor};
use crate::template::color_field::format::hsl::{spec_hue_centi, spec_luminance_centi,
    spec_saturation_centi, HslFormatter};
use crate::template::color_field::format::{Dec, Format, Hex, Hsl, Rgb};
use crate::text::{centi_chars, centi_str, dec_chars, round_div, round_div_u32, u32_dec_str};
use vstd::prelude::*;
use vstd::string::StringExecFns;

verus! {

broadcast use vstd::array::group_array_axioms;

/// The decimal-fraction value of one channel byte, in hundredths: the
/// exact value is the byte divided by 255.
pub open spec fn dec_centi(v: int) -> int {
    round_div(100 * v, 255)
}

/// The exact text a color renders to under a format.
///
/// - Hexadecimal: two lower-case digits per channel; the whole color is
///   red, green, blue concatenated, and `Bgr` is blue, green, red.
/// - Raw integer: the channel byte in decimal, without padding.
/// - Decimal fraction: the channel byte over 255, with two digits after
///   the decimal point.
/// - Hue, saturation, luminance: two digits after the decimal point;
///   hue in degrees within [0, 360), the other two as fractions.
/// - A composite selector under the raw-integer or decimal-fraction
///   kind renders as the empty string.
pub open spec fn rendered_chars(color: RgbColor, format: Format) -> Seq<char> {
    let r = color.0[0] as int;
    let g = color.0[1] as int;
    let b = color.0[2] as int;
    match format {
        Format::Hex(Hex::Rgb) => rgb_chars(color),
        Format::Hex(Hex::R) => byte_hex_chars(r),
        Format::Hex(Hex::G) => byte_hex_chars(g),
        Format::Hex(Hex::B) => byte_hex_chars(b),
        Format::Hex(Hex::Bgr) => byte_hex_chars(b) + byte_hex_chars(g) + byte_hex_chars(r),
        Format::Rgb(Rgb::R) => dec_chars(r),
        Format::Rgb(Rgb::G) => dec_chars(g),
        Format::Rgb(Rgb::B) => dec_chars(b),
        Format::Rgb(Rgb::Rgb) => Seq::<char>::empty(),
        Format::Rgb(Rgb::Bgr) => Seq::<char>::empty(),
        Format::Dec(Dec::R) => centi_chars(dec_centi(r)),
        Format::Dec(Dec::G) => centi_chars(dec_centi(g)),
        Format::Dec(Dec::B) => centi_chars(dec_centi(b)),
        Format::Dec(Dec::Rgb) => Seq::<char>::empty(),
        Format::Dec(Dec::Bgr) => Seq::<char>::empty(),
        Format::Hsl(Hsl::H) => centi_chars(spec_hue_centi(color)),
        Format::Hsl(Hsl::S) => centi_chars(spec_saturation_centi(color)),
        Format::Hsl(Hsl::L) => centi_chars(spec_luminance_centi(color)),
    }
}

/// A color paired with the format to render it in.
#[derive(Debug, Clone, Copy, PartialEq, Eq, PartialOrd, Ord, Hash)]
pub struct RgbColorFormatter {
    pub color: RgbColor,
    pub format: Format,
}

impl RgbColorFormatter {
    /// Render the color as exact text under the chosen format.
    pub fn render(&self) -> (s: String)
        ensures
            s@ == rendered_chars(self.color, self.format),
    {
        let r = self.color.0[0];
        let g = self.color.0[1];
        let b = self.color.0[2];
        match self.format {
            Format::Hex(Hex::Rgb) => self.color.encode(),
            Format::Hex(Hex::R) => byte_hex_str(r),
            Format::Hex(Hex::G) => byte_hex_str(g),
            Format::Hex(Hex::B) => byte_hex_str(b),
            Format::Hex(Hex::Bgr) => {
                let mut s = byte_hex_str(b);
                s.append(byte_hex_str(g).as_str());
                s.append(byte_hex_str(r).as_str());
                proof {
                    assert(s@ =~= rendered_chars(self.color, self.format));
                }
                s
            },
            Format::Rgb(Rgb::R) => u32_dec_str(r as u32),
            Format::Rgb(Rgb::G) => u32_dec_str(g as u32),
            Format::Rgb(Rgb::B) => u32_dec_str(b as u32),
            Format::Rgb(Rgb::Rgb) => String::new(),
            Format::Rgb(Rgb::Bgr) => String::new(),
            Format::Dec(Dec::R) => centi_str(round_div_u32(100 * (r as u32), 255)),
            Format::Dec(Dec::G) => centi_str(round_div_u32(100 * (g as u32), 255)),
            Format::Dec(Dec::B) => centi_str(round_div_u32(100 * (b as u32), 255)),
            Format::Dec(Dec::Rgb) => String::new(),
            Format::Dec(Dec::Bgr) => String::new(),
            Format::Hsl(Hsl::H) => centi_str(HslFormatter::from_color(self.color).hue_centi),
            Format::Hsl(Hsl::S) => centi_str(HslFormatter::from_color(self.color).saturation_centi),
            Format::Hsl(Hsl::L) => centi_str(HslFormatter::from_color(self.color).luminance_centi),
        }
    }
}

/// Law: the raw-integer and decimal-fraction output kinds render every
/// composite selector as the empty string, for every color.
pub proof fn lemma_composite_selector_renders_empty(color: RgbColor)
    ensures
        rendered_chars(color, Format::Rgb(Rgb::Rgb)) == Seq::<char>::empty(),
        rendered_chars(color, Format::Rgb(Rgb::Bgr)) == Seq::<char>::empty(),
        rendered_chars(color, Format::Dec(Dec::Rgb)) == Seq::<char>::empty(),
        rendered_chars(color, Format::Dec(Dec::Bgr)) == Seq::<char>::empty(),
{
}

} // verus!

