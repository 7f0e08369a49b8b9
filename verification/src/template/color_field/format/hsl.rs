//! Hue, saturation and luminance of a color.
//!
//! The three values are rendered with exactly two digits after the
//! decimal point, so they are held as integer counts of hundredths and
//! computed from the exact rational values, rounded half away from zero.
//! Hue is measured in degrees and wrapped into [0, 360); saturation and
//! luminance are fractions in [0, 1].

use crate::scheme::rgb_color::RgbColor;
use crate::text::{lemma_round_div_le, round_div, round_div_u32};
use vstd::prelude::*;

verus! {

broadcast use vstd::array::group_array_axioms;

/// The largest of three values.
pub open spec fn max3(a: int, b: int, c: int) -> int {
    if a >= b && a >= c {
        a
    } else if b >= c {
        b
    } else {
        c
    }
}

/// The smallest of three values.
pub open spec fn min3(a: int, b: int, c: int) -> int {
    if a <= b && a <= c {
        a
    } else if b <= c {
        b
    } else {
        c
    }
}

/// Luminance in hundredths: the exact value is `(max + min) / 2` over
/// channels normalized to [0, 1], that is `(max + min) / 510` over bytes.
pub open spec fn spec_luminance_centi(c: RgbColor) -> int {
    let mx = max3(c.0[0] as int, c.0[1] as int, c.0[2] as int);
    let mn = min3(c.0[0] as int, c.0[1] as int, c.0[2] as int);
    round_div(100 * (mx + mn), 510)
}

/// Saturation in hundredths. An achromatic color (all channels equal)
/// has saturation zero; otherwise the exact value is
/// `(max - min) / (max + min)` while luminance is at most one half, and
/// `(max - min) / (2 - max - min)` above that, over normalized channels.
pub open spec fn spec_saturation_centi(c: RgbColor) -> int {
    let mx = max3(c.0[0] as int, c.0[1] as int, c.0[2] as int);
    let mn = min3(c.0[0] as int, c.0[1] as int, c.0[2] as int);
    if mx == mn {
        0
    } else if mx + mn <= 255 {
        round_div(100 * (mx - mn), mx + mn)
    } else {
        round_div(100 * (mx - mn), 510 - mx - mn)
    }
}

/// The hue numerator: hue in degrees is sixty times this value divided
/// by `max - min`. The channel-dependent offsets (0, 2 or 4 times the
/// difference) select the sextant of the color wheel; a negative value
/// in the red sextant is wrapped by a full turn (six differences), so
/// the numerator always lies in [0, 6 * (max - min)).
pub open spec fn spec_hue_num(c: RgbColor) -> int {
    let r = c.0[0] as int;
    let g = c.0[1] as int;
    let b = c.0[2] as int;
    let mx = max3(r, g, b);
    let mn = min3(r, g, b);
    let d = mx - mn;
    if r == mx {
        if g >= b {
            g - b
        } else {
            g + 6 * d - b
        }
    } else if g == mx {
        2 * d + b - r
    } else {
        4 * d + r - g
    }
}

/// Hue in hundredths of a degree, wrapped into [0, 36000). An
/// achromatic color has hue zero.
pub open spec fn spec_hue_centi(c: RgbColor) -> int {
    let mx = max3(c.0[0] as int, c.0[1] as int, c.0[2] as int);
    let mn = min3(c.0[0] as int, c.0[1] as int, c.0[2] as int);
    if mx == mn {
        0
    } else {
        round_div(6000 * spec_hue_num(c), mx - mn)
    }
}

/// The hue, saturation and luminance of a color, held in hundredths:
/// `hue_centi` counts hundredths of a degree in [0, 36000), the other
/// two count hundredths of a fraction in [0, 100].
#[derive(Debug, Clone, Copy, PartialEq, Eq, PartialOrd, Ord, Hash)]
pub struct HslFormatter {
    pub hue_centi: u32,
    pub saturation_centi: u32,
    pub luminance_centi: u32,
}

impl HslFormatter {
    /// Convert a color to its hue, saturation and luminance. The hue
    /// stays below a full turn; the two fractions stay at most one.
    pub fn from_color(color: RgbColor) -> (h: HslFormatter)
        ensures
            h.hue_centi == spec_hue_centi(color),
            h.saturation_centi == spec_saturation_centi(color),
            h.luminance_centi == spec_luminance_centi(color),
            h.hue_centi < 36000,
            h.saturation_centi <= 100,
            h.luminance_centi <= 100,
    {
        let r: u32 = color.0[0] as u32;
        let g: u32 = color.0[1] as u32;
        let b: u32 = color.0[2] as u32;
        let mx: u32 = if r >= g && r >= b {
            r
        } else if g >= b {
            g
        } else {
            b
        };
        let mn: u32 = if r <= g && r <= b {
            r
        } else if g <= b {
            g
        } else {
            b
        };
        let luminance_centi = round_div_u32(100 * (mx + mn), 510);
        proof {
            lemma_round_div_le(100 * (mx + mn) as int, 510, 100);
        }
        if mx == mn {
            return HslFormatter { hue_centi: 0, saturation_centi: 0, luminance_centi };
        }
        let d: u32 = mx - mn;
        let saturation_centi = if mx + mn <= 255 {
            proof {
                lemma_round_div_le(100 * d as int, (mx + mn) as int, 100);
            }
            round_div_u32(100 * d, mx + mn)
        } else {
            proof {
                lemma_round_div_le(100 * d as int, 510 - (mx + mn) as int, 100);
            }
            round_div_u32(100 * d, 510 - (mx + mn))
        };
        let num: u32 = if r == mx {
            if g >= b {
                g - b
            } else {
                g + 6 * d - b
            }
        } else if g == mx {
            2 * d + b - r
        } else {
            4 * d + r - g
        };
        proof {
            assert(6000 * num as int <= 35999 * d as int) by (nonlinear_arith)
                requires
                    num as int <= 6 * (d as int) - 1,
                    1 <= d as int <= 255,
            ;
            lemma_round_div_le(6000 * num as int, d as int, 35999);
        }
        let hue_centi = round_div_u32(6000 * num, d);
        HslFormatter { hue_centi, saturation_centi, luminance_centi }
    }
}

} // verus!
