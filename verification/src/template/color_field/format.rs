//! The closed taxonomy of output formats: an output kind together with a
//! channel or composite selector.

use vstd::prelude::*;

pub mod hsl;

verus! {

/// How a color is rendered: one of four output kinds, each carrying its
/// selector. The set is closed; the formatter matches on it exhaustively.
#[derive(Debug, Clone, Copy, PartialEq, Eq, PartialOrd, Ord, Hash)]
pub enum Format {
    Hex(Hex),
    Rgb(Rgb),
    Dec(Dec),
    Hsl(Hsl),
}

/// Selector under the hexadecimal output kind: the whole color (red,
/// green, blue concatenated), a single channel, or the byte-swapped whole
/// color (blue, green, red).
#[derive(Debug, Clone, Copy, PartialEq, Eq, PartialOrd, Ord, Hash)]
pub enum Hex {
    Rgb,
    R,
    G,
    B,
    Bgr,
}

/// Selector under the raw-integer output kind. Only the three channels
/// can be asked for by a field specifier; the composite selectors `Rgb`
/// and `Bgr` are representable to keep the taxonomy closed, and render as
/// the empty string.
#[derive(Debug, Clone, Copy, PartialEq, Eq, PartialOrd, Ord, Hash)]
pub enum Rgb {
    Rgb,
    R,
    G,
    B,
    Bgr,
}

/// Selector under the decimal-fraction output kind. As with [`Rgb`], the
/// composite selectors are representable but render as the empty string.
#[derive(Debug, Clone, Copy, PartialEq, Eq, PartialOrd, Ord, Hash)]
pub enum Dec {
    Rgb,
    R,
    G,
    B,
    Bgr,
}

/// Selector under the hue/saturation/luminance output kind.
#[derive(Debug, Clone, Copy, PartialEq, Eq, PartialOrd, Ord, Hash)]
pub enum Hsl {
    H,
    S,
    L,
}

} // verus!
