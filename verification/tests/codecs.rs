//! Tests for the textual forms of color indices and colors.

use base16_color_scheme::scheme::{BaseIndex, ColorDecodeError, RgbColor};

#[test]
fn index_encodes_upper_case() {
    assert_eq!(BaseIndex(0x00).encode(), "base00");
    assert_eq!(BaseIndex(0x07).encode(), "base07");
    assert_eq!(BaseIndex(0xAB).encode(), "baseAB");
    assert_eq!(BaseIndex(0xFF).encode(), "baseFF");
}

#[test]
fn index_round_trips_for_every_byte() {
    // Round-trip over the whole key space: format, parse back, compare.
    for value in 0..=255u8 {
        let index = BaseIndex(value);
        assert_eq!(BaseIndex::decode(&index.encode()), Ok(index), "byte {value}");
    }
}

#[test]
fn index_decodes_either_case() {
    assert_eq!(BaseIndex::decode("baseab"), Ok(BaseIndex(0xAB)));
    assert_eq!(BaseIndex::decode("baseAb"), Ok(BaseIndex(0xAB)));
    assert_eq!(BaseIndex::decode("base1f"), Ok(BaseIndex(0x1F)));
}

#[test]
fn index_rejects_malformed_text() {
    for text in ["", "base", "base0", "base077", "Base07", "bas07", "base0g", "07", "base07 "] {
        assert_eq!(BaseIndex::decode(text), Err(ColorDecodeError), "decoding {text:?}");
    }
}

#[test]
fn color_encodes_lower_case() {
    assert_eq!(RgbColor([0x7c, 0xaf, 0xc2]).encode(), "7cafc2");
    assert_eq!(RgbColor([0x00, 0x00, 0x00]).encode(), "000000");
    assert_eq!(RgbColor([0xff, 0xff, 0xff]).encode(), "ffffff");
    assert_eq!(RgbColor([0x0a, 0xb0, 0x05]).encode(), "0ab005");
}

#[test]
fn color_round_trips_on_samples_and_boundaries() {
    let samples = [
        RgbColor([0x00, 0x00, 0x00]),
        RgbColor([0x7f, 0x7f, 0x7f]),
        RgbColor([0xff, 0xff, 0xff]),
        RgbColor([0x00, 0x7f, 0xff]),
        RgbColor([0x7c, 0xaf, 0xc2]),
        RgbColor([0x01, 0x10, 0xfe]),
        RgbColor([0xde, 0xad, 0xbe]),
    ];
    for color in samples {
        assert_eq!(RgbColor::decode(&color.encode()), Ok(color), "color {color:?}");
    }
}

#[test]
fn color_decodes_either_case() {
    assert_eq!(RgbColor::decode("7CaFc2"), Ok(RgbColor([0x7c, 0xaf, 0xc2])));
    assert_eq!(RgbColor::decode("DEADBE"), Ok(RgbColor([0xde, 0xad, 0xbe])));
}

#[test]
fn color_rejects_malformed_text() {
    for text in ["", "7cafc", "7cafc2a", "7cafcg", "#7cafc2", "7cafc2 ", "7c af c2"] {
        assert_eq!(RgbColor::decode(text), Err(ColorDecodeError), "decoding {text:?}");
    }
}

#[test]
fn decode_error_has_a_message() {
    assert_eq!(ColorDecodeError.message(), "invalid hex color data");
}
