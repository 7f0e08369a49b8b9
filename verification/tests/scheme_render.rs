//! Tests for the scheme model and the field-lookup contract.

use base16_color_scheme::scheme::{create_slug, BaseIndex, RgbColor, RgbColorFormatter};
use base16_color_scheme::template::color_field::{ColorField, Format, Hex};
use base16_color_scheme::Scheme;

fn sample_scheme() -> Scheme {
    let mut scheme = Scheme {
        scheme: String::from("Scheme Name"),
        author: String::from("Scheme Author"),
        ..Default::default()
    };
    scheme.insert_color(BaseIndex(0x00), RgbColor([0x7c, 0xaf, 0xc2]));
    scheme
}

#[test]
fn end_to_end_field_rendering() {
    let scheme = sample_scheme();
    let cases: [(&str, &str); 5] = [
        ("base00-hex", "7cafc2"),
        ("base00-hex-bgr", "c2af7c"),
        ("base00-rgb-r", "124"),
        ("base00-dec-g", "0.69"),
        ("base00-hsl-h", "196.29"),
    ];
    for (field, expected) in cases {
        assert_eq!(
            scheme.resolve_field(field).as_deref(),
            Some(expected),
            "field {field}"
        );
    }
}

#[test]
fn unknown_index_is_not_found() {
    let scheme = sample_scheme();
    assert_eq!(scheme.resolve_field("base0A-hex"), None);
}

#[test]
fn unparsable_field_is_not_found() {
    let scheme = sample_scheme();
    assert_eq!(scheme.resolve_field("no-such-field"), None);
}

#[test]
fn structural_fields_resolve_to_metadata() {
    let scheme = sample_scheme().create_slug();
    assert_eq!(scheme.resolve_field("scheme-name").as_deref(), Some("Scheme Name"));
    assert_eq!(scheme.resolve_field("scheme").as_deref(), Some("Scheme Name"));
    assert_eq!(
        scheme.resolve_field("scheme-author").as_deref(),
        Some("Scheme Author")
    );
    assert_eq!(scheme.resolve_field("scheme-slug").as_deref(), Some("scheme-name"));
}

#[test]
fn underived_slug_falls_back_to_placeholder() {
    // The slug was never derived, so the literal `scheme-slug` stands in.
    let scheme = sample_scheme();
    assert_eq!(scheme.scheme_slug(), "");
    assert_eq!(scheme.resolve_field("scheme-slug").as_deref(), Some("scheme-slug"));
}

#[test]
fn create_slug_lowercases_and_dashes() {
    assert_eq!(create_slug("Scheme Name"), "scheme-name");
    assert_eq!(create_slug(""), "");
    assert_eq!(create_slug("Grüvbox Dark"), "grüvbox-dark");
    assert_eq!(create_slug("TWO  SPACES"), "two--spaces");
}

#[test]
fn scheme_create_slug_fills_only_the_slug() {
    let scheme = sample_scheme().create_slug();
    assert_eq!(scheme.scheme_name(), "Scheme Name");
    assert_eq!(scheme.scheme_author(), "Scheme Author");
    assert_eq!(scheme.scheme_slug(), "scheme-name");
}

#[test]
fn color_lookup_returns_a_formatter() {
    let scheme = sample_scheme();
    let field = ColorField {
        number: 0x00,
        format: Format::Hex(Hex::R),
    };
    assert_eq!(
        scheme.color(field),
        Some(RgbColorFormatter {
            color: RgbColor([0x7c, 0xaf, 0xc2]),
            format: Format::Hex(Hex::R),
        })
    );
    let absent = ColorField {
        number: 0x0A,
        format: Format::Hex(Hex::R),
    };
    assert_eq!(scheme.color(absent), None);
}

#[test]
fn insert_color_keeps_ascending_order() {
    let mut scheme = Scheme::default();
    scheme.insert_color(BaseIndex(0x05), RgbColor([5, 5, 5]));
    scheme.insert_color(BaseIndex(0x01), RgbColor([1, 1, 1]));
    scheme.insert_color(BaseIndex(0xFF), RgbColor([9, 9, 9]));
    scheme.insert_color(BaseIndex(0x03), RgbColor([3, 3, 3]));
    let keys: Vec<u8> = scheme.colors.iter().map(|(index, _)| index.0).collect();
    assert_eq!(keys, vec![0x01, 0x03, 0x05, 0xFF]);
}

#[test]
fn insert_color_replaces_an_existing_index() {
    let mut scheme = Scheme::default();
    scheme.insert_color(BaseIndex(0x01), RgbColor([1, 1, 1]));
    scheme.insert_color(BaseIndex(0x01), RgbColor([2, 2, 2]));
    assert_eq!(scheme.colors.len(), 1);
    assert_eq!(scheme.colors[0], (BaseIndex(0x01), RgbColor([2, 2, 2])));
}

#[test]
fn every_inserted_color_resolves() {
    let mut scheme = Scheme::default();
    scheme.insert_color(BaseIndex(0x0F), RgbColor([0xff, 0x00, 0x00]));
    scheme.insert_color(BaseIndex(0x00), RgbColor([0x11, 0x22, 0x33]));
    scheme.insert_color(BaseIndex(0x07), RgbColor([0xab, 0xcd, 0xef]));
    assert_eq!(scheme.resolve_field("base00-hex").as_deref(), Some("112233"));
    assert_eq!(scheme.resolve_field("base07-hex").as_deref(), Some("abcdef"));
    assert_eq!(scheme.resolve_field("base0F-hex").as_deref(), Some("ff0000"));
    assert_eq!(scheme.resolve_field("base01-hex"), None);
}

#[test]
fn default_scheme_is_empty_and_valid() {
    let scheme = Scheme::default();
    assert_eq!(scheme.scheme_name(), "");
    assert_eq!(scheme.scheme_author(), "");
    assert_eq!(scheme.colors.len(), 0);
    assert_eq!(scheme.resolve_field("base00-hex"), None);
}
