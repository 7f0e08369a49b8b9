//! Tests for the field-specifier parser.

use base16_color_scheme::template::color_field::{ColorField, ColorFieldError, Dec, Format, Hex,
    Hsl, Rgb};
use base16_color_scheme::template::TemplateField;

#[test]
fn structural_names() {
    assert_eq!(
        TemplateField::parse_field("scheme-name"),
        TemplateField::SchemeName
    );
    assert_eq!(TemplateField::parse_field("scheme"), TemplateField::SchemeName);
    assert_eq!(
        TemplateField::parse_field("scheme-author"),
        TemplateField::SchemeAuthor
    );
    assert_eq!(
        TemplateField::parse_field("scheme-slug"),
        TemplateField::SchemeSlug
    );
}

#[test]
fn structural_names_are_case_sensitive() {
    assert_eq!(
        TemplateField::parse_field("Scheme-Name"),
        TemplateField::UnparsableField
    );
    assert_eq!(
        TemplateField::parse_field("SCHEME"),
        TemplateField::UnparsableField
    );
}

#[test]
fn color_field_bodies() {
    let cases: [(&str, Format); 14] = [
        ("base00-hex", Format::Hex(Hex::Rgb)),
        ("base00-hex-r", Format::Hex(Hex::R)),
        ("base00-hex-g", Format::Hex(Hex::G)),
        ("base00-hex-b", Format::Hex(Hex::B)),
        ("base00-hex-bgr", Format::Hex(Hex::Bgr)),
        ("base00-rgb-r", Format::Rgb(Rgb::R)),
        ("base00-rgb-g", Format::Rgb(Rgb::G)),
        ("base00-rgb-b", Format::Rgb(Rgb::B)),
        ("base00-dec-r", Format::Dec(Dec::R)),
        ("base00-dec-g", Format::Dec(Dec::G)),
        ("base00-dec-b", Format::Dec(Dec::B)),
        ("base00-hsl-h", Format::Hsl(Hsl::H)),
        ("base00-hsl-s", Format::Hsl(Hsl::S)),
        ("base00-hsl-l", Format::Hsl(Hsl::L)),
    ];
    for (name, format) in cases {
        assert_eq!(
            TemplateField::parse_field(name),
            TemplateField::ColorField(ColorField { number: 0, format }),
            "parsing {name}"
        );
    }
}

#[test]
fn color_field_number() {
    assert_eq!(
        TemplateField::parse_field("base07-hex-r"),
        TemplateField::ColorField(ColorField {
            number: 0x07,
            format: Format::Hex(Hex::R)
        })
    );
    assert_eq!(
        TemplateField::parse_field("baseFF-hex"),
        TemplateField::ColorField(ColorField {
            number: 0xFF,
            format: Format::Hex(Hex::Rgb)
        })
    );
}

#[test]
fn color_field_digits_any_case() {
    for name in ["baseab-hex", "baseAB-hex", "baseAb-hex", "baseaB-hex"] {
        assert_eq!(
            TemplateField::parse_field(name),
            TemplateField::ColorField(ColorField {
                number: 0xAB,
                format: Format::Hex(Hex::Rgb)
            }),
            "parsing {name}"
        );
    }
}

#[test]
fn parser_rejects_partial_and_garbage() {
    let bad = [
        "",
        "base",
        "base0",
        "base07",
        "base07-",
        "base7-hex",
        "base077-hex",
        "base0g-hex",
        "base07-hex-x",
        "base07-hex-rg",
        "base07-hexr",
        "base07-rgb",
        "base07-rgb-rgb",
        "base07-dec",
        "base07-hsl",
        "base07-hsl-r",
        "base07-hex ",
        " base07-hex",
        "xbase07-hex",
        "Base07-hex",
        "base07_hex",
        "base07-HEX",
        "basé07-hex",
    ];
    for name in bad {
        assert_eq!(
            TemplateField::parse_field(name),
            TemplateField::UnparsableField,
            "parsing {name:?}"
        );
    }
}

#[test]
fn color_field_parse_reports_error() {
    assert_eq!(ColorField::parse("base07-hex-x"), Err(ColorFieldError));
    assert_eq!(
        ColorField::parse("base2a-dec-b"),
        Ok(ColorField {
            number: 0x2A,
            format: Format::Dec(Dec::B)
        })
    );
}

#[test]
fn parser_is_total_on_arbitrary_strings() {
    // Parser totality: any string yields exactly one field, without a
    // panic; strings outside the grammar yield the unparsable field.
    let inputs = [
        "\u{0}",
        "ba\u{301}se07-hex",
        "base\u{FF}07-hex",
        "基本07-hex",
        "base07-hex\u{0}",
        "-----",
        "base--hex",
    ];
    for name in inputs {
        assert_eq!(
            TemplateField::parse_field(name),
            TemplateField::UnparsableField,
            "parsing {name:?}"
        );
    }
}
