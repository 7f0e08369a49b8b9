//! Template field specifiers and their parser.

use crate::text::str_eq;
use vstd::prelude::*;

pub mod color_field;

use color_field::{color_field_of_chars, ColorField, ColorFieldError, Dec, Format, Rgb};

verus! {

/// A field in a template: one of the three structural names, a color
/// description, or nothing the grammar knows.
#[derive(Debug, Clone, Copy, PartialEq, Eq, PartialOrd, Ord, Hash)]
pub enum TemplateField {
    /// Named by `scheme-name`, or by `scheme` alone.
    SchemeName,
    /// Named by `scheme-author`.
    SchemeAuthor,
    /// Named by `scheme-slug`.
    SchemeSlug,
    /// Named by a color description such as `base07-hex-r`; see
    /// [`ColorField`] and [`color_field::Format`] for the grammar.
    ColorField(ColorField),
    /// Every string outside the grammar parses to this variant; it is
    /// rendered as "no such field", never as an error.
    UnparsableField,
}

/// What a field-name string parses to. The three structural names are
/// matched case-sensitively, with `scheme` accepted for the scheme
/// name; every other string is tried against the color-field grammar,
/// and one that matches nothing parses to `UnparsableField`.
pub open spec fn parse_field_spec(s: Seq<char>) -> TemplateField {
    if s == "scheme-name"@ || s == "scheme"@ {
        TemplateField::SchemeName
    } else if s == "scheme-author"@ {
        TemplateField::SchemeAuthor
    } else if s == "scheme-slug"@ {
        TemplateField::SchemeSlug
    } else if color_field_of_chars(s) is Some {
        TemplateField::ColorField(color_field_of_chars(s)->0)
    } else {
        TemplateField::UnparsableField
    }
}

/// Law: no field string names a composite selector under the
/// raw-integer or decimal-fraction output kinds. Those selectors exist
/// only to keep the taxonomy closed, and render as the empty string.
pub proof fn lemma_grammar_selects_channels_only(s: Seq<char>)
    ensures
        (parse_field_spec(s) matches TemplateField::ColorField(field) ==> (field.format
            != Format::Rgb(Rgb::Rgb) && field.format != Format::Rgb(Rgb::Bgr) && field.format
            != Format::Dec(Dec::Rgb) && field.format != Format::Dec(Dec::Bgr))),
{
}

impl TemplateField {
    /// Parse a field name. Parsing is total: every string yields
    /// exactly one field, and a string outside the grammar yields
    /// `UnparsableField` rather than an error.
    pub fn parse_field(name: &str) -> (r: TemplateField)
        ensures
            r == parse_field_spec(name@),
    {
        if str_eq(name, "scheme-name") || str_eq(name, "scheme") {
            TemplateField::SchemeName
        } else if str_eq(name, "scheme-author") {
            TemplateField::SchemeAuthor
        } else if str_eq(name, "scheme-slug") {
            TemplateField::SchemeSlug
        } else {
            match ColorField::parse(name) {
                Ok(field) => TemplateField::ColorField(field),
                Err(ColorFieldError) => TemplateField::UnparsableField,
            }
        }
    }
}

} // verus!
