//! Parsing and rendering of base16 color-scheme template fields.
//!
//! A template names a scheme attribute (`scheme-name`, `scheme-author`,
//! `scheme-slug`) or a color in a specific output format (`base07-hex-r`,
//! `base0A-hsl-h`). This crate parses such field specifiers, resolves them
//! against a [`Scheme`], and renders the resolved value as text.

pub mod scheme;
pub mod template;
pub mod text;

pub use scheme::Scheme;
