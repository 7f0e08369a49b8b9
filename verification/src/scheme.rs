//! The scheme model: name, author, derived slug, and indexed colors.

use crate::scheme::rgb_color::formatter::rendered_chars;
use crate::template::color_field::ColorField;
use crate::template::TemplateField;
use crate::template::parse_field_spec;
use vstd::prelude::*;
use vstd::string::StrSliceExecFns;
use vstd::string::StringExecFns;

pub mod base_index;
pub mod rgb_color;

pub use base_index::BaseIndex;
pub use rgb_color::{RgbColor, RgbColorFormatter};

verus! {

/// Error for a color or index string that is not valid hexadecimal text.
/// It is surfaced while a scheme document is decoded, never while a
/// template field is rendered.
#[derive(Debug, Clone, Copy, PartialEq, Eq, PartialOrd, Ord, Hash)]
pub struct ColorDecodeError;

impl ColorDecodeError {
    /// A short description of the failure.
    pub fn message(&self) -> &'static str {
        "invalid hex color data"
    }
}

/// What `char::to_lowercase` yields for one character. The mapping is
/// fixed by Unicode, independent of locale, so it is a function of the
/// character alone.
pub uninterp spec fn lower_chars_of(c: char) -> Seq<char>;

/// Relies on char::to_lowercase: the lower-case mapping of a character
/// as one or more characters, determined by the character alone.
#[verifier::external_body]
fn char_lower_str(c: char) -> (s: String)
    ensures
        s@ == lower_chars_of(c),
{
    c.to_lowercase().collect()
}

/// The slug of a scheme name: each space becomes a dash, every other
/// character is replaced by its lower-case mapping.
pub open spec fn slug_chars(s: Seq<char>) -> Seq<char>
    decreases s.len(),
{
    if s.len() == 0 {
        Seq::<char>::empty()
    } else {
        slug_chars(s.drop_last()) + (if s.last() == ' ' {
            seq!['-']
        } else {
            lower_chars_of(s.last())
        })
    }
}

/// Create a slug from a scheme name: lower case, with spaces turned
/// into dashes.
pub fn create_slug(scheme_name: &str) -> (r: String)
    ensures
        r@ == slug_chars(scheme_name@),
{
    let n = scheme_name.unicode_len();
    let mut out = String::new();
    let mut i: usize = 0;
    while i < n
        invariant
            n == scheme_name@.len(),
            0 <= i <= n,
            out@ == slug_chars(scheme_name@.subrange(0, i as int)),
        decreases n - i,
    {
        let c = scheme_name.get_char(i);
        if c == ' ' {
            out.append("-");
        } else {
            out.append(char_lower_str(c).as_str());
        }
        proof {
            reveal_strlit("-");
            assert(scheme_name@.subrange(0, i + 1).drop_last() =~= scheme_name@.subrange(
                0,
                i as int,
            ));
        }
        i += 1;
    }
    proof {
        assert(scheme_name@.subrange(0, n as int) =~= scheme_name@);
    }
    out
}

/// The color listed under a key: the first pair holding the key, if any.
pub open spec fn color_at(colors: Seq<(BaseIndex, RgbColor)>, key: u8) -> Option<RgbColor>
    decreases colors.len(),
{
    if colors.len() == 0 {
        None
    } else if colors[0].0.0 == key {
        Some(colors[0].1)
    } else {
        color_at(colors.drop_first(), key)
    }
}

/// Whether the color list is keyed in strictly ascending index order,
/// so that each index occurs at most once and the list order is the
/// order the colors serialize in.
pub open spec fn colors_sorted(colors: Seq<(BaseIndex, RgbColor)>) -> bool {
    forall|i: int, j: int| 0 <= i < j < colors.len() ==> colors[i].0.0 < colors[j].0.0
}

proof fn lemma_color_at_update(s: Seq<(BaseIndex, RgbColor)>, pos: int, p: (BaseIndex, RgbColor), k: u8)
    requires
        0 <= pos < s.len(),
        s[pos].0.0 == p.0.0,
        forall|j: int| 0 <= j < pos ==> s[j].0.0 != p.0.0,
    ensures
        color_at(s.update(pos, p), k) == if k == p.0.0 {
            Some(p.1)
        } else {
            color_at(s, k)
        },
    decreases pos,
{
    let t = s.update(pos, p);
    if pos == 0 {
        if k != p.0.0 {
            assert(t.drop_first() =~= s.drop_first());
        }
    } else {
        assert(t[0] == s[0]);
        assert(t.drop_first() =~= s.drop_first().update(pos - 1, p));
        assert forall|j: int| 0 <= j < pos - 1 implies s.drop_first()[j].0.0 != p.0.0 by {
            assert(s.drop_first()[j] == s[j + 1]);
        }
        lemma_color_at_update(s.drop_first(), pos - 1, p, k);
    }
}

proof fn lemma_color_at_insert(s: Seq<(BaseIndex, RgbColor)>, pos: int, p: (BaseIndex, RgbColor), k: u8)
    requires
        0 <= pos <= s.len(),
        forall|j: int| 0 <= j < s.len() ==> s[j].0.0 != p.0.0,
    ensures
        color_at(s.insert(pos, p), k) == if k == p.0.0 {
            Some(p.1)
        } else {
            color_at(s, k)
        },
    decreases pos,
{
    let t = s.insert(pos, p);
    s.insert_ensures(pos, p);
    if pos == 0 {
        assert(t[0] == p);
        assert(t.drop_first() =~= s);
    } else {
        assert(t[0] == s[0]);
        assert(t.drop_first() =~= s.drop_first().insert(pos - 1, p));
        assert forall|j: int| 0 <= j < s.len() - 1 implies s.drop_first()[j].0.0 != p.0.0 by {
            assert(s.drop_first()[j] == s[j + 1]);
        }
        lemma_color_at_insert(s.drop_first(), pos - 1, p, k);
    }
}

/// A base16 scheme: a name, an author, a derived slug, and colors keyed
/// by index.
///
/// The slug is never read from a document: it starts empty and is
/// filled exactly once from the name, by [`Scheme::create_slug`]. The
/// colors are kept in ascending index order by [`Scheme::insert_color`],
/// which is also the order they serialize in; a scheme with no colors is
/// valid, and looking up an absent index is "not found", not an error.
#[derive(Debug, Clone, PartialEq, Eq, PartialOrd, Ord)]
pub struct Scheme {
    pub scheme: String,
    pub author: String,
    pub slug: String,
    pub colors: Vec<(BaseIndex, RgbColor)>,
}

impl Default for Scheme {
    /// An empty scheme: empty name, author and slug, and no colors.
    fn default() -> (s: Scheme)
        ensures
            s.scheme@ == Seq::<char>::empty(),
            s.author@ == Seq::<char>::empty(),
            s.slug@ == Seq::<char>::empty(),
            s.colors@ == Seq::<(BaseIndex, RgbColor)>::empty(),
    {
        Scheme { scheme: String::new(), author: String::new(), slug: String::new(), colors: Vec::new() }
    }
}

impl Scheme {
    /// The scheme's name.
    pub fn scheme_name(&self) -> (r: &str)
        ensures
            r@ == self.scheme@,
    {
        self.scheme.as_str()
    }

    /// The scheme's slug, as far as it has been derived.
    pub fn scheme_slug(&self) -> (r: &str)
        ensures
            r@ == self.slug@,
    {
        self.slug.as_str()
    }

    /// Fill the slug from the scheme name; every other field is kept.
    ///
    /// See [`create_slug`].
    pub fn create_slug(self) -> (r: Self)
        ensures
            r.scheme == self.scheme,
            r.author == self.author,
            r.colors == self.colors,
            r.slug@ == slug_chars(self.scheme@),
    {
        let slug = create_slug(self.scheme.as_str());
        Scheme { scheme: self.scheme, author: self.author, slug, colors: self.colors }
    }

    /// The scheme's author.
    pub fn scheme_author(&self) -> (r: &str)
        ensures
            r@ == self.author@,
    {
        self.author.as_str()
    }

    /// The text a field name resolves to against this scheme, if any.
    ///
    /// The scheme name and author resolve to themselves. The slug
    /// resolves to the derived slug, or to the literal text
    /// `scheme-slug` while none has been derived — a placeholder kept
    /// for compatibility with existing templates. A color field
    /// resolves to the color rendered under the field's format, or to
    /// nothing if its index is not listed; a name outside the grammar
    /// resolves to nothing.
    pub open spec fn resolved_chars(self, name: Seq<char>) -> Option<Seq<char>> {
        match parse_field_spec(name) {
            TemplateField::SchemeName => Some(self.scheme@),
            TemplateField::SchemeAuthor => Some(self.author@),
            TemplateField::SchemeSlug => Some(
                if self.slug@.len() == 0 {
                    "scheme-slug"@
                } else {
                    self.slug@
                },
            ),
            TemplateField::ColorField(field) => match color_at(self.colors@, field.number) {
                Some(c) => Some(rendered_chars(c, field.format)),
                None => None,
            },
            TemplateField::UnparsableField => None,
        }
    }

    /// Resolve a field name against the scheme: the rendered text for a
    /// recognized, resolvable field, or nothing, which tells the
    /// template engine to treat the field as absent. See
    /// [`Scheme::resolved_chars`] for what each field resolves to.
    pub fn resolve_field(&self, name: &str) -> (r: Option<String>)
        ensures
            r is Some <==> self.resolved_chars(name@) is Some,
            r is Some ==> r->0@ == self.resolved_chars(name@)->0,
    {
        match TemplateField::parse_field(name) {
            TemplateField::SchemeName => Some(self.scheme.clone()),
            TemplateField::SchemeAuthor => Some(self.author.clone()),
            TemplateField::SchemeSlug => if self.slug.as_str().is_empty() {
                Some(String::from_str("scheme-slug"))
            } else {
                Some(self.slug.clone())
            },
            TemplateField::ColorField(field) => match self.color(field) {
                Some(f) => Some(f.render()),
                None => None,
            },
            TemplateField::UnparsableField => None,
        }
    }

    /// Put a color under an index, keeping the ascending key order: an
    /// index already listed has its color replaced, a new index is
    /// inserted at its ordered place. Every other entry, and every
    /// other field of the scheme, is kept.
    pub fn insert_color(&mut self, index: BaseIndex, color: RgbColor)
        requires
            colors_sorted(old(self).colors@),
        ensures
            colors_sorted(final(self).colors@),
            final(self).scheme == old(self).scheme,
            final(self).author == old(self).author,
            final(self).slug == old(self).slug,
            forall|k: u8|
                color_at(final(self).colors@, k) == if k == index.0 {
                    Some(color)
                } else {
                    color_at(old(self).colors@, k)
                },
    {
        let len = self.colors.len();
        let mut pos: usize = 0;
        while pos < len && self.colors[pos].0.0 < index.0
            invariant
                *self == *old(self),
                len == self.colors@.len(),
                0 <= pos <= len,
                forall|j: int| 0 <= j < pos ==> self.colors@[j].0.0 < index.0,
            decreases len - pos,
        {
            pos += 1;
        }
        let ghost before = self.colors@;
        let pair = (index, color);
        if pos < len && self.colors[pos].0.0 == index.0 {
            self.colors[pos] = pair;
            proof {
                assert forall|k: u8|
                    color_at(self.colors@, k) == if k == index.0 {
                        Some(color)
                    } else {
                        color_at(before, k)
                    } by {
                    lemma_color_at_update(before, pos as int, pair, k);
                }
                assert forall|i: int, j: int|
                    0 <= i < j < self.colors@.len() implies self.colors@[i].0.0
                    < self.colors@[j].0.0 by {
                    assert(before[i].0.0 < before[j].0.0);
                }
            }
        } else {
            self.colors.insert(pos, pair);
            proof {
                before.insert_ensures(pos as int, pair);
                assert forall|j: int| 0 <= j < before.len() implies before[j].0.0 != index.0 by {
                    if j > pos {
                        assert(before[pos as int].0.0 < before[j].0.0);
                    }
                }
                assert forall|k: u8|
                    color_at(self.colors@, k) == if k == index.0 {
                        Some(color)
                    } else {
                        color_at(before, k)
                    } by {
                    lemma_color_at_insert(before, pos as int, pair, k);
                }
                assert forall|i: int, j: int|
                    0 <= i < j < self.colors@.len() implies self.colors@[i].0.0
                    < self.colors@[j].0.0 by {
                    if i < pos && j < pos {
                        assert(self.colors@[i] == before[i] && self.colors@[j] == before[j]);
                    } else if i < pos && j == pos {
                        assert(self.colors@[i] == before[i]);
                    } else if i < pos && j > pos {
                        assert(self.colors@[i] == before[i] && self.colors@[j] == before[j - 1]);
                        if j - 1 > i {
                            assert(before[i].0.0 < before[j - 1].0.0);
                        }
                    } else if i == pos && j > pos {
                        assert(self.colors@[j] == before[j - 1]);
                        assert(before[j - 1].0.0 >= before[pos as int].0.0);
                    } else {
                        assert(self.colors@[i] == before[i - 1] && self.colors@[j] == before[j - 1]);
                        assert(before[i - 1].0.0 < before[j - 1].0.0);
                    }
                }
            }
        }
    }

    /// Look the field's index up among the colors and return a
    /// [formatter](RgbColorFormatter) for the color under the field's
    /// format, or nothing if the index is absent.
    pub fn color(&self, field: ColorField) -> (r: Option<RgbColorFormatter>)
        ensures
            r is Some <==> color_at(self.colors@, field.number) is Some,
            r is Some ==> r->0 == (RgbColorFormatter {
                color: color_at(self.colors@, field.number)->0,
                format: field.format,
            }),
    {
        let mut i: usize = 0;
        let len = self.colors.len();
        proof {
            assert(self.colors@.skip(0) =~= self.colors@);
        }
        while i < len
            invariant
                len == self.colors@.len(),
                0 <= i <= len,
                color_at(self.colors@, field.number) == color_at(
                    self.colors@.skip(i as int),
                    field.number,
                ),
            decreases len - i,
        {
            let pair = self.colors[i];
            if pair.0.0 == field.number {
                proof {
                    assert(self.colors@.skip(i as int)[0] == self.colors@[i as int]);
                }
                return Some(RgbColorFormatter { color: pair.1, format: field.format });
            }
            proof {
                assert(self.colors@.skip(i as int).drop_first() =~= self.colors@.skip(i + 1));
            }
            i += 1;
        }
        None
    }
}

} // verus!
