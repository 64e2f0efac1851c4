//! Plain records a parsed article is made of.
use crate::text::{has_prefix, starts_with_str, strs_view, to_chars};
use vstd::prelude::*;

verus! {

/// A section heading and the rendered line it starts on.
#[derive(Debug, Clone, PartialEq)]
pub struct Heading {
    pub title: String,
    pub level: u8,
    pub line_idx: usize,
}

/// A followable link: its target, its text, and the `(line, span)` positions
/// of the rendered pieces that carry it.
#[derive(Debug, Clone, PartialEq)]
pub struct Link {
    pub title: String,
    pub text: String,
    pub span_indices: Vec<(usize, usize)>,
}

/// A target outside the wiki.
pub open spec fn is_external_target(t: Seq<char>) -> bool {
    has_prefix(t, "http://"@) || has_prefix(t, "https://"@) || has_prefix(t, "//"@)
}

/// A target that is a footnote anchor.
pub open spec fn is_citation_target(t: Seq<char>) -> bool {
    has_prefix(t, "#cite_note"@) || has_prefix(t, "#cite_ref"@) || has_prefix(t, "cite_note"@)
        || has_prefix(t, "cite_ref"@)
}

impl Link {
    /// The link leaves the wiki (`http://`, `https://` or protocol-relative).
    pub fn is_external(&self) -> (r: bool)
        ensures
            r == is_external_target(self.title@),
    {
        let t = to_chars(self.title.as_str());
        starts_with_str(&t, "http://") || starts_with_str(&t, "https://") || starts_with_str(&t, "//")
    }

    /// The link points at a footnote or at a citation back-reference.
    pub fn is_citation(&self) -> (r: bool)
        ensures
            r == is_citation_target(self.title@),
    {
        let t = to_chars(self.title.as_str());
        starts_with_str(&t, "#cite_note") || starts_with_str(&t, "#cite_ref") || starts_with_str(
            &t,
            "cite_note",
        ) || starts_with_str(&t, "cite_ref")
    }
}

/// One recording of a spoken article.
#[derive(Debug, Clone, PartialEq)]
pub struct AudioTrack {
    pub title: String,
    pub url: String,
}

/// The spoken-article recordings an article offers.
#[derive(Debug, Clone, PartialEq)]
pub struct SpokenAudio {
    pub title: String,
    pub duration: Option<String>,
    pub tracks: Vec<AudioTrack>,
}

/// What the reader logic needs of a rendered article: the text of the pieces
/// of each line, the links, the headings, and the line each footnote anchor
/// is rendered on; and each line's text in lower case, for in-page search.
#[derive(Debug, Clone)]
pub struct ParsedDocument {
    pub lines: Vec<Vec<String>>,
    pub links: Vec<Link>,
    pub headings: Vec<Heading>,
    pub reference_targets: Vec<(String, usize)>,
    pub plain_text_lower: Vec<String>,
}

impl Default for ParsedDocument {
    /// A document with nothing in it.
    fn default() -> (r: Self)
        ensures
            r.lines@.len() == 0,
            r.links@.len() == 0,
            r.headings@.len() == 0,
            r.reference_targets@.len() == 0,
            r.plain_text_lower@.len() == 0,
    {
        ParsedDocument {
            lines: Vec::new(),
            links: Vec::new(),
            headings: Vec::new(),
            reference_targets: Vec::new(),
            plain_text_lower: Vec::new(),
        }
    }
}

/// The text of a rendered line, piece by piece.
pub open spec fn line_view(l: Vec<String>) -> Seq<Seq<char>> {
    strs_view(l@)
}

/// The text of rendered lines.
pub open spec fn lines_view(ls: Seq<Vec<String>>) -> Seq<Seq<Seq<char>>> {
    ls.map_values(|l: Vec<String>| line_view(l))
}

/// A link as plain values: target, text, piece positions.
pub open spec fn link_view(l: Link) -> (Seq<char>, Seq<char>, Seq<(usize, usize)>) {
    (l.title@, l.text@, l.span_indices@)
}

/// Links as plain values.
pub open spec fn links_view(ls: Seq<Link>) -> Seq<(Seq<char>, Seq<char>, Seq<(usize, usize)>)> {
    ls.map_values(|l: Link| link_view(l))
}

} // verus!
