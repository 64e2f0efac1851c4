//! Elements that add something of their own while an article is read:
//! headings (recorded for the table of contents, optionally marked) and
//! images (a bracketed label that leads to the picture).
use super::blocks::{token_view, tokens_view, TextToken};
use super::entities::{decode_entities, decode_html_entities};
use super::html::{inner_text, HtmlDom, TagAttrs};
use super::types::{Heading, ParsedDocument};
use super::utils::{extract_title_from_href, href_target};
use crate::text::{
    contains_seq, contains_str, has_prefix, opt_view, push_chars, push_str, starts_with_str,
    string_from_chars, string_of, to_chars, trim_chars, trim_seq,
};
use vstd::prelude::*;

verus! {

/// A heading as plain values: title, level, line.
pub open spec fn heading_view(h: Heading) -> (Seq<char>, u8, usize) {
    (h.title@, h.level, h.line_idx)
}

/// Headings as plain values.
pub open spec fn headings_view(hs: Seq<Heading>) -> Seq<(Seq<char>, u8, usize)> {
    hs.map_values(|h: Heading| heading_view(h))
}

/// The level a heading tag's name gives: its second character as a digit,
/// else 1.
pub open spec fn heading_level(name: Seq<char>) -> u8 {
    if name.len() > 1 && '0' <= name[1] && name[1] <= '9' {
        (name[1] as u32 - '0' as u32) as u8
    } else {
        1
    }
}

/// The heading a heading tag records: its decoded, trimmed text, if any.
pub open spec fn heading_title(d: HtmlDom, i: int) -> Seq<char> {
    trim_seq(decode_entities(inner_text(d, i, d.nodes@.len())))
}

/// The mark put before a heading's text.
pub open spec fn heading_mark() -> Seq<char> {
    "▍"@
}

/// Records heading `i` (named `name`) at the next line of `doc` when its
/// text is not empty, and puts the heading mark in `tokens` when
/// `heading_marker`.
pub fn handle_heading_tag(
    dom: &HtmlDom,
    i: usize,
    name: &str,
    doc: &mut ParsedDocument,
    tokens: &mut Vec<TextToken>,
    heading_marker: bool,
)
    ensures
        ({
            let t = heading_title(*dom, i as int);
            &&& headings_view(final(doc).headings@) == if t.len() > 0 {
                headings_view(old(doc).headings@).push((t, heading_level(name@), old(doc).lines@.len() as usize))
            } else {
                headings_view(old(doc).headings@)
            }
        }),
        final(doc).lines@ == old(doc).lines@,
        final(doc).links@ == old(doc).links@,
        final(doc).reference_targets@ == old(doc).reference_targets@,
        tokens_view(final(tokens)@) == if heading_marker {
            tokens_view(old(tokens)@).push((heading_mark(), None))
        } else {
            tokens_view(old(tokens)@)
        },
{
    let n = to_chars(name);
    let level: u8 = if n.len() > 1 && '0' <= n[1] && n[1] <= '9' {
        (n[1] as u32 - '0' as u32) as u8
    } else {
        1
    };
    let raw = dom.inner_text(i);
    let decoded = decode_html_entities(raw.as_str());
    let title = trim_chars(&to_chars(decoded.as_str()));
    if title.len() > 0 {
        let h = Heading { title: string_from_chars(&title), level, line_idx: doc.lines.len() };
        let ghost before = doc.headings@;
        doc.headings.push(h);
        assert(headings_view(doc.headings@) =~= headings_view(before).push(heading_view(h)));
    }
    if heading_marker {
        let t = TextToken { text: string_of("▍"), link_target: None };
        let ghost before = tokens@;
        tokens.push(t);
        assert(tokens_view(tokens@) =~= tokens_view(before).push(token_view(t)));
    }
}

/// The alternative text of an image: `alt`, else `title`, decoded, else
/// `image`.
pub open spec fn image_alt(a: TagAttrs) -> Seq<char> {
    match a.alt {
        Some(v) => decode_entities(v@),
        None => match a.title {
            Some(v) => decode_entities(v@),
            None => "image"@,
        },
    }
}

/// The image is a fallback rendering of a formula.
pub open spec fn is_formula_image(a: TagAttrs) -> bool {
    let alt = trim_seq(image_alt(a));
    ||| (a.class matches Some(c) && contains_seq(c@, "mwe-math"@))
    ||| contains_seq(alt, "\\displaystyle"@)
    ||| contains_seq(alt, "\\textstyle"@)
    ||| has_prefix(alt, "{\\"@)
}

/// Where an image label leads: the picture's source (`//` as `https:`, an
/// `http` URL as it stands, else what the source resolves to as a link),
/// else the link the image stands in.
pub open spec fn image_target(a: TagAttrs, link: Option<Seq<char>>) -> Option<Seq<char>> {
    let from_src = match a.src {
        Some(src) => if has_prefix(src@, "//"@) {
            Some("https:"@ + src@)
        } else if has_prefix(src@, "http"@) {
            Some(src@)
        } else {
            href_target(src@)
        },
        None => None,
    };
    match from_src {
        Some(t) => Some(t),
        None => link,
    }
}

/// The label an image shows: `[image]`, or `[image: alt]`, padded by spaces.
pub open spec fn image_label(a: TagAttrs) -> Seq<char> {
    let alt = trim_seq(image_alt(a));
    if alt.len() == 0 {
        " [image] "@
    } else {
        " [image: "@ + alt + "] "@
    }
}

/// The token an `<img>` with these attributes adds inside link `link`:
/// none for a formula's fallback image, else its label leading to the
/// picture.
pub fn handle_img_tag(attrs: &TagAttrs, current_link: &Option<String>) -> (r: Option<TextToken>)
    ensures
        is_formula_image(*attrs) ==> r is None,
        !is_formula_image(*attrs) ==> (r matches Some(t) && token_view(t) == (
            image_label(*attrs),
            image_target(*attrs, opt_view(*current_link)),
        )),
{
    let is_math = match &attrs.class {
        Some(c) => contains_str(&to_chars(c.as_str()), "mwe-math"),
        None => false,
    };
    let alt_text = match &attrs.alt {
        Some(v) => decode_html_entities(v.as_str()),
        None => match &attrs.title {
            Some(v) => decode_html_entities(v.as_str()),
            None => string_of("image"),
        },
    };
    let clean = trim_chars(&to_chars(alt_text.as_str()));
    let is_latex = contains_str(&clean, "\\displaystyle") || contains_str(&clean, "\\textstyle")
        || starts_with_str(&clean, "{\\");
    if is_math || is_latex {
        return None;
    }
    let label = if clean.len() == 0 {
        string_of(" [image] ")
    } else {
        let mut l = string_of(" [image: ");
        push_chars(&mut l, &clean);
        push_str(&mut l, "] ");
        l
    };
    let from_src: Option<String> = match &attrs.src {
        Some(src) => {
            let sc = to_chars(src.as_str());
            if starts_with_str(&sc, "//") {
                let mut u = string_of("https:");
                push_str(&mut u, src.as_str());
                Some(u)
            } else if starts_with_str(&sc, "http") {
                Some(src.clone())
            } else {
                extract_title_from_href(src.as_str())
            }
        },
        None => None,
    };
    let target = match from_src {
        Some(t) => Some(t),
        None => current_link.clone(),
    };
    let t = TextToken { text: label, link_target: target };
    assert(token_view(t).1 == image_target(*attrs, opt_view(*current_link)));
    Some(t)
}

} // verus!
