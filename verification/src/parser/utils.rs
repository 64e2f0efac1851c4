//! Percent-decoding and the resolution of an `href` to an article title.
use crate::text::{
    before_char, before_char_exec, chars_eq_str, concat_chars, ends_with_str, find, find_char,
    find_seq, first_index_of, has_prefix, has_suffix, replace_char, replace_char_seq, skip_chars,
    slice_chars, starts_with_str, string_from_chars, string_from_utf8_lossy, to_chars, trim_chars,
    trim_seq, utf8_lossy,
};
use vstd::prelude::*;

verus! {

/// The value of an ASCII hexadecimal digit, if `b` is one.
pub open spec fn hex_value(b: u8) -> Option<u8> {
    if 48 <= b <= 57 {
        Some((b - 48) as u8)
    } else if 97 <= b <= 102 {
        Some((b - 87) as u8)
    } else if 65 <= b <= 70 {
        Some((b - 55) as u8)
    } else {
        None
    }
}

/// What `u8::from_str_radix(.., 16)` gives for the two bytes after a `%`:
/// an optional `+` sign followed by hexadecimal digits.
pub open spec fn hex_pair(b1: u8, b2: u8) -> Option<u8> {
    match (hex_value(b1), hex_value(b2)) {
        (Some(h), Some(l)) => Some((h * 16 + l) as u8),
        (None, Some(l)) => if b1 == 43 { Some(l) } else { None },
        _ => None,
    }
}

/// Percent-decoding of a byte string: `%XY` with two hex digits (or `%+X`)
/// becomes the byte `0xXY`, `+` becomes a space, every other byte stays.
pub open spec fn percent_decode_bytes(b: Seq<u8>) -> Seq<u8>
    decreases b.len(),
{
    if b.len() == 0 {
        seq![]
    } else if b[0] == 37 && b.len() > 2 && hex_pair(b[1], b[2]) is Some {
        seq![hex_pair(b[1], b[2])->0] + percent_decode_bytes(b.skip(3))
    } else if b[0] == 43 {
        seq![32u8] + percent_decode_bytes(b.skip(1))
    } else {
        seq![b[0]] + percent_decode_bytes(b.skip(1))
    }
}

/// The text `url_decode` returns for `s`.
pub open spec fn url_decoded(s: Seq<char>) -> Seq<char> {
    utf8_lossy(percent_decode_bytes(vstd::utf8::encode_utf8(s)))
}

fn hex_value_exec(b: u8) -> (r: Option<u8>)
    ensures
        r == hex_value(b),
{
    if 48 <= b && b <= 57 {
        Some(b - 48)
    } else if 97 <= b && b <= 102 {
        Some(b - 87)
    } else if 65 <= b && b <= 70 {
        Some(b - 55)
    } else {
        None
    }
}

fn hex_pair_exec(b1: u8, b2: u8) -> (r: Option<u8>)
    ensures
        r == hex_pair(b1, b2),
{
    match (hex_value_exec(b1), hex_value_exec(b2)) {
        (Some(h), Some(l)) => Some(h * 16 + l),
        (None, Some(l)) => if b1 == 43 { Some(l) } else { None },
        _ => None,
    }
}

/// Percent-decodes the bytes of `s`.
pub fn percent_decode(b: &[u8]) -> (r: Vec<u8>)
    ensures
        r@ == percent_decode_bytes(b@),
{
    let mut out: Vec<u8> = Vec::new();
    let mut i: usize = 0;
    assert(b@.skip(0) =~= b@);
    assert(out@ + percent_decode_bytes(b@) =~= percent_decode_bytes(b@));
    while i < b.len()
        invariant
            i <= b.len(),
            percent_decode_bytes(b@) == out@ + percent_decode_bytes(b@.skip(i as int)),
        decreases b.len() - i,
    {
        let ghost rest = b@.skip(i as int);
        let ghost old_out = out@;
        if b[i] == 37 && 2 < b.len() - i {
            assert(rest[1] == b@[i + 1] && rest[2] == b@[i + 2]);
            if let Some(v) = hex_pair_exec(b[i + 1], b[i + 2]) {
                out.push(v);
                assert(rest.skip(3) =~= b@.skip(i + 3));
                assert(old_out + (seq![v] + percent_decode_bytes(rest.skip(3))) =~= out@
                    + percent_decode_bytes(b@.skip(i + 3)));
                i += 3;
                continue;
            }
        }
        if b[i] == 43 {
            out.push(32);
        } else {
            out.push(b[i]);
        }
        assert(rest.skip(1) =~= b@.skip(i + 1));
        assert(rest[0] == b@[i as int]);
        assert(old_out + (seq![out@.last()] + percent_decode_bytes(rest.skip(1))) =~= out@
            + percent_decode_bytes(b@.skip(i + 1)));
        i += 1;
    }
    assert(b@.skip(b.len() as int) =~= Seq::<u8>::empty());
    assert(out@ + Seq::<u8>::empty() =~= out@);
    out
}

/// Decodes `%XY` escapes and `+` in a URL component; byte sequences that are
/// not UTF-8 become replacement characters.
pub fn url_decode(s: &str) -> (r: String)
    ensures
        r@ == url_decoded(s@),
        vstd::utf8::valid_utf8(percent_decode_bytes(vstd::utf8::encode_utf8(s@))) ==> r@ == vstd::utf8::decode_utf8(
            percent_decode_bytes(vstd::utf8::encode_utf8(s@)),
        ),
{
    let bytes = percent_decode(s.as_bytes());
    string_from_utf8_lossy(bytes.as_slice())
}


/// Namespaces whose pages are not articles.
pub open spec fn is_non_article_namespace(p: Seq<char>) -> bool {
    ||| p == "Special"@
    ||| p == "File"@
    ||| p == "Category"@
    ||| p == "Help"@
    ||| p == "Wikipedia"@
    ||| p == "Template"@
    ||| p == "User"@
    ||| p == "Talk"@
    ||| p == "Portal"@
    ||| p == "Draft"@
    ||| p == "MediaWiki"@
    ||| p == "Media"@
    ||| has_suffix(p, "_talk"@)
}

/// The path of a link into the English Wikipedia, after the prefix that
/// marks it as one.
pub open spec fn wiki_path(t: Seq<char>) -> Option<Seq<char>> {
    if has_prefix(t, "/wiki/"@) {
        Some(t.skip("/wiki/"@.len() as int))
    } else if has_prefix(t, "./"@) {
        Some(t.skip("./"@.len() as int))
    } else if has_prefix(t, "https://en.wikipedia.org/wiki/"@) {
        Some(t.skip("https://en.wikipedia.org/wiki/"@.len() as int))
    } else if has_prefix(t, "http://en.wikipedia.org/wiki/"@) {
        Some(t.skip("http://en.wikipedia.org/wiki/"@.len() as int))
    } else if has_prefix(t, "//en.wikipedia.org/wiki/"@) {
        Some(t.skip("//en.wikipedia.org/wiki/"@.len() as int))
    } else {
        match find_seq(t, "/w/index.php?title="@) {
            Some(i) => Some(t.skip(i + "/w/index.php?title="@.len())),
            None => None,
        }
    }
}

/// The raw title in a wiki path: before any `#` fragment and `&` parameter.
pub open spec fn raw_title_of(path: Seq<char>) -> Seq<char> {
    before_char(before_char(path, '#'), '&')
}

/// The raw title names a page outside the article namespace.
pub open spec fn names_other_namespace(raw: Seq<char>) -> bool {
    match first_index_of(raw, ':') {
        Some(i) => is_non_article_namespace(raw.take(i)),
        None => false,
    }
}

/// The readable title of a raw title: percent-decoded, underscores as
/// spaces, trimmed.
pub open spec fn clean_title(raw: Seq<char>) -> Seq<char> {
    trim_seq(replace_char_seq(url_decoded(raw), '_', ' '))
}

/// The target of an external link, protocol-relative ones as `https:`.
pub open spec fn external_target(t: Seq<char>) -> Option<Seq<char>> {
    if has_prefix(t, "//"@) {
        Some("https:"@ + t)
    } else if has_prefix(t, "http://"@) || has_prefix(t, "https://"@) {
        Some(t)
    } else {
        None
    }
}

/// What a link's `href` points at: a footnote anchor, an article title, an
/// external URL, or nothing the reader follows.
pub open spec fn href_target(href: Seq<char>) -> Option<Seq<char>> {
    let t = trim_seq(href);
    if t.len() == 0 {
        None
    } else if has_prefix(t, "#"@) {
        let anchor = t.skip(1);
        if has_prefix(anchor, "cite_note"@) || has_prefix(anchor, "cite_ref"@) {
            Some(t)
        } else {
            None
        }
    } else {
        match wiki_path(t) {
            Some(path) => {
                let raw = raw_title_of(path);
                if names_other_namespace(raw) {
                    None
                } else if clean_title(raw).len() > 0 {
                    Some(clean_title(raw))
                } else {
                    external_target(t)
                }
            },
            None => external_target(t),
        }
    }
}

fn wiki_path_exec(t: &Vec<char>) -> (r: Option<Vec<char>>)
    ensures
        r matches Some(p) ==> wiki_path(t@) == Some(p@),
        r is None ==> wiki_path(t@) is None,
{
    if starts_with_str(t, "/wiki/") {
        let n = to_chars("/wiki/").len();
        return Some(skip_chars(t, n));
    }
    if starts_with_str(t, "./") {
        let n = to_chars("./").len();
        return Some(skip_chars(t, n));
    }
    if starts_with_str(t, "https://en.wikipedia.org/wiki/") {
        let n = to_chars("https://en.wikipedia.org/wiki/").len();
        return Some(skip_chars(t, n));
    }
    if starts_with_str(t, "http://en.wikipedia.org/wiki/") {
        let n = to_chars("http://en.wikipedia.org/wiki/").len();
        return Some(skip_chars(t, n));
    }
    if starts_with_str(t, "//en.wikipedia.org/wiki/") {
        let n = to_chars("//en.wikipedia.org/wiki/").len();
        return Some(skip_chars(t, n));
    }
    let pat = to_chars("/w/index.php?title=");
    let found = find(t, &pat);
    match found {
        Some(i) => {
            proof {
                assert(find_seq(t@, pat@) == Some(i as int));
                crate::text::lemma_find_from_sound(t@, pat@, 0);
                assert(crate::text::occurs_at(t@, pat@, i as int));
                assert(i + pat@.len() <= t@.len());
            }
            let n = pat.len();
            assert(i + n <= t.len());
            Some(skip_chars(t, i + n))
        },
        None => None,
    }
}

fn is_non_article_namespace_exec(p: &Vec<char>) -> (r: bool)
    ensures
        r == is_non_article_namespace(p@),
{
    chars_eq_str(p, "Special") || chars_eq_str(p, "File") || chars_eq_str(p, "Category")
        || chars_eq_str(p, "Help") || chars_eq_str(p, "Wikipedia") || chars_eq_str(p, "Template")
        || chars_eq_str(p, "User") || chars_eq_str(p, "Talk") || chars_eq_str(p, "Portal")
        || chars_eq_str(p, "Draft") || chars_eq_str(p, "MediaWiki") || chars_eq_str(p, "Media")
        || ends_with_str(p, "_talk")
}

fn external_target_exec(t: &Vec<char>) -> (r: Option<Vec<char>>)
    ensures
        r matches Some(u) ==> external_target(t@) == Some(u@),
        r is None ==> external_target(t@) is None,
{
    if starts_with_str(t, "//") {
        let head = to_chars("https:");
        Some(concat_chars(&head, t))
    } else if starts_with_str(t, "http://") || starts_with_str(t, "https://") {
        Some(slice_chars(t, 0, t.len()))
    } else {
        None
    }
}

/// Resolves a link's `href` to what the reader opens: `#cite_note`/`#cite_ref`
/// anchors as they stand, English-Wikipedia article paths as a clean title
/// (pages of other namespaces give `None`), and external URLs in full.
pub fn extract_title_from_href(href: &str) -> (r: Option<String>)
    ensures
        r matches Some(t) ==> href_target(href@) == Some(t@),
        r is None ==> href_target(href@) is None,
{
    let h = to_chars(href);
    let t = trim_chars(&h);
    if t.len() == 0 {
        return None;
    }
    if starts_with_str(&t, "#") {
        let anchor = skip_chars(&t, 1);
        if starts_with_str(&anchor, "cite_note") || starts_with_str(&anchor, "cite_ref") {
            return Some(string_from_chars(&t));
        }
        return None;
    }
    if let Some(path) = wiki_path_exec(&t) {
        let raw1 = before_char_exec(&path, '#');
        let raw = before_char_exec(&raw1, '&');
        if let Some(ci) = find_char(&raw, ':') {
            let prefix = slice_chars(&raw, 0, ci);
            assert(prefix@ == raw@.take(ci as int));
            if is_non_article_namespace_exec(&prefix) {
                return None;
            }
        }
        let raw_str = string_from_chars(&raw);
        let decoded = url_decode(raw_str.as_str());
        let decoded_chars = to_chars(decoded.as_str());
        let spaced = replace_char(&decoded_chars, '_', ' ');
        let cleaned = trim_chars(&spaced);
        if cleaned.len() > 0 {
            return Some(string_from_chars(&cleaned));
        }
    }
    match external_target_exec(&t) {
        Some(u) => Some(string_from_chars(&u)),
        None => None,
    }
}

} // verus!
