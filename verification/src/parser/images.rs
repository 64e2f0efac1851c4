//! Images inside articles: which `src` attributes are shown and the address
//! they are fetched from, and the space an image may take.
use vstd::prelude::*;
use crate::text::{
    concat_chars, contains_seq, contains_str, ends_with_str, has_prefix, has_suffix, starts_with_str,
    string_from_chars, to_chars, trim_chars, trim_seq,
};

verus! {

/// The address an image `src` is fetched from: icons from `/static/images/`,
/// the red pencil and SVG files are not shown; protocol-relative and
/// site-relative addresses are completed for en.wikipedia.org; anything that
/// is neither absolute nor relative is dropped.
pub open spec fn image_url(src: Seq<char>) -> Option<Seq<char>> {
    let clean = trim_seq(src);
    if clean.len() == 0 {
        None
    } else if contains_seq(clean, "/static/images/"@) || contains_seq(clean, "red_pencile.svg"@)
        || has_suffix(clean, ".svg"@) {
        None
    } else if has_prefix(clean, "//"@) {
        Some("https:"@ + clean)
    } else if has_prefix(clean, "http://"@) || has_prefix(clean, "https://"@) {
        Some(clean)
    } else if has_prefix(clean, "/"@) {
        Some("https://en.wikipedia.org"@ + clean)
    } else {
        None
    }
}

/// The address to fetch for an image's `src`, if it is shown.
pub fn normalize_image_url(src: &str) -> (r: Option<String>)
    ensures
        match r {
            Some(u) => image_url(src@) == Some(u@),
            None => image_url(src@) is None,
        },
{
    let cs = to_chars(src);
    let clean = trim_chars(&cs);
    if clean.len() == 0 {
        return None;
    }
    if contains_str(&clean, "/static/images/") || contains_str(&clean, "red_pencile.svg")
        || ends_with_str(&clean, ".svg") {
        return None;
    }
    if starts_with_str(&clean, "//") {
        let pre = to_chars("https:");
        let u = concat_chars(&pre, &clean);
        Some(string_from_chars(&u))
    } else if starts_with_str(&clean, "http://") || starts_with_str(&clean, "https://") {
        Some(string_from_chars(&clean))
    } else if starts_with_str(&clean, "/") {
        let pre = to_chars("https://en.wikipedia.org");
        let u = concat_chars(&pre, &clean);
        Some(string_from_chars(&u))
    } else {
        None
    }
}

/// The most columns and rows an image may take in a text `max_width`
/// columns wide with images limited to `max_image_height` rows: four columns
/// less than the text but at least ten, and at least five rows.
pub fn image_bounds(max_width: usize, max_image_height: usize) -> (r: (usize, usize))
    ensures
        r.0 == (if max_width >= 14 { max_width - 4 } else { 10 }),
        r.1 == (if max_image_height >= 5 { max_image_height } else { 5 }),
{
    let cols = if max_width >= 4 { max_width - 4 } else { 0 };
    let cols = if cols < 10 { 10 } else { cols };
    let rows = if max_image_height < 5 { 5 } else { max_image_height };
    (cols, rows)
}

} // verus!
