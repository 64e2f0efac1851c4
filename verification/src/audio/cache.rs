//! File names under which downloaded recordings are kept.
use crate::text::{
    char_is_alphanumeric, find_char, first_index_of, rfind, rfind_seq, slice_chars, string_from_chars,
    string_of, to_chars, unicode_alphanumeric,
};
use vstd::prelude::*;

verus! {

/// The last path segment of a URL without its query, or `track.ogg` for a
/// URL with no `/`.
pub open spec fn url_file_part(url: Seq<char>) -> Seq<char> {
    match rfind_seq(url, "/"@) {
        Some(idx) => {
            let name = url.skip(idx + 1);
            match first_index_of(name, '?') {
                Some(q) => name.take(q),
                None => name,
            }
        },
        None => "track.ogg"@,
    }
}

/// Characters kept in a cached file name; any other becomes `_`.
pub open spec fn file_safe_char(c: char) -> char {
    if unicode_alphanumeric(c) || c == '.' || c == '-' || c == '_' {
        c
    } else {
        '_'
    }
}

/// The cache file name for a recording's URL.
pub open spec fn audio_file_name(url: Seq<char>) -> Seq<char> {
    let s = url_file_part(url).map_values(|c: char| file_safe_char(c));
    if s.len() == 0 {
        "track.ogg"@
    } else {
        s
    }
}

/// A file name for caching the recording at `url`: its last path segment
/// without the query, with unsafe characters as `_`; `track.ogg` when that is
/// empty.
pub fn safe_audio_filename(url: &str) -> (r: String)
    ensures
        r@ == audio_file_name(url@),
{
    let u = to_chars(url);
    let slash = to_chars("/");
    let base: Vec<char> = match rfind(&u, &slash) {
        Some(idx) => {
            proof {
                reveal_strlit("/");
                crate::text::lemma_rfind_before_sound(u@, slash@, u@.len() - slash@.len());
            }
            assert(idx < u.len()) by {
                assert(crate::text::occurs_at(u@, slash@, idx as int));
            }
            let name = slice_chars(&u, idx + 1, u.len());
            assert(name@ =~= u@.skip(idx + 1));
            match find_char(&name, '?') {
                Some(q) => slice_chars(&name, 0, q),
                None => name,
            }
        },
        None => to_chars("track.ogg"),
    };
    let mut out: Vec<char> = Vec::new();
    let mut i: usize = 0;
    while i < base.len()
        invariant
            i <= base.len(),
            out@ == base@.take(i as int).map_values(|c: char| file_safe_char(c)),
        decreases base.len() - i,
    {
        let c = base[i];
        let keep = char_is_alphanumeric(c) || c == '.' || c == '-' || c == '_';
        out.push(if keep { c } else { '_' });
        assert(base@.take(i + 1).map_values(|c: char| file_safe_char(c)) =~= base@.take(i as int).map_values(
            |c: char| file_safe_char(c),
        ).push(file_safe_char(c)));
        i += 1;
    }
    assert(base@.take(base.len() as int) =~= base@);
    assert(base@ == url_file_part(url@));
    if out.len() == 0 {
        string_of("track.ogg")
    } else {
        string_from_chars(&out)
    }
}

} // verus!
