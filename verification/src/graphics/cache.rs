//! Names of downloaded image files.
use crate::text::{
    before_char, before_char_exec, hex_fixed, hex_fixed_chars, is_ascii_digit, is_ascii_letter, push_chars,
    rfind, rfind_seq, slice_chars, string_from_chars, string_of, to_chars,
};
use vstd::prelude::*;

verus! {

/// One step of 64-bit FNV-1a.
pub open spec fn fnv1a_step(h: u64, b: u8) -> u64 {
    vstd::wrapping::u64_specs::wrapping_mul(h ^ (b as u64), 0x100000001b3u64)
}

/// 64-bit FNV-1a of `bytes`.
pub open spec fn fnv1a(bytes: Seq<u8>) -> u64
    decreases bytes.len(),
{
    if bytes.len() == 0 {
        0xcbf29ce484222325u64
    } else {
        fnv1a_step(fnv1a(bytes.drop_last()), bytes.last())
    }
}

/// 64-bit FNV-1a of `bytes` as sixteen lower-case hex digits.
pub fn fnv1a_hash_hex(bytes: &[u8]) -> (r: String)
    ensures
        r@ == hex_fixed(fnv1a(bytes@) as nat, 16),
{
    let mut hash: u64 = 0xcbf29ce484222325;
    let mut i: usize = 0;
    while i < bytes.len()
        invariant
            i <= bytes.len(),
            hash == fnv1a(bytes@.take(i as int)),
        decreases bytes.len() - i,
    {
        hash = hash ^ (bytes[i] as u64);
        hash = hash.wrapping_mul(0x100000001b3);
        assert(bytes@.take(i + 1).drop_last() =~= bytes@.take(i as int));
        i += 1;
    }
    assert(bytes@.take(bytes.len() as int) =~= bytes@);
    let digits = hex_fixed_chars(hash, 16);
    string_from_chars(&digits)
}

/// The extension a cached image keeps: what follows the last `.` of the URL
/// without its query, if that is one to four ASCII letters or digits;
/// otherwise `img`.
pub open spec fn image_extension(url: Seq<char>) -> Seq<char> {
    let u = before_char(url, '?');
    let e = match rfind_seq(u, "."@) {
        Some(i) => u.skip(i + 1),
        None => u,
    };
    if short_alnum(e) {
        e
    } else {
        "img"@
    }
}

/// The file name an image from `url` is cached under: the URL's FNV-1a hash
/// in hex, a dot, and its extension.
pub open spec fn image_file_name(url: Seq<char>) -> Seq<char> {
    hex_fixed(fnv1a(vstd::utf8::encode_utf8(url)) as nat, 16) + "."@ + image_extension(url)
}

/// One to four ASCII letters or digits (or none).
pub open spec fn short_alnum(e: Seq<char>) -> bool {
    e.len() <= 4 && forall|k: int| 0 <= k < e.len() ==> is_ascii_letter(#[trigger] e[k]) || is_ascii_digit(e[k])
}

fn short_alnum_exec(e: &Vec<char>) -> (r: bool)
    ensures
        r == short_alnum(e@),
{
    if e.len() > 4 {
        return false;
    }
    let mut k: usize = 0;
    while k < e.len()
        invariant
            k <= e.len(),
            forall|j: int| 0 <= j < k ==> is_ascii_letter(#[trigger] e@[j]) || is_ascii_digit(e@[j]),
        decreases e.len() - k,
    {
        let c = e[k];
        if !(('a' <= c && c <= 'z') || ('A' <= c && c <= 'Z') || ('0' <= c && c <= '9')) {
            return false;
        }
        k += 1;
    }
    true
}

fn image_extension_exec(url: &str) -> (r: Vec<char>)
    ensures
        r@ == image_extension(url@),
{
    let u_all = to_chars(url);
    let u = before_char_exec(&u_all, '?');
    let dot = to_chars(".");
    let e: Vec<char> = match rfind(&u, &dot) {
        Some(i) => {
            proof {
                reveal_strlit(".");
                crate::text::lemma_rfind_before_sound(u@, dot@, u@.len() - dot@.len());
            }
            assert(i < u.len()) by {
                assert(crate::text::occurs_at(u@, dot@, i as int));
            }
            let r = slice_chars(&u, i + 1, u.len());
            assert(r@ =~= u@.skip(i + 1));
            r
        },
        None => u,
    };
    if short_alnum_exec(&e) {
        e
    } else {
        to_chars("img")
    }
}

/// The file name, inside the image cache directory, of the image at `url`.
pub fn image_cache_file_name(url: &str) -> (r: String)
    ensures
        r@ == image_file_name(url@),
{
    let mut name = fnv1a_hash_hex(url.as_bytes());
    let e = image_extension_exec(url);
    let dot = to_chars(".");
    push_chars(&mut name, &dot);
    push_chars(&mut name, &e);
    name
}

/// Where the image at `url` is cached inside `image_cache_dir`.
pub fn image_cache_path(image_cache_dir: &str, url: &str) -> (r: String)
    ensures
        r@ == crate::paths::path_join(image_cache_dir@, image_file_name(url@)),
{
    let name = image_cache_file_name(url);
    crate::paths::join_path(image_cache_dir, name.as_str())
}

/// The cached copy of the image at `url`: its place in `image_cache_dir`
/// when a file is there (`present`, which the caller learns from the file
/// system), else nothing.
pub fn get_cached_image_path(image_cache_dir: &str, url: &str, present: bool) -> (r: Option<String>)
    ensures
        present ==> (r matches Some(p) && p@ == crate::paths::path_join(image_cache_dir@, image_file_name(url@))),
        !present ==> r is None,
{
    if present {
        Some(image_cache_path(image_cache_dir, url))
    } else {
        None
    }
}

} // verus!
