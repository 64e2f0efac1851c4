//! Fetching an article's HTML: the request, the cache file name, and what
//! counts as a usable reply.
use vstd::prelude::*;
use super::{param, params_view};
use crate::parser::utils::{url_decode, url_decoded};
use crate::paths::{join_path, path_join, DirEnv};
use crate::text::{
    all_ws, char_is_alphanumeric, hex_fixed, hex_fixed_chars, is_all_whitespace, push_chars,
    push_str, replace_char, replace_char_seq, string_from_chars, string_of, to_chars,
    unicode_alphanumeric,
};

verus! {

/// The hash that `DefaultHasher::new()` gives for a string fed through
/// `Hash for str`. It depends on the characters alone.
pub uninterp spec fn title_hash(title: Seq<char>) -> u64;

/// `DefaultHasher::new()`, `str::hash` into it, then `Hasher::finish`. The
/// value is named, not spelled out: the hasher's algorithm is std's.
#[verifier::external_body]
fn hash_title(title: &str) -> (r: u64)
    ensures
        r == title_hash(title@),
{
    let mut hasher = std::collections::hash_map::DefaultHasher::new();
    std::hash::Hash::hash(title, &mut hasher);
    std::hash::Hasher::finish(&hasher)
}

/// Letters, digits, `_` and `-` stay; every other character becomes `_`.
pub open spec fn file_name_char(c: char) -> char {
    if unicode_alphanumeric(c) || c == '_' || c == '-' {
        c
    } else {
        '_'
    }
}

pub open spec fn file_safe(title: Seq<char>) -> Seq<char> {
    title.map_values(|c: char| file_name_char(c))
}

/// `<safe title>_<16 hex digits of the title's hash>.html`.
pub open spec fn article_file_name(title: Seq<char>) -> Seq<char> {
    file_safe(title) + "_"@ + hex_fixed(title_hash(title) as nat, 16) + ".html"@
}

/// The directory of cached articles: `$XDG_CACHE_HOME/wikid/articles`, else
/// `$HOME/.cache/wikid/articles`, else `.cache/wikid/articles`. A variable
/// counts here whenever it is set.
pub open spec fn article_cache_dir(env: DirEnv) -> Seq<char> {
    match env.xdg_cache_home {
        Some(x) => path_join(path_join(x@, "wikid"@), "articles"@),
        None => match env.home {
            Some(h) => path_join(path_join(path_join(h@, ".cache"@), "wikid"@), "articles"@),
            None => ".cache/wikid/articles"@,
        },
    }
}

/// The directory of cached articles.
pub fn cache_dir(env: &DirEnv) -> (r: String)
    ensures
        r@ == article_cache_dir(*env),
{
    match &env.xdg_cache_home {
        Some(x) => {
            let a = join_path(x.as_str(), "wikid");
            join_path(a.as_str(), "articles")
        },
        None => match &env.home {
            Some(h) => {
                let a = join_path(h.as_str(), ".cache");
                let b = join_path(a.as_str(), "wikid");
                join_path(b.as_str(), "articles")
            },
            None => string_of(".cache/wikid/articles"),
        },
    }
}

/// The file name under which an article's HTML is cached.
pub fn article_cache_file_name(title: &str) -> (r: String)
    ensures
        r@ == article_file_name(title@),
{
    let cs = to_chars(title);
    let mut safe: Vec<char> = Vec::new();
    let mut i: usize = 0;
    while i < cs.len()
        invariant
            i <= cs.len(),
            cs@ == title@,
            safe@ == file_safe(cs@.take(i as int)),
        decreases cs.len() - i,
    {
        let c = cs[i];
        let keep = char_is_alphanumeric(c) || c == '_' || c == '-';
        safe.push(if keep { c } else { '_' });
        assert(file_safe(cs@.take(i + 1)) =~= file_safe(cs@.take(i as int)).push(file_name_char(c)));
        i += 1;
    }
    assert(cs@.take(cs.len() as int) =~= cs@);
    let hash = hash_title(title);
    let mut out = string_from_chars(&safe);
    push_str(&mut out, "_");
    let hex = hex_fixed_chars(hash, 16);
    push_chars(&mut out, &hex);
    push_str(&mut out, ".html");
    out
}

/// The cache file of an article: its file name in `cache_dir`.
pub fn cache_file_path(cache_dir: &str, title: &str) -> (r: String)
    ensures
        r@ == path_join(cache_dir@, article_file_name(title@)),
{
    let name = article_cache_file_name(title);
    join_path(cache_dir, name.as_str())
}

/// The page name asked for: the link target percent-decoded, with
/// underscores read as spaces.
pub open spec fn query_title(title: Seq<char>) -> Seq<char> {
    replace_char_seq(url_decoded(title), '_', ' ')
}

/// The page name to request for a link target.
pub fn article_query_title(title: &str) -> (r: String)
    ensures
        r@ == query_title(title@),
{
    let d = url_decode(title);
    let cs = to_chars(d.as_str());
    let spaced = replace_char(&cs, '_', ' ');
    string_from_chars(&spaced)
}

/// The query string that asks for the rendered HTML of `title`.
pub fn article_params(title: &str) -> (r: Vec<(String, String)>)
    ensures
        params_view(r@) == seq![
            ("action"@, "parse"@),
            ("page"@, query_title(title@)),
            ("prop"@, "text"@),
            ("format"@, "json"@),
            ("disableeditsection"@, "1"@),
            ("disabletoc"@, "1"@),
            ("redirects"@, "1"@),
        ],
{
    let page = article_query_title(title);
    let mut v: Vec<(String, String)> = Vec::new();
    v.push(param("action", "parse"));
    v.push(param("page", page.as_str()));
    v.push(param("prop", "text"));
    v.push(param("format", "json"));
    v.push(param("disableeditsection", "1"));
    v.push(param("disabletoc", "1"));
    v.push(param("redirects", "1"));
    assert(params_view(v@) =~= seq![
        ("action"@, "parse"@),
        ("page"@, query_title(title@)),
        ("prop"@, "text"@),
        ("format"@, "json"@),
        ("disableeditsection"@, "1"@),
        ("disabletoc"@, "1"@),
        ("redirects"@, "1"@),
    ]);
    v
}

/// The article HTML if the reply held some that is not blank, else the
/// error "article HTML content not found".
pub fn article_html_from(html: Option<String>) -> (r: Result<String, String>)
    ensures
        match html {
            Some(h) => if all_ws(h@) {
                r matches Err(e) && e@ == "article HTML content not found"@
            } else {
                r matches Ok(s) && s@ == h@
            },
            None => r matches Err(e) && e@ == "article HTML content not found"@,
        },
{
    match html {
        Some(h) => {
            let cs = to_chars(h.as_str());
            if is_all_whitespace(&cs) {
                Err(string_of("article HTML content not found"))
            } else {
                Ok(h)
            }
        },
        None => Err(string_of("article HTML content not found")),
    }
}

} // verus!
