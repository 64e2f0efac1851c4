//! Full-text search: the request and the cleaning of each hit.
use vstd::prelude::*;
use super::{param, params_view, SearchResultItem};
use crate::text::{replace_all, replace_str, string_from_chars, string_of, to_chars};

verus! {

/// A raw hit as the search API returns it; the snippet holds HTML.
#[derive(Debug, Clone)]
pub struct SearchHit {
    pub title: String,
    pub snippet: String,
}

/// The snippet with the match highlighting removed and `&quot;`, `&amp;`
/// decoded, in that order.
pub open spec fn cleaned_snippet(s: Seq<char>) -> Seq<char> {
    replace_all(
        replace_all(
            replace_all(replace_all(s, "<span class=\"searchmatch\">"@, ""@), "</span>"@, ""@),
            "&quot;"@,
            "\""@,
        ),
        "&amp;"@,
        "&"@,
    )
}

/// Removes the highlighting markup of a search snippet.
pub fn clean_snippet(snippet: &str) -> (r: String)
    ensures
        r@ == cleaned_snippet(snippet@),
{
    proof {
        reveal_strlit("<span class=\"searchmatch\">");
        reveal_strlit("</span>");
        reveal_strlit("&quot;");
        reveal_strlit("&amp;");
    }
    let s0 = to_chars(snippet);
    let s1 = replace_str(&s0, "<span class=\"searchmatch\">", "");
    let s2 = replace_str(&s1, "</span>", "");
    let s3 = replace_str(&s2, "&quot;", "\"");
    let s4 = replace_str(&s3, "&amp;", "&");
    string_from_chars(&s4)
}

/// The query string of a search for `query`.
pub fn search_params(query: &str) -> (r: Vec<(String, String)>)
    ensures
        params_view(r@) == seq![
            ("action"@, "query"@),
            ("list"@, "search"@),
            ("srsearch"@, query@),
            ("utf8"@, "1"@),
            ("format"@, "json"@),
            ("srlimit"@, "50"@),
        ],
{
    let mut v: Vec<(String, String)> = Vec::new();
    v.push(param("action", "query"));
    v.push(param("list", "search"));
    v.push(param("srsearch", query));
    v.push(param("utf8", "1"));
    v.push(param("format", "json"));
    v.push(param("srlimit", "50"));
    assert(params_view(v@) =~= seq![
        ("action"@, "query"@),
        ("list"@, "search"@),
        ("srsearch"@, query@),
        ("utf8"@, "1"@),
        ("format"@, "json"@),
        ("srlimit"@, "50"@),
    ]);
    v
}

/// The search results shown for the raw hits: same order, same titles,
/// cleaned snippets.
pub fn search_results_from(hits: Vec<SearchHit>) -> (r: Vec<SearchResultItem>)
    ensures
        r@.len() == hits@.len(),
        forall|i: int|
            0 <= i < hits@.len() ==> (#[trigger] r@[i]).title@ == hits@[i].title@
                && r@[i].snippet@ == cleaned_snippet(hits@[i].snippet@),
{
    let mut out: Vec<SearchResultItem> = Vec::new();
    let mut i: usize = 0;
    while i < hits.len()
        invariant
            i <= hits.len(),
            out@.len() == i,
            forall|j: int|
                0 <= j < i ==> (#[trigger] out@[j]).title@ == hits@[j].title@
                    && out@[j].snippet@ == cleaned_snippet(hits@[j].snippet@),
        decreases hits.len() - i,
    {
        let title = string_of(hits[i].title.as_str());
        let snippet = clean_snippet(hits[i].snippet.as_str());
        out.push(SearchResultItem { title, snippet });
        i += 1;
    }
    out
}

} // verus!
