//! A random article: the request for a random title, and the title kept from
//! the reply.
use vstd::prelude::*;
use super::{param, params_view};
use crate::text::string_of;

verus! {

/// The query string that asks for one random article of the main namespace.
pub fn random_params() -> (r: Vec<(String, String)>)
    ensures
        params_view(r@) == seq![
            ("action"@, "query"@),
            ("list"@, "random"@),
            ("rnnamespace"@, "0"@),
            ("rnlimit"@, "1"@),
            ("format"@, "json"@),
        ],
{
    let mut v: Vec<(String, String)> = Vec::new();
    v.push(param("action", "query"));
    v.push(param("list", "random"));
    v.push(param("rnnamespace", "0"));
    v.push(param("rnlimit", "1"));
    v.push(param("format", "json"));
    assert(params_view(v@) =~= seq![
        ("action"@, "query"@),
        ("list"@, "random"@),
        ("rnnamespace"@, "0"@),
        ("rnlimit"@, "1"@),
        ("format"@, "json"@),
    ]);
    v
}

/// The first title of the reply, or the error "no random article returned"
/// when it holds none.
pub fn random_title_from(titles: Vec<String>) -> (r: Result<String, String>)
    ensures
        titles@.len() > 0 ==> (r matches Ok(t) && t == titles@[0]),
        titles@.len() == 0 ==> (r matches Err(e) && e@ == "no random article returned"@),
{
    let mut ts = titles;
    if ts.len() == 0 {
        Err(string_of("no random article returned"))
    } else {
        Ok(ts.remove(0))
    }
}

} // verus!
