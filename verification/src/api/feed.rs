//! The discovery feed's batches: the requests for category members and for
//! random pages, how each reply page becomes a feed item, and how batches are
//! chosen and mixed (`fastrand::shuffle`).
use vstd::prelude::*;
use super::{param, params_view};
use crate::feed::algorithm::FeedItem;
use crate::text::{
    all_ws, char_is_alphanumeric, contains_seq, contains_str, has_prefix, is_all_whitespace,
    lowercase, push_str, skip_chars, starts_with_str, str_to_lowercase, string_from_chars, string_of,
    strs_view, to_chars, trim_chars, trim_seq, unicode_alphanumeric, utf8_len, utf8_len_exceeds,
};

verus! {

broadcast use vstd::seq_lib::group_seq_properties;

/// A page of a feed reply, as far as the feed reads it.
#[derive(Debug, Clone)]
pub struct FeedPage {
    pub title: Option<String>,
    pub description: Option<String>,
    pub extract: Option<String>,
    pub categories: Option<Vec<String>>,
}

/// `fastrand::shuffle`: the elements of `v` in a random order. It swaps
/// elements in place, so the result is a permutation of the input; which
/// permutation is left open.
#[verifier::external_body]
fn shuffle_vec<T>(v: &mut Vec<T>)
    ensures
        final(v)@.to_multiset() == old(v)@.to_multiset(),
        final(v)@.len() == old(v)@.len(),
{
    fastrand::shuffle(v.as_mut_slice());
}

/// The query string that asks for two member pages of `Category:<category>`.
pub fn category_params(category: &str) -> (r: Vec<(String, String)>)
    ensures
        params_view(r@) == seq![
            ("action"@, "query"@),
            ("generator"@, "categorymembers"@),
            ("gcmtitle"@, "Category:"@ + category@),
            ("gcmtype"@, "page"@),
            ("gcmlimit"@, "2"@),
            ("prop"@, "description|extracts|categories"@),
            ("exintro"@, "1"@),
            ("explaintext"@, "1"@),
            ("clshow"@, "!hidden"@),
            ("cllimit"@, "15"@),
            ("format"@, "json"@),
        ],
{
    let mut title = string_of("Category:");
    push_str(&mut title, category);
    let mut v: Vec<(String, String)> = Vec::new();
    v.push(param("action", "query"));
    v.push(param("generator", "categorymembers"));
    v.push(param("gcmtitle", title.as_str()));
    v.push(param("gcmtype", "page"));
    v.push(param("gcmlimit", "2"));
    v.push(param("prop", "description|extracts|categories"));
    v.push(param("exintro", "1"));
    v.push(param("explaintext", "1"));
    v.push(param("clshow", "!hidden"));
    v.push(param("cllimit", "15"));
    v.push(param("format", "json"));
    assert(params_view(v@) =~= seq![
        ("action"@, "query"@),
        ("generator"@, "categorymembers"@),
        ("gcmtitle"@, "Category:"@ + category@),
        ("gcmtype"@, "page"@),
        ("gcmlimit"@, "2"@),
        ("prop"@, "description|extracts|categories"@),
        ("exintro"@, "1"@),
        ("explaintext"@, "1"@),
        ("clshow"@, "!hidden"@),
        ("cllimit"@, "15"@),
        ("format"@, "json"@),
    ]);
    v
}

/// The query string that asks for three random pages of the main namespace.
pub fn random_pages_params() -> (r: Vec<(String, String)>)
    ensures
        params_view(r@) == seq![
            ("action"@, "query"@),
            ("generator"@, "random"@),
            ("grnnamespace"@, "0"@),
            ("grnlimit"@, "3"@),
            ("prop"@, "description|extracts|categories"@),
            ("exintro"@, "1"@),
            ("explaintext"@, "1"@),
            ("clshow"@, "!hidden"@),
            ("cllimit"@, "15"@),
            ("format"@, "json"@),
        ],
{
    let mut v: Vec<(String, String)> = Vec::new();
    v.push(param("action", "query"));
    v.push(param("generator", "random"));
    v.push(param("grnnamespace", "0"));
    v.push(param("grnlimit", "3"));
    v.push(param("prop", "description|extracts|categories"));
    v.push(param("exintro", "1"));
    v.push(param("explaintext", "1"));
    v.push(param("clshow", "!hidden"));
    v.push(param("cllimit", "15"));
    v.push(param("format", "json"));
    assert(params_view(v@) =~= seq![
        ("action"@, "query"@),
        ("generator"@, "random"@),
        ("grnnamespace"@, "0"@),
        ("grnlimit"@, "3"@),
        ("prop"@, "description|extracts|categories"@),
        ("exintro"@, "1"@),
        ("explaintext"@, "1"@),
        ("clshow"@, "!hidden"@),
        ("cllimit"@, "15"@),
        ("format"@, "json"@),
    ]);
    v
}

// ---------------------------------------------------------------------------
// Categories of a page
// ---------------------------------------------------------------------------

/// A category title without its `Category:` prefix.
pub open spec fn without_category_prefix(t: Seq<char>) -> Seq<char> {
    if has_prefix(t, "Category:"@) {
        t.skip("Category:"@.len() as int)
    } else {
        t
    }
}

/// Maintenance categories are not shown: those whose lower-cased name starts
/// with "all ", "articles " or "cs1 ", or mentions "stubs" or "tracking".
pub open spec fn listed_category(c: Seq<char>) -> bool {
    let l = lowercase(c);
    !has_prefix(l, "all "@) && !has_prefix(l, "articles "@) && !has_prefix(l, "cs1 "@)
        && !contains_seq(l, "stubs"@) && !contains_seq(l, "tracking"@)
}

/// The listed categories of a page, without their prefix, in reply order.
pub open spec fn kept_categories(raw: Seq<Seq<char>>) -> Seq<Seq<char>>
    decreases raw.len(),
{
    if raw.len() == 0 {
        Seq::empty()
    } else {
        let rest = kept_categories(raw.drop_last());
        let c = without_category_prefix(raw.last());
        if listed_category(c) {
            rest.push(c)
        } else {
            rest
        }
    }
}

/// The pieces of `s` between characters that are not alphanumeric, empty
/// pieces included (`str::split` with that predicate).
pub open spec fn alnum_pieces(s: Seq<char>) -> Seq<Seq<char>>
    decreases s.len(),
{
    if s.len() == 0 {
        seq![Seq::empty()]
    } else {
        let rest = alnum_pieces(s.drop_last());
        if unicode_alphanumeric(s.last()) {
            rest.update(rest.len() - 1, rest.last().push(s.last()))
        } else {
            rest.push(Seq::empty())
        }
    }
}

/// The pieces longer than three bytes in UTF-8.
pub open spec fn long_pieces(ps: Seq<Seq<char>>) -> Seq<Seq<char>>
    decreases ps.len(),
{
    if ps.len() == 0 {
        Seq::empty()
    } else {
        let rest = long_pieces(ps.drop_last());
        if utf8_len(ps.last()) > 3 {
            rest.push(ps.last())
        } else {
            rest
        }
    }
}

pub open spec fn lowercased(ps: Seq<Seq<char>>) -> Seq<Seq<char>> {
    ps.map_values(|w: Seq<char>| lowercase(w))
}

/// The first `n` elements of `s`, or all of them if there are fewer.
pub open spec fn first_at_most<T>(s: Seq<T>, n: nat) -> Seq<T> {
    if s.len() <= n {
        s
    } else {
        s.take(n as int)
    }
}

/// Categories made up from a title: its first three words of more than
/// three bytes, lower-cased.
pub open spec fn title_categories(title: Seq<char>) -> Seq<Seq<char>> {
    lowercased(first_at_most(long_pieces(alnum_pieces(title)), 3))
}

/// The categories a feed item gets: the listed ones, or, if none is listed,
/// some made up from the title.
pub open spec fn item_categories(title: Seq<char>, raw: Seq<Seq<char>>) -> Seq<Seq<char>> {
    let k = kept_categories(raw);
    if k.len() == 0 {
        title_categories(title)
    } else {
        k
    }
}

proof fn lemma_alnum_pieces_nonempty(s: Seq<char>)
    ensures
        alnum_pieces(s).len() >= 1,
    decreases s.len(),
{
    if s.len() > 0 {
        lemma_alnum_pieces_nonempty(s.drop_last());
    }
}

pub open spec fn chars_view(v: Seq<Vec<char>>) -> Seq<Seq<char>> {
    v.map_values(|p: Vec<char>| p@)
}

/// The pieces of `s` between non-alphanumeric characters.
fn split_alnum(s: &Vec<char>) -> (r: Vec<Vec<char>>)
    ensures
        chars_view(r@) == alnum_pieces(s@),
{
    let mut pieces: Vec<Vec<char>> = Vec::new();
    let mut current: Vec<char> = Vec::new();
    let mut i: usize = 0;
    assert(chars_view(pieces@).push(current@) =~= alnum_pieces(s@.take(0)));
    while i < s.len()
        invariant
            i <= s.len(),
            chars_view(pieces@).push(current@) == alnum_pieces(s@.take(i as int)),
        decreases s.len() - i,
    {
        let c = s[i];
        let ghost prev = s@.take(i as int);
        assert(s@.take(i + 1).drop_last() =~= prev);
        proof {
            lemma_alnum_pieces_nonempty(prev);
        }
        if char_is_alphanumeric(c) {
            current.push(c);
            assert(chars_view(pieces@).push(current@) =~= alnum_pieces(prev).update(
                alnum_pieces(prev).len() - 1,
                alnum_pieces(prev).last().push(c),
            ));
        } else {
            let mut done: Vec<char> = Vec::new();
            std::mem::swap(&mut done, &mut current);
            pieces.push(done);
            assert(chars_view(pieces@).push(current@) =~= alnum_pieces(prev).push(Seq::empty()));
        }
        i += 1;
    }
    assert(s@.take(s.len() as int) =~= s@);
    pieces.push(current);
    pieces
}

/// Categories made up from a title.
pub fn categories_from_title(title: &str) -> (r: Vec<String>)
    ensures
        strs_view(r@) == title_categories(title@),
{
    let cs = to_chars(title);
    let pieces = split_alnum(&cs);
    let ghost ps = chars_view(pieces@);
    let mut out: Vec<String> = Vec::new();
    let mut j: usize = 0;
    assert(ps.take(0) =~= Seq::<Seq<char>>::empty());
    assert(strs_view(out@) =~= lowercased(first_at_most(long_pieces(ps.take(0)), 3)));
    while j < pieces.len()
        invariant
            j <= pieces.len(),
            ps == chars_view(pieces@),
            ps == alnum_pieces(title@),
            strs_view(out@) == lowercased(first_at_most(long_pieces(ps.take(j as int)), 3)),
            out@.len() == if long_pieces(ps.take(j as int)).len() < 3 {
                long_pieces(ps.take(j as int)).len()
            } else {
                3
            },
        decreases pieces.len() - j,
    {
        let ghost before = long_pieces(ps.take(j as int));
        assert(ps.take(j + 1).drop_last() =~= ps.take(j as int));
        assert(ps.take(j + 1).last() == pieces@[j as int]@);
        if utf8_len_exceeds(&pieces[j], 3) {
            if out.len() < 3 {
                let w = string_from_chars(&pieces[j]);
                let lw = str_to_lowercase(w.as_str());
                let ghost old_out = out@;
                out.push(lw);
                assert(strs_view(out@) =~= strs_view(old_out).push(lowercase(pieces@[j as int]@)));
                assert(strs_view(out@) =~= lowercased(first_at_most(before.push(pieces@[j as int]@), 3)));
            } else {
                assert(first_at_most(before.push(pieces@[j as int]@), 3) =~= first_at_most(before, 3));
            }
        }
        j += 1;
    }
    assert(ps.take(pieces@.len() as int) =~= ps);
    out
}

/// The category title without its `Category:` prefix.
fn strip_category_prefix(t: &str) -> (r: String)
    ensures
        r@ == without_category_prefix(t@),
{
    proof {
        reveal_strlit("Category:");
    }
    let cs = to_chars(t);
    if starts_with_str(&cs, "Category:") {
        let rest = skip_chars(&cs, 9);
        string_from_chars(&rest)
    } else {
        string_of(t)
    }
}

/// Whether a category is shown.
fn is_listed_category(c: &str) -> (r: bool)
    ensures
        r == listed_category(c@),
{
    let lower = str_to_lowercase(c);
    let l = to_chars(lower.as_str());
    !starts_with_str(&l, "all ") && !starts_with_str(&l, "articles ") && !starts_with_str(&l, "cs1 ")
        && !contains_str(&l, "stubs") && !contains_str(&l, "tracking")
}

/// The categories of a feed item for a page titled `title` whose reply
/// listed `raw`.
pub fn feed_categories(title: &str, raw: &Vec<String>) -> (r: Vec<String>)
    ensures
        strs_view(r@) == item_categories(title@, strs_view(raw@)),
{
    let mut kept: Vec<String> = Vec::new();
    let mut i: usize = 0;
    while i < raw.len()
        invariant
            i <= raw.len(),
            strs_view(kept@) == kept_categories(strs_view(raw@).take(i as int)),
        decreases raw.len() - i,
    {
        assert(strs_view(raw@).take(i + 1).drop_last() =~= strs_view(raw@).take(i as int));
        let c = strip_category_prefix(raw[i].as_str());
        if is_listed_category(c.as_str()) {
            kept.push(c);
        }
        i += 1;
    }
    assert(strs_view(raw@).take(raw@.len() as int) =~= strs_view(raw@));
    if kept.len() == 0 {
        categories_from_title(title)
    } else {
        kept
    }
}

/// The item a reply page gives: pages without a title give none; a blank
/// description counts as none; the extract is trimmed.
pub open spec fn page_item(page: FeedPage, item: FeedItem) -> bool {
    &&& page.title matches Some(t) && item.title@ == t@
    &&& match page.description {
        Some(d) => if all_ws(d@) {
            item.short_description is None
        } else {
            item.short_description matches Some(s) && s@ == d@
        },
        None => item.short_description is None,
    }
    &&& item.snippet@ == match page.extract {
        Some(e) => trim_seq(e@),
        None => Seq::empty(),
    }
    &&& strs_view(item.categories@) == item_categories(
        item.title@,
        match page.categories {
            Some(cs) => strs_view(cs@),
            None => Seq::empty(),
        },
    )
    &&& !item.is_liked
}

/// The feed item made from a reply page, if it has a title.
pub fn feed_item_from(page: FeedPage) -> (r: Option<FeedItem>)
    ensures
        page.title is None ==> r is None,
        page.title is Some ==> (r matches Some(item) && page_item(page, item)),
{
    let ghost p = page;
    let FeedPage { title, description, extract, categories } = page;
    match title {
        None => None,
        Some(title) => {
            let short_description = match description {
                Some(d) => {
                    let dc = to_chars(d.as_str());
                    if is_all_whitespace(&dc) {
                        None
                    } else {
                        Some(d)
                    }
                },
                None => None,
            };
            let snippet = match &extract {
                Some(e) => {
                    let ec = to_chars(e.as_str());
                    let t = trim_chars(&ec);
                    string_from_chars(&t)
                },
                None => String::new(),
            };
            let raw: Vec<String> = match categories {
                Some(cs) => cs,
                None => Vec::new(),
            };
            let cats = feed_categories(title.as_str(), &raw);
            proof {
                if p.categories is None {
                    assert(strs_view(raw@) =~= Seq::<Seq<char>>::empty());
                }
            }
            Some(FeedItem { title, short_description, snippet, categories: cats, is_liked: false })
        },
    }
}

// ---------------------------------------------------------------------------
// Batches
// ---------------------------------------------------------------------------

/// The categories to draw a batch from: at most three of the reader's active
/// sub-categories, in a random order.
pub fn choose_feed_categories(active: Vec<String>) -> (r: Vec<String>)
    ensures
        exists|p: Seq<String>|
            #[trigger] p.to_multiset() == active@.to_multiset() && r@ == p.take(
                if active@.len() < 3 {
                    active@.len() as int
                } else {
                    3
                },
            ),
{
    let mut available = active;
    shuffle_vec(&mut available);
    let ghost p = available@;
    available.truncate(3);
    available
}

/// The items of the batches that arrived, in order.
pub open spec fn gathered(batches: Seq<Option<Vec<FeedItem>>>) -> Seq<FeedItem>
    decreases batches.len(),
{
    if batches.len() == 0 {
        Seq::empty()
    } else {
        gathered(batches.drop_last()) + match batches.last() {
            Some(items) => items@,
            None => Seq::empty(),
        }
    }
}

/// All items of the batches that arrived (`None` stands for a failed
/// request), mixed in a random order.
pub fn merge_feed_batches(batches: Vec<Option<Vec<FeedItem>>>) -> (r: Vec<FeedItem>)
    ensures
        r@.to_multiset() == gathered(batches@).to_multiset(),
{
    let mut rest = batches;
    let mut items: Vec<FeedItem> = Vec::new();
    while rest.len() > 0
        invariant
            items@.to_multiset().add(gathered(rest@).to_multiset()) == gathered(batches@).to_multiset(),
        decreases rest.len(),
    {
        let ghost before = rest@;
        let last = rest.pop();
        proof {
            assert(rest@ =~= before.drop_last());
            vstd::seq_lib::lemma_multiset_commutative(
                gathered(before.drop_last()),
                match before.last() {
                    Some(its) => its@,
                    None => Seq::empty(),
                },
            );
        }
        match last {
            Some(Some(mut batch)) => {
                let ghost b = batch@;
                let ghost old_items = items@;
                items.append(&mut batch);
                proof {
                    vstd::seq_lib::lemma_multiset_commutative(old_items, b);
                }
            },
            _ => {
                proof {
                    assert(Seq::<FeedItem>::empty().to_multiset() =~= vstd::multiset::Multiset::empty());
                }
            },
        }
    }
    assert(gathered(rest@).to_multiset() =~= vstd::multiset::Multiset::empty());
    shuffle_vec(&mut items);
    items
}

} // verus!
