//! The "continue reading" list: the ten articles opened last, most recent
//! first, and what is offered when there are none.
use vstd::prelude::*;
use crate::saved_lists::{ListView, SavedList, SavedListsStore};
use crate::text::{
    all_ws, chars_eq, has_prefix, is_all_whitespace, lowercase, starts_with_str, str_to_lowercase,
    string_of, strs_view, to_chars, trim_chars, trim_seq,
};

verus! {

/// Category pages are not recorded: their lower-cased title starts with
/// "category:".
pub open spec fn is_category_title(t: Seq<char>) -> bool {
    has_prefix(lowercase(t), "category:"@)
}

/// `s` without the elements equal to `t`.
pub open spec fn without(s: Seq<Seq<char>>, t: Seq<char>) -> Seq<Seq<char>>
    decreases s.len(),
{
    if s.len() == 0 {
        Seq::empty()
    } else if s.last() == t {
        without(s.drop_last(), t)
    } else {
        without(s.drop_last(), t).push(s.last())
    }
}

/// The first `n` elements of `s`, or all of `s`.
pub open spec fn at_most(s: Seq<Seq<char>>, n: nat) -> Seq<Seq<char>> {
    if s.len() <= n {
        s
    } else {
        s.take(n as int)
    }
}

/// The list after opening `title`: a blank title or a category changes
/// nothing; otherwise the title moves to the front and the list keeps ten.
pub open spec fn recorded(recent: Seq<Seq<char>>, title: Seq<char>) -> Seq<Seq<char>> {
    let t = trim_seq(title);
    if t.len() == 0 || is_category_title(t) {
        recent
    } else {
        at_most(seq![title] + without(recent, title), 10)
    }
}

fn is_category_exec(t: &str) -> (r: bool)
    ensures
        r == is_category_title(t@),
{
    let l = str_to_lowercase(t);
    let lc = to_chars(l.as_str());
    starts_with_str(&lc, "category:")
}

/// Records that `title` was opened.
pub fn record_recent_article(recent: &mut Vec<String>, title: &str)
    ensures
        strs_view(final(recent)@) == recorded(strs_view(old(recent)@), title@),
{
    let tc = to_chars(title);
    let trimmed_chars = trim_chars(&tc);
    if trimmed_chars.len() == 0 {
        return;
    }
    let trimmed = crate::text::string_from_chars(&trimmed_chars);
    if is_category_exec(trimmed.as_str()) {
        return;
    }
    let ghost old_view = strs_view(recent@);
    let mut kept: Vec<String> = Vec::new();
    let mut i: usize = 0;
    while i < recent.len()
        invariant
            i <= recent@.len(),
            old_view == strs_view(recent@),
            tc@ == title@,
            strs_view(kept@) == without(old_view.take(i as int), title@),
        decreases recent.len() - i,
    {
        let c = to_chars(recent[i].as_str());
        assert(old_view.take(i + 1).drop_last() =~= old_view.take(i as int));
        if !chars_eq(&c, &tc) {
            kept.push(string_of(recent[i].as_str()));
        }
        i += 1;
    }
    assert(old_view.take(recent@.len() as int) =~= old_view);
    let mut out: Vec<String> = Vec::new();
    out.push(string_of(title));
    assert(strs_view(out@) =~= seq![title@] + strs_view(kept@).take(0));
    let mut j: usize = 0;
    while j < kept.len() && out.len() < 10
        invariant
            j <= kept@.len(),
            out@.len() == j + 1,
            j + 1 <= 10,
            strs_view(out@) == seq![title@] + strs_view(kept@).take(j as int),
        decreases kept.len() - j,
    {
        let ghost before = out@;
        out.push(string_of(kept[j].as_str()));
        assert(strs_view(out@) =~= strs_view(before).push(kept@[j as int]@));
        assert(strs_view(kept@).take(j + 1) =~= strs_view(kept@).take(j as int).push(kept@[j as int]@));
        assert(strs_view(out@) =~= seq![title@] + strs_view(kept@).take(j + 1));
        j += 1;
    }
    proof {
        let full = seq![title@] + strs_view(kept@);
        if j == kept@.len() {
            assert(strs_view(kept@).take(j as int) =~= strs_view(kept@));
            assert(strs_view(out@) == full);
            assert(full.len() <= 10);
        } else {
            assert(j == 9);
            assert(strs_view(out@) =~= full.take(10));
        }
    }
    *recent = out;
}

// ---------------------------------------------------------------------------
// What to continue reading
// ---------------------------------------------------------------------------

/// The titles of the saved lists, list by list, each list's newest first.
pub open spec fn saved_titles(lists: Seq<ListView>) -> Seq<Seq<char>>
    decreases lists.len(),
{
    if lists.len() == 0 {
        Seq::empty()
    } else {
        saved_titles(lists.drop_last()) + newest_first(lists.last().articles.map_values(
            |a: crate::saved_lists::ArticleView| a.title,
        ))
    }
}

/// `s` in reverse order.
pub open spec fn newest_first(s: Seq<Seq<char>>) -> Seq<Seq<char>>
    decreases s.len(),
{
    if s.len() == 0 {
        Seq::empty()
    } else {
        seq![s.last()] + newest_first(s.drop_last())
    }
}

/// The titles of `s` that are no categories, each once, in first-seen order.
pub open spec fn distinct_articles(s: Seq<Seq<char>>) -> Seq<Seq<char>>
    decreases s.len(),
{
    if s.len() == 0 {
        Seq::empty()
    } else {
        let rest = distinct_articles(s.drop_last());
        if is_category_title(s.last()) || rest.contains(s.last()) {
            rest
        } else {
            rest.push(s.last())
        }
    }
}

/// The titles of `s` that are no categories, in order.
pub open spec fn non_categories(s: Seq<Seq<char>>) -> Seq<Seq<char>>
    decreases s.len(),
{
    if s.len() == 0 {
        Seq::empty()
    } else if is_category_title(s.last()) {
        non_categories(s.drop_last())
    } else {
        non_categories(s.drop_last()).push(s.last())
    }
}

/// What "continue reading" offers: the recent articles without categories;
/// if there are none, up to ten distinct articles from the saved lists.
pub open spec fn continue_reading(recent: Seq<Seq<char>>, lists: Seq<ListView>) -> Seq<Seq<char>> {
    let r = non_categories(recent);
    if r.len() > 0 {
        r
    } else {
        at_most(distinct_articles(saved_titles(lists)), 10)
    }
}

fn contains_title(v: &Vec<String>, t: &Vec<char>) -> (r: bool)
    ensures
        r == strs_view(v@).contains(t@),
{
    let mut i: usize = 0;
    while i < v.len()
        invariant
            i <= v@.len(),
            forall|k: int| 0 <= k < i ==> strs_view(v@)[k] != t@,
        decreases v.len() - i,
    {
        let c = to_chars(v[i].as_str());
        if chars_eq(&c, t) {
            assert(strs_view(v@)[i as int] == t@);
            return true;
        }
        i += 1;
    }
    false
}

/// The articles offered to continue reading.
pub fn get_continue_reading_articles(recent: &Vec<String>, saved: &SavedListsStore) -> (r: Vec<String>)
    ensures
        strs_view(r@) == continue_reading(strs_view(recent@), saved@),
{
    let mut filtered: Vec<String> = Vec::new();
    let mut i: usize = 0;
    while i < recent.len()
        invariant
            i <= recent@.len(),
            strs_view(filtered@) == non_categories(strs_view(recent@).take(i as int)),
        decreases recent.len() - i,
    {
        assert(strs_view(recent@).take(i + 1).drop_last() =~= strs_view(recent@).take(i as int));
        if !is_category_exec(recent[i].as_str()) {
            filtered.push(string_of(recent[i].as_str()));
        }
        i += 1;
    }
    assert(strs_view(recent@).take(recent@.len() as int) =~= strs_view(recent@));
    if filtered.len() > 0 {
        return filtered;
    }
    let mut list: Vec<String> = Vec::new();
    let mut li: usize = 0;
    let ghost lists = saved@;
    assert(lists.take(0) =~= Seq::<ListView>::empty());
    while li < saved.lists.len()
        invariant
            li <= saved.lists@.len(),
            lists == saved@,
            lists == crate::saved_lists::lists_view(saved.lists@),
            strs_view(list@) == at_most(distinct_articles(saved_titles(lists.take(li as int))), 10),
        decreases saved.lists.len() - li,
    {
        let arts = &saved.lists[li].articles;
        let ghost titles = lists[li as int].articles.map_values(|a: crate::saved_lists::ArticleView| a.title);
        let ghost base = saved_titles(lists.take(li as int));
        assert(lists.take(li + 1).drop_last() =~= lists.take(li as int));
        assert(lists.take(li + 1).last() == lists[li as int]);
        let n = arts.len();
        assert(titles.len() == n);
        let mut j: usize = n;
        proof {
            lemma_newest_first_len(titles);
            assert(newest_first(titles).take(0) =~= Seq::<Seq<char>>::empty());
            assert(base + newest_first(titles).take(0) =~= base);
        }
        while j > 0
            invariant
                j <= n,
                n == arts@.len(),
                titles.len() == n,
                forall|k: int| 0 <= k < n ==> titles[k] == (#[trigger] arts@[k]).title@,
                newest_first(titles).len() == n,
                strs_view(list@) == at_most(distinct_articles(base + newest_first(titles).take(n - j)), 10),
            decreases j,
        {
            let ghost d = distinct_articles(base + newest_first(titles).take(n - j));
            let ghost x = titles[j - 1];
            proof {
                lemma_newest_first_index(titles, n - j);
                assert(newest_first(titles)[n - j] == titles[j - 1]);
                assert((base + newest_first(titles).take(n - j + 1)).drop_last() =~= base + newest_first(titles).take(
                    n - j,
                ));
                assert((base + newest_first(titles).take(n - j + 1)).last() == x);
            }
            let t = arts[j - 1].title.as_str();
            let tc = to_chars(t);
            if list.len() < 10 {
                assert(strs_view(list@) == d);
                if !is_category_exec(t) && !contains_title(&list, &tc) {
                    list.push(string_of(t));
                    assert(strs_view(list@) =~= d.push(x));
                }
            } else {
                assert(at_most(d, 10) == d.take(10));
                assert(d.push(x).take(10) =~= d.take(10));
            }
            j -= 1;
        }
        proof {
            assert(newest_first(titles).take(n as int) =~= newest_first(titles));
            assert(saved_titles(lists.take(li + 1)) == base + newest_first(titles));
        }
        li += 1;
    }
    assert(lists.take(saved.lists@.len() as int) =~= lists);
    list
}

proof fn lemma_newest_first_len(s: Seq<Seq<char>>)
    ensures
        newest_first(s).len() == s.len(),
    decreases s.len(),
{
    if s.len() > 0 {
        lemma_newest_first_len(s.drop_last());
    }
}

proof fn lemma_newest_first_index(s: Seq<Seq<char>>, k: int)
    requires
        0 <= k < s.len(),
    ensures
        newest_first(s)[k] == s[s.len() - 1 - k],
    decreases s.len(),
{
    lemma_newest_first_len(s.drop_last());
    if k > 0 {
        lemma_newest_first_index(s.drop_last(), k - 1);
    }
}

proof fn lemma_without_concat(a: Seq<Seq<char>>, b: Seq<Seq<char>>, t: Seq<char>)
    ensures
        without(a + b, t) == without(a, t) + without(b, t),
    decreases b.len(),
{
    if b.len() == 0 {
        assert(a + b =~= a);
        assert(without(a, t) + without(b, t) =~= without(a, t));
    } else {
        assert((a + b).drop_last() =~= a + b.drop_last());
        assert((a + b).last() == b.last());
        lemma_without_concat(a, b.drop_last(), t);
        if b.last() == t {
        } else {
            assert(without(a, t) + without(b.drop_last(), t).push(b.last()) =~= (without(a, t) + without(
                b.drop_last(),
                t,
            )).push(b.last()));
        }
    }
}

proof fn lemma_without_drops(s: Seq<Seq<char>>, t: Seq<char>)
    ensures
        !without(s, t).contains(t),
        !s.contains(t) ==> without(s, t) == s,
    decreases s.len(),
{
    if s.len() > 0 {
        lemma_without_drops(s.drop_last(), t);
        if !s.contains(t) {
            assert(!s.drop_last().contains(t)) by {
                if s.drop_last().contains(t) {
                    let k = choose|k: int| 0 <= k < s.drop_last().len() && s.drop_last()[k] == t;
                    assert(s[k] == t);
                }
            }
            assert(s.drop_last().push(s.last()) =~= s);
        }
        if s.last() != t {
            let w = without(s.drop_last(), t);
            assert forall|k: int| 0 <= k < w.push(s.last()).len() implies w.push(s.last())[k] != t by {
                if k < w.len() {
                    assert(w.contains(w[k]));
                }
            }
        }
    }
}

/// Opening the article that was just recorded changes nothing: it is
/// already first, once.
pub proof fn record_twice_is_record_once(recent: Seq<Seq<char>>, title: Seq<char>)
    ensures
        recorded(recorded(recent, title), title) == recorded(recent, title),
{
    let t = trim_seq(title);
    if t.len() == 0 || is_category_title(t) {
        return;
    }
    let w = without(recent, title);
    lemma_without_drops(recent, title);
    let one = seq![title];
    assert(without(one, title) =~= Seq::<Seq<char>>::empty()) by {
        assert(one.drop_last() =~= Seq::<Seq<char>>::empty());
        assert(one.last() == title);
        assert(without(one.drop_last(), title) == Seq::<Seq<char>>::empty());
    }
    let a = recorded(recent, title);
    let w9 = at_most(w, 9);
    assert(!w9.contains(title)) by {
        if w9.contains(title) {
            let k = choose|k: int| 0 <= k < w9.len() && w9[k] == title;
            assert(w[k] == title);
            assert(w.contains(title));
        }
    }
    lemma_without_drops(w9, title);
    assert(a =~= one + w9);
    lemma_without_concat(one, w9, title);
    assert(without(a, title) =~= w9);
    assert(one + w9 =~= a);
}

/// The list keeps at most ten articles, and an article just opened comes
/// first and appears only there.
pub proof fn recorded_is_short_and_first(recent: Seq<Seq<char>>, title: Seq<char>)
    ensures
        recent.len() <= 10 ==> recorded(recent, title).len() <= 10,
        trim_seq(title).len() > 0 && !is_category_title(trim_seq(title)) ==> {
            let r = recorded(recent, title);
            &&& r[0] == title
            &&& forall|k: int| 1 <= k < r.len() ==> r[k] != title
        },
{
    let t = trim_seq(title);
    if t.len() > 0 && !is_category_title(t) {
        let w = without(recent, title);
        lemma_without_drops(recent, title);
        let r = recorded(recent, title);
        assert forall|k: int| 1 <= k < r.len() implies r[k] != title by {
            assert(r[k] == w[k - 1]);
            if w[k - 1] == title {
                assert(w.contains(title));
            }
        }
    }
}

} // verus!
