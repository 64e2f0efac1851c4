//! Named lists of saved articles ("Read Later", "Liked", and the user's own).
use crate::text::{
    chars_eq, lowercase, replace_char, replace_char_seq, str_to_lowercase, string_from_chars, string_of,
    to_chars, trim_chars, trim_seq,
};
use vstd::prelude::*;

verus! {

/// An article saved to a list.
#[derive(Debug, PartialEq, Eq)]
pub struct SavedArticle {
    pub title: String,
    pub snippet: Option<String>,
    pub saved_at: String,
}

/// A list of saved articles.
#[derive(Debug, PartialEq, Eq)]
pub struct SavedList {
    pub id: String,
    pub name: String,
    pub description: String,
    pub created_at: String,
    pub articles: Vec<SavedArticle>,
}

/// All the user's lists.
#[derive(Debug)]
pub struct SavedListsStore {
    pub version: u32,
    pub lists: Vec<SavedList>,
}

/// What a saved article holds.
pub struct ArticleView {
    pub title: Seq<char>,
    pub snippet: Option<Seq<char>>,
    pub saved_at: Seq<char>,
}

/// What a list holds.
#[verifier::ext_equal]
pub struct ListView {
    pub id: Seq<char>,
    pub name: Seq<char>,
    pub description: Seq<char>,
    pub created_at: Seq<char>,
    pub articles: Seq<ArticleView>,
}

impl View for SavedArticle {
    type V = ArticleView;

    open spec fn view(&self) -> ArticleView {
        ArticleView {
            title: self.title@,
            snippet: match self.snippet {
                Some(s) => Some(s@),
                None => None,
            },
            saved_at: self.saved_at@,
        }
    }
}

impl View for SavedList {
    type V = ListView;

    open spec fn view(&self) -> ListView {
        ListView {
            id: self.id@,
            name: self.name@,
            description: self.description@,
            created_at: self.created_at@,
            articles: articles_view(self.articles@),
        }
    }
}

impl View for SavedListsStore {
    type V = Seq<ListView>;

    open spec fn view(&self) -> Seq<ListView> {
        lists_view(self.lists@)
    }
}

pub open spec fn articles_view(v: Seq<SavedArticle>) -> Seq<ArticleView> {
    v.map_values(|a: SavedArticle| a@)
}

pub open spec fn lists_view(v: Seq<SavedList>) -> Seq<ListView> {
    v.map_values(|l: SavedList| l@)
}

/// Lists whose id is not `id`.
pub open spec fn other_id(id: Seq<char>) -> spec_fn(ListView) -> bool {
    |l: ListView| l.id != id
}

/// The first list with this id.
pub open spec fn list_index(lists: Seq<ListView>, id: Seq<char>) -> Option<int>
    decreases lists.len(),
{
    if lists.len() == 0 {
        None
    } else {
        match list_index(lists.drop_last(), id) {
            Some(i) => Some(i),
            None => if lists.last().id == id {
                Some(lists.len() - 1)
            } else {
                None
            },
        }
    }
}

/// The first article with this title.
pub open spec fn article_index(arts: Seq<ArticleView>, title: Seq<char>) -> Option<int>
    decreases arts.len(),
{
    if arts.len() == 0 {
        None
    } else {
        match article_index(arts.drop_last(), title) {
            Some(i) => Some(i),
            None => if arts.last().title == title {
                Some(arts.len() - 1)
            } else {
                None
            },
        }
    }
}

/// The id a list of this name gets: the trimmed name, lower-cased, with
/// spaces as underscores.
pub open spec fn list_id_for(name: Seq<char>) -> Seq<char> {
    replace_char_seq(lowercase(trim_seq(name)), ' ', '_')
}

/// The store after `toggle_article_in_list`, and what the call returns.
pub open spec fn toggled(
    lists: Seq<ListView>,
    list_id: Seq<char>,
    title: Seq<char>,
    snippet: Option<Seq<char>>,
    now: Seq<char>,
) -> (bool, Seq<ListView>) {
    let t = trim_seq(title);
    if t.len() == 0 {
        (false, lists)
    } else {
        match list_index(lists, list_id) {
            None => (false, lists),
            Some(i) => {
                let l = lists[i];
                match article_index(l.articles, t) {
                    Some(j) => (false, lists.update(i, ListView { articles: l.articles.remove(j), ..l })),
                    None => (
                        true,
                        lists.update(
                            i,
                            ListView {
                                articles: l.articles.push(
                                    ArticleView {
                                        title: t,
                                        snippet: match snippet {
                                            Some(s) => Some(trim_seq(s)),
                                            None => None,
                                        },
                                        saved_at: now,
                                    },
                                ),
                                ..l
                            },
                        ),
                    ),
                }
            },
        }
    }
}

/// The answer of `is_article_in_list`.
pub open spec fn in_list(lists: Seq<ListView>, list_id: Seq<char>, title: Seq<char>) -> bool {
    match list_index(lists, list_id) {
        Some(i) => article_index(lists[i].articles, trim_seq(title)) is Some,
        None => false,
    }
}

proof fn lemma_list_index(lists: Seq<ListView>, id: Seq<char>)
    ensures
        list_index(lists, id) matches Some(i) ==> 0 <= i < lists.len() && lists[i].id == id && forall|k: int|
            0 <= k < i ==> (#[trigger] lists[k]).id != id,
        list_index(lists, id) is None ==> forall|k: int| 0 <= k < lists.len() ==> (#[trigger] lists[k]).id != id,
    decreases lists.len(),
{
    if lists.len() > 0 {
        lemma_list_index(lists.drop_last(), id);
        assert forall|k: int| 0 <= k < lists.len() - 1 implies lists.drop_last()[k] == lists[k] by {}
    }
}

proof fn lemma_article_index(arts: Seq<ArticleView>, title: Seq<char>)
    ensures
        article_index(arts, title) matches Some(i) ==> 0 <= i < arts.len() && arts[i].title == title && forall|k: int|
            0 <= k < i ==> (#[trigger] arts[k]).title != title,
        article_index(arts, title) is None ==> forall|k: int| 0 <= k < arts.len() ==> (#[trigger] arts[k]).title
            != title,
    decreases arts.len(),
{
    if arts.len() > 0 {
        lemma_article_index(arts.drop_last(), title);
        assert forall|k: int| 0 <= k < arts.len() - 1 implies arts.drop_last()[k] == arts[k] by {}
    }
}

proof fn lemma_list_index_first(lists: Seq<ListView>, id: Seq<char>, i: int)
    requires
        0 <= i < lists.len(),
        lists[i].id == id,
        forall|k: int| 0 <= k < i ==> (#[trigger] lists[k]).id != id,
    ensures
        list_index(lists, id) == Some(i),
    decreases lists.len(),
{
    lemma_list_index(lists, id);
    if i < lists.len() - 1 {
        lemma_list_index_first(lists.drop_last(), id, i);
    }
}

proof fn lemma_article_index_first(arts: Seq<ArticleView>, title: Seq<char>, i: int)
    requires
        0 <= i < arts.len(),
        arts[i].title == title,
        forall|k: int| 0 <= k < i ==> (#[trigger] arts[k]).title != title,
    ensures
        article_index(arts, title) == Some(i),
    decreases arts.len(),
{
    lemma_article_index(arts, title);
    if i < arts.len() - 1 {
        lemma_article_index_first(arts.drop_last(), title, i);
    }
}

fn str_eq(a: &String, b: &str) -> (r: bool)
    ensures
        r == (a@ == b@),
{
    let x = to_chars(a.as_str());
    let y = to_chars(b);
    chars_eq(&x, &y)
}

fn trimmed_string(s: &str) -> (r: String)
    ensures
        r@ == trim_seq(s@),
{
    let c = to_chars(s);
    let t = trim_chars(&c);
    string_from_chars(&t)
}

impl SavedListsStore {
    /// A store with the single default list "Read Later" (id `read_later`),
    /// created at `now`.
    pub fn with_default_list(now: String) -> (r: Self)
        ensures
            r.version == 1,
            r@.len() == 1,
            r@[0].id == "read_later"@,
            r@[0].name == "Read Later"@,
            r@[0].description == "Default saved articles"@,
            r@[0].created_at == now@,
            r@[0].articles.len() == 0,
    {
        let list = SavedList {
            id: string_of("read_later"),
            name: string_of("Read Later"),
            description: string_of("Default saved articles"),
            created_at: now,
            articles: Vec::new(),
        };
        let mut lists: Vec<SavedList> = Vec::new();
        lists.push(list);
        let r = SavedListsStore { version: 1, lists };
        assert(r@.len() == 1);
        assert(r@[0] == r.lists@[0]@);
        r
    }

    /// The position of the first list with this id.
    fn find_list(&self, list_id: &str) -> (r: Option<usize>)
        ensures
            r matches Some(i) ==> list_index(self@, list_id@) == Some(i as int) && i < self.lists@.len(),
            r is None ==> list_index(self@, list_id@) is None,
    {
        let mut i: usize = 0;
        while i < self.lists.len()
            invariant
                i <= self.lists.len(),
                forall|k: int| 0 <= k < i ==> (#[trigger] self@[k]).id != list_id@,
            decreases self.lists.len() - i,
        {
            assert(self@[i as int] == self.lists@[i as int]@);
            if str_eq(&self.lists[i].id, list_id) {
                proof {
                    lemma_list_index_first(self@, list_id@, i as int);
                }
                return Some(i);
            }
            i += 1;
        }
        proof {
            lemma_list_index(self@, list_id@);
            if list_index(self@, list_id@) is Some {
                let j = list_index(self@, list_id@)->0;
                assert(self@[j].id == list_id@);
            }
        }
        None
    }

    /// Whether the first list with id `list_id` holds an article titled
    /// `title` (trimmed).
    pub fn is_article_in_list(&self, list_id: &str, title: &str) -> (r: bool)
        ensures
            r == in_list(self@, list_id@, title@),
    {
        let t = trimmed_string(title);
        match self.find_list(list_id) {
            Some(i) => {
                let list = &self.lists[i];
                assert(self@[i as int] == list@);
                let found = find_article(list, t.as_str());
                found.is_some()
            },
            None => false,
        }
    }

    /// Drops every list with id `list_id`.
    pub fn delete_list(&mut self, list_id: &str)
        ensures
            final(self).version == old(self).version,
            final(self)@ == old(self)@.filter(other_id(list_id@)),
    {
        let ghost keep = other_id(list_id@);
        let mut kept: Vec<SavedList> = Vec::new();
        let mut rest: Vec<SavedList> = Vec::new();
        std::mem::swap(&mut rest, &mut self.lists);
        let n = rest.len();
        let ghost orig = lists_view(rest@);
        assert(orig.len() == n);
        assert(orig == old(self)@);
        assert(orig.skip(0) =~= orig);
        assert(orig.take(0).filter(keep) =~= Seq::<ListView>::empty()) by {
            reveal_with_fuel(Seq::<ListView>::filter, 1);
        }
        let mut taken: usize = 0;
        while rest.len() > 0
            invariant
                orig == old(self)@,
                orig.len() == old(self).lists@.len(),
                orig.len() <= usize::MAX,
                keep == other_id(list_id@),
                taken + rest@.len() == orig.len(),
                lists_view(rest@) == orig.skip(taken as int),
                lists_view(kept@) == orig.take(taken as int).filter(keep),
            decreases rest.len(),
        {
            let ghost old_rest = rest@;
            let l = rest.remove(0);
            let ghost lv = l@;
            assert(rest@ =~= old_rest.skip(1));
            assert(lists_view(rest@) =~= lists_view(old_rest).skip(1));
            assert(taken + 1 <= orig.len());
            proof {
                assert(orig.skip(taken as int)[0] == lv);
                assert(orig[taken as int] == lv);
                assert(orig.take(taken + 1).drop_last() =~= orig.take(taken as int));
                assert(orig.take(taken + 1).last() == lv);
                reveal_with_fuel(Seq::<ListView>::filter, 1);
                assert(lists_view(rest@) =~= orig.skip(taken + 1));
            }
            let ghost before = lists_view(kept@);
            let keep_it = !str_eq(&l.id, list_id);
            assert(lv.id == l.id@);
            assert(keep_it == (lv.id != list_id@));
            if keep_it {
                let ghost kb = kept@;
                kept.push(l);
                assert(lists_view(kept@) =~= lists_view(kb).push(lv));
            }
            proof {
                reveal_with_fuel(Seq::<ListView>::filter, 1);
                let t1 = orig.take(taken + 1);
                assert(t1.drop_last() =~= orig.take(taken as int));
                assert(t1.last() == lv);
                assert(keep(lv) == keep_it);
                assert(t1.filter(keep) == (if keep(lv) { t1.drop_last().filter(keep).push(lv) } else {
                    t1.drop_last().filter(keep)
                }));
            }
            taken += 1;
        }
        assert(orig.take(taken as int) =~= orig);
        self.lists = kept;
    }
}

/// The position of the first article titled `title` in `list`.
fn find_article(list: &SavedList, title: &str) -> (r: Option<usize>)
    ensures
        r matches Some(j) ==> article_index(list@.articles, title@) == Some(j as int) && j < list.articles@.len(),
        r is None ==> article_index(list@.articles, title@) is None,
{
    let ghost arts = list@.articles;
    let mut j: usize = 0;
    while j < list.articles.len()
        invariant
            j <= list.articles.len(),
            arts == list@.articles,
            forall|k: int| 0 <= k < j ==> (#[trigger] arts[k]).title != title@,
        decreases list.articles.len() - j,
    {
        assert(arts[j as int] == list.articles@[j as int]@);
        if str_eq(&list.articles[j].title, title) {
            proof {
                lemma_article_index_first(arts, title@, j as int);
            }
            return Some(j);
        }
        j += 1;
    }
    proof {
        lemma_article_index(arts, title@);
        if article_index(arts, title@) is Some {
            let k = article_index(arts, title@)->0;
            assert(arts[k].title == title@);
        }
    }
    None
}


impl SavedListsStore {
    /// Adds the article `title` to the first list with id `list_id`, or takes
    /// it out if it is there; `true` when it was added. A blank title or an
    /// unknown list changes nothing. The title and snippet are stored
    /// trimmed, with `now` as the time saved.
    pub fn toggle_article_in_list(&mut self, list_id: &str, title: &str, snippet: Option<&str>, now: String) -> (r:
        bool)
        ensures
            final(self).version == old(self).version,
            (r, final(self)@) == toggled(
                old(self)@,
                list_id@,
                title@,
                match snippet {
                    Some(s) => Some(s@),
                    None => None,
                },
                now@,
            ),
    {
        let t = trimmed_string(title);
        if t.as_str().is_empty() {
            return false;
        }
        let i = match self.find_list(list_id) {
            Some(i) => i,
            None => {
                return false;
            },
        };
        let ghost old_lists = self.lists@;
        let mut list = self.lists.remove(i);
        let ghost lv = list@;
        assert(lv == old(self)@[i as int]);
        let result;
        match find_article(&list, t.as_str()) {
            Some(j) => {
                let ghost before = list.articles@;
                list.articles.remove(j);
                assert(articles_view(list.articles@) =~= articles_view(before).remove(j as int));
                result = false;
            },
            None => {
                let snip = match snippet {
                    Some(s) => Some(trimmed_string(s)),
                    None => None,
                };
                let ghost before = list.articles@;
                let art = SavedArticle { title: t, snippet: snip, saved_at: now };
                let ghost av = art@;
                list.articles.push(art);
                assert(articles_view(list.articles@) =~= articles_view(before).push(av));
                result = true;
            },
        }
        let ghost nv = list@;
        self.lists.insert(i, list);
        proof {
            assert(self.lists@ =~= old_lists.update(i as int, self.lists@[i as int]));
            assert(self@ =~= old(self)@.update(i as int, nv));
        }
        result
    }

    /// Adds an empty list named `name` (trimmed) unless one with its id
    /// exists, and returns the id; a blank name adds nothing and gives an
    /// empty id.
    pub fn create_list(&mut self, name: &str, description: &str, now: String) -> (r: String)
        ensures
            final(self).version == old(self).version,
            (r@, final(self)@) == created(old(self)@, name@, description@, now@),
    {
        let clean = trimmed_string(name);
        if clean.as_str().is_empty() {
            return String::new();
        }
        let lower = str_to_lowercase(clean.as_str());
        let lower_chars = to_chars(lower.as_str());
        let id_chars = replace_char(&lower_chars, ' ', '_');
        let id = string_from_chars(&id_chars);
        if self.find_list(id.as_str()).is_none() {
            let ghost before = self.lists@;
            let list = SavedList {
                id: string_from_chars(&id_chars),
                name: clean,
                description: trimmed_string(description),
                created_at: now,
                articles: Vec::new(),
            };
            let ghost nv = list@;
            self.lists.push(list);
            assert(nv.articles =~= Seq::<ArticleView>::empty());
            assert(self@ =~= lists_view(before).push(nv));
        }
        id
    }
}


/// The id `create_list` returns and the lists it leaves.
pub open spec fn created(lists: Seq<ListView>, name: Seq<char>, description: Seq<char>, now: Seq<char>) -> (
    Seq<char>,
    Seq<ListView>,
) {
    if trim_seq(name).len() == 0 {
        (seq![], lists)
    } else {
        let id = list_id_for(name);
        if list_index(lists, id) is Some {
            (id, lists)
        } else {
            (
                id,
                lists.push(
                    ListView {
                        id: id,
                        name: trim_seq(name),
                        description: trim_seq(description),
                        created_at: now,
                        articles: seq![],
                    },
                ),
            )
        }
    }
}

/// No two articles of a list share a title.
pub open spec fn titles_distinct(a: Seq<ArticleView>) -> bool {
    forall|i: int, j: int| 0 <= i < j < a.len() ==> (#[trigger] a[i]).title != (#[trigger] a[j]).title
}

/// No two lists share an id, and no list holds a title twice.
pub open spec fn store_well_formed(lists: Seq<ListView>) -> bool {
    &&& forall|i: int, j: int| 0 <= i < j < lists.len() ==> (#[trigger] lists[i]).id != (#[trigger] lists[j]).id
    &&& forall|i: int| 0 <= i < lists.len() ==> titles_distinct(#[trigger] lists[i].articles)
}

proof fn lemma_list_index_same_ids(a: Seq<ListView>, b: Seq<ListView>, id: Seq<char>)
    requires
        a.len() == b.len(),
        forall|k: int| 0 <= k < a.len() ==> (#[trigger] a[k]).id == b[k].id,
    ensures
        list_index(a, id) == list_index(b, id),
    decreases a.len(),
{
    if a.len() > 0 {
        lemma_list_index_same_ids(a.drop_last(), b.drop_last(), id);
        assert(a.last().id == b[b.len() - 1].id);
    }
}

proof fn lemma_article_index_push(a: Seq<ArticleView>, x: ArticleView)
    requires
        article_index(a, x.title) is None,
    ensures
        article_index(a.push(x), x.title) == Some(a.len() as int),
{
    assert(a.push(x).drop_last() =~= a);
}

/// Adding an article and then toggling it again gives back the lists as
/// they were: the second call takes out exactly what the first put in.
pub proof fn toggle_twice_restores(
    lists: Seq<ListView>,
    list_id: Seq<char>,
    title: Seq<char>,
    snippet: Option<Seq<char>>,
    now: Seq<char>,
    snippet2: Option<Seq<char>>,
    now2: Seq<char>,
)
    requires
        list_index(lists, list_id) is Some,
        trim_seq(title).len() > 0,
        !in_list(lists, list_id, title),
    ensures
        toggled(lists, list_id, title, snippet, now).0,
        toggled(toggled(lists, list_id, title, snippet, now).1, list_id, title, snippet2, now2) == (false, lists),
{
    let t = trim_seq(title);
    let i = list_index(lists, list_id)->0;
    lemma_list_index(lists, list_id);
    let l = lists[i];
    let once = toggled(lists, list_id, title, snippet, now).1;
    let added = once[i];
    lemma_list_index_same_ids(lists, once, list_id);
    let x = added.articles.last();
    assert(added.articles == l.articles.push(x));
    lemma_article_index_push(l.articles, x);
    assert(added.articles.remove(l.articles.len() as int) =~= l.articles);
    let twice = toggled(once, list_id, title, snippet2, now2).1;
    assert(twice[i] =~= l);
    assert(twice =~= lists);
}

/// The titles of articles.
pub open spec fn article_titles(a: Seq<ArticleView>) -> Seq<Seq<char>> {
    a.map_values(|x: ArticleView| x.title)
}

/// Toggling the same title in a list twice gives the list back its titles
/// (an article taken out and put back again comes last), and leaves the
/// other lists and the list's own name and dates as they were.
pub proof fn toggle_twice_keeps_titles(
    lists: Seq<ListView>,
    list_id: Seq<char>,
    title: Seq<char>,
    snippet: Option<Seq<char>>,
    now: Seq<char>,
    snippet2: Option<Seq<char>>,
    now2: Seq<char>,
)
    requires
        list_index(lists, list_id) is Some,
        trim_seq(title).len() > 0,
        titles_distinct(lists[list_index(lists, list_id)->0].articles),
    ensures
        ({
            let i = list_index(lists, list_id)->0;
            let twice = toggled(toggled(lists, list_id, title, snippet, now).1, list_id, title, snippet2, now2).1;
            &&& twice.len() == lists.len()
            &&& forall|k: int| 0 <= k < lists.len() && k != i ==> #[trigger] twice[k] == lists[k]
            &&& twice[i] == ListView { articles: twice[i].articles, ..lists[i] }
            &&& article_titles(twice[i].articles).to_multiset() == article_titles(lists[i].articles).to_multiset()
        }),
{
    broadcast use vstd::seq_lib::group_to_multiset_ensures, vstd::multiset::group_multiset_axioms;
    let i = list_index(lists, list_id)->0;
    lemma_list_index(lists, list_id);
    let t = trim_seq(title);
    let l = lists[i];
    if !in_list(lists, list_id, title) {
        toggle_twice_restores(lists, list_id, title, snippet, now, snippet2, now2);
        return;
    }
    let j = article_index(l.articles, t)->0;
    lemma_article_index(l.articles, t);
    let once = toggled(lists, list_id, title, snippet, now).1;
    let rem = l.articles.remove(j);
    assert(once[i].articles == rem);
    lemma_list_index_same_ids(lists, once, list_id);
    assert forall|k: int| 0 <= k < rem.len() implies (#[trigger] rem[k]).title != t by {
        if k < j {
            assert(rem[k] == l.articles[k]);
        } else {
            assert(rem[k] == l.articles[k + 1]);
            assert(l.articles[j].title != l.articles[k + 1].title);
        }
    }
    lemma_article_index(rem, t);
    let twice = toggled(once, list_id, title, snippet2, now2).1;
    let x = twice[i].articles.last();
    assert(twice[i].articles == rem.push(x));
    assert(x.title == t);
    let ts = article_titles(l.articles);
    assert(article_titles(rem.push(x)) =~= ts.remove(j).push(t));
    assert(ts[j] == t);
    assert(ts.remove(j).push(t).to_multiset() =~= ts.to_multiset());
}

/// After a toggle, the list holds the title exactly when the toggle said it
/// added it (the titles in the toggled list being distinct, as toggling
/// keeps them).
pub proof fn toggle_reports_membership(
    lists: Seq<ListView>,
    list_id: Seq<char>,
    title: Seq<char>,
    snippet: Option<Seq<char>>,
    now: Seq<char>,
)
    requires
        list_index(lists, list_id) is Some ==> titles_distinct(lists[list_index(lists, list_id)->0].articles),
        trim_seq(title).len() > 0,
    ensures
        in_list(toggled(lists, list_id, title, snippet, now).1, list_id, title) == toggled(
            lists,
            list_id,
            title,
            snippet,
            now,
        ).0,
{
    let t = trim_seq(title);
    lemma_list_index(lists, list_id);
    if let Some(i) = list_index(lists, list_id) {
        let l = lists[i];
        let after = toggled(lists, list_id, title, snippet, now).1;
        lemma_list_index_same_ids(lists, after, list_id);
        lemma_article_index(l.articles, t);
        match article_index(l.articles, t) {
            Some(j) => {
                let rest = l.articles.remove(j);
                assert(titles_distinct(l.articles));
                assert forall|k: int| 0 <= k < rest.len() implies (#[trigger] rest[k]).title != t by {
                    if k < j {
                        assert(rest[k] == l.articles[k]);
                    } else {
                        assert(rest[k] == l.articles[k + 1]);
                    }
                }
                lemma_article_index(rest, t);
                if article_index(rest, t) is Some {
                    let m = article_index(rest, t)->0;
                    assert(rest[m].title == t);
                }
            },
            None => {
                lemma_article_index_push(l.articles, after[i].articles.last());
                assert(after[i].articles == l.articles.push(after[i].articles.last()));
            },
        }
    }
}

/// Toggling keeps lists well formed.
pub proof fn toggle_keeps_well_formed(
    lists: Seq<ListView>,
    list_id: Seq<char>,
    title: Seq<char>,
    snippet: Option<Seq<char>>,
    now: Seq<char>,
)
    requires
        store_well_formed(lists),
    ensures
        store_well_formed(toggled(lists, list_id, title, snippet, now).1),
{
    let t = trim_seq(title);
    lemma_list_index(lists, list_id);
    let after = toggled(lists, list_id, title, snippet, now).1;
    if t.len() > 0 {
        if let Some(i) = list_index(lists, list_id) {
            let l = lists[i];
            assert(titles_distinct(l.articles));
            lemma_article_index(l.articles, t);
            let na = after[i].articles;
            assert forall|a: int, b: int| 0 <= a < b < na.len() implies (#[trigger] na[a]).title != (
            #[trigger] na[b]).title by {
                match article_index(l.articles, t) {
                    Some(j) => {
                        let ia = if a < j { a } else { a + 1 };
                        let ib = if b < j { b } else { b + 1 };
                        assert(na[a] == l.articles[ia]);
                        assert(na[b] == l.articles[ib]);
                    },
                    None => {
                        if b == l.articles.len() {
                            assert(na[a] == l.articles[a]);
                        } else {
                            assert(na[a] == l.articles[a]);
                            assert(na[b] == l.articles[b]);
                        }
                    },
                }
            }
            assert forall|k: int| 0 <= k < after.len() implies titles_distinct(#[trigger] after[k].articles) by {
                if k != i {
                    assert(after[k] == lists[k]);
                }
            }
            assert forall|a: int, b: int| 0 <= a < b < after.len() implies (#[trigger] after[a]).id != (
            #[trigger] after[b]).id by {
                assert(after[a].id == lists[a].id);
                assert(after[b].id == lists[b].id);
            }
        }
    }
}

/// Creating a list keeps lists well formed, and creating the same list again
/// changes nothing.
pub proof fn create_keeps_well_formed_and_is_idempotent(
    lists: Seq<ListView>,
    name: Seq<char>,
    description: Seq<char>,
    now: Seq<char>,
    description2: Seq<char>,
    now2: Seq<char>,
)
    requires
        store_well_formed(lists),
    ensures
        store_well_formed(created(lists, name, description, now).1),
        created(created(lists, name, description, now).1, name, description2, now2) == created(
            lists,
            name,
            description,
            now,
        ),
{
    let once = created(lists, name, description, now);
    if trim_seq(name).len() > 0 {
        let id = list_id_for(name);
        lemma_list_index(lists, id);
        if list_index(lists, id) is None {
            let after = once.1;
            assert forall|a: int, b: int| 0 <= a < b < after.len() implies (#[trigger] after[a]).id != (
            #[trigger] after[b]).id by {
                if b == lists.len() {
                    assert(lists[a].id != id);
                }
            }
            assert forall|k: int| 0 <= k < after.len() implies titles_distinct(#[trigger] after[k].articles) by {
                if k < lists.len() {
                    assert(after[k] == lists[k]);
                }
            }
            lemma_list_index_first(after, id, lists.len() as int);
        }
    }
}

/// Deleting a list leaves no list with that id, so nothing is in it, and
/// keeps lists well formed.
pub proof fn delete_removes_list(lists: Seq<ListView>, list_id: Seq<char>, title: Seq<char>)
    requires
        store_well_formed(lists),
    ensures
        list_index(lists.filter(other_id(list_id)), list_id) is None,
        !in_list(lists.filter(other_id(list_id)), list_id, title),
        store_well_formed(lists.filter(other_id(list_id))),
{
    let f = lists.filter(other_id(list_id));
    lemma_list_index(f, list_id);
    if list_index(f, list_id) is Some {
        let k = list_index(f, list_id)->0;
        lists.lemma_filter_pred(other_id(list_id), k);
        assert(other_id(list_id)(f[k]));
    }
    lemma_filter_keeps_well_formed(lists, other_id(list_id));
}

proof fn lemma_filter_keeps_well_formed(lists: Seq<ListView>, p: spec_fn(ListView) -> bool)
    requires
        store_well_formed(lists),
    ensures
        store_well_formed(lists.filter(p)),
    decreases lists.len(),
{
    reveal_with_fuel(Seq::<ListView>::filter, 1);
    if lists.len() > 0 {
        let init = lists.drop_last();
        assert forall|a: int, b: int| 0 <= a < b < init.len() implies (#[trigger] init[a]).id != (
        #[trigger] init[b]).id by {
            assert(init[a] == lists[a] && init[b] == lists[b]);
        }
        assert forall|k: int| 0 <= k < init.len() implies titles_distinct(#[trigger] init[k].articles) by {
            assert(init[k] == lists[k]);
        }
        lemma_filter_keeps_well_formed(init, p);
        let fi = init.filter(p);
        if p(lists.last()) {
            let f = fi.push(lists.last());
            assert forall|a: int, b: int| 0 <= a < b < f.len() implies (#[trigger] f[a]).id != (
            #[trigger] f[b]).id by {
                if b == fi.len() {
                    assert(fi.contains(fi[a]));
                    init.lemma_filter_contains_rev(p, fi[a]);
                    assert(init.contains(fi[a]));
                    let m = choose|m: int| 0 <= m < init.len() && init[m] == fi[a];
                    assert(lists[m] == init[m]);
                    assert(lists[lists.len() - 1] == lists.last());
                }
            }
            assert forall|k: int| 0 <= k < f.len() implies titles_distinct(#[trigger] f[k].articles) by {
                if k == fi.len() {
                    assert(lists[lists.len() - 1] == lists.last());
                }
            }
        }
    }
}

} // verus!
