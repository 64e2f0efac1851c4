//! Marking the articles of a loaded feed batch that the reader liked.
use vstd::prelude::*;

use super::algorithm::FeedItem;
use crate::saved_lists::{in_list, ListView, SavedListsStore};

verus! {

/// Whether an article titled `title` is liked: its title is among
/// `liked_titles`, or it is in the "liked" list.
pub open spec fn liked_by(title: Seq<char>, liked_titles: Seq<String>, lists: Seq<ListView>) -> bool {
    ||| exists|j: int| 0 <= j < liked_titles.len() && (#[trigger] liked_titles[j])@ == title
    ||| in_list(lists, "liked"@, title)
}

/// `item` with its liked mark set as `liked_by` says.
pub open spec fn marked(item: FeedItem, liked_titles: Seq<String>, lists: Seq<ListView>) -> FeedItem {
    FeedItem { is_liked: liked_by(item.title@, liked_titles, lists), ..item }
}

fn title_among(title: &String, titles: &Vec<String>) -> (r: bool)
    ensures
        r == exists|j: int| 0 <= j < titles@.len() && (#[trigger] titles@[j])@ == title@,
{
    let mut j: usize = 0;
    while j < titles.len()
        invariant
            j <= titles@.len(),
            forall|k: int| 0 <= k < j ==> (#[trigger] titles@[k])@ != title@,
        decreases titles.len() - j,
    {
        if titles[j] == *title {
            return true;
        }
        j += 1;
    }
    false
}

/// Marks each item of a loaded feed batch as liked when its title is among
/// `liked_titles` (the articles the reader liked in the feed) or in the
/// "liked" list of `store`; the items keep their order and everything else.
pub fn mark_liked_items(items: Vec<FeedItem>, liked_titles: &Vec<String>, store: &SavedListsStore) -> (r: Vec<FeedItem>)
    ensures
        r@.len() == items@.len(),
        forall|i: int| 0 <= i < r@.len() ==> #[trigger] r@[i] == marked(items@[i], liked_titles@, store@),
{
    let ghost orig = items@;
    let mut rest = items;
    let mut out: Vec<FeedItem> = Vec::new();
    while rest.len() > 0
        invariant
            out@.len() + rest@.len() == orig.len(),
            rest@ == orig.subrange(out@.len() as int, orig.len() as int),
            forall|i: int| 0 <= i < out@.len() ==> #[trigger] out@[i] == marked(orig[i], liked_titles@, store@),
        decreases rest@.len(),
    {
        let item = rest.remove(0);
        let liked = title_among(&item.title, liked_titles) || store.is_article_in_list("liked", item.title.as_str());
        out.push(FeedItem { is_liked: liked, ..item });
    }
    out
}

} // verus!
