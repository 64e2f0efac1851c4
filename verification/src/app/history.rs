//! Going from article to article in a pane, and back and forth through the
//! pages read before.
use vstd::prelude::*;
use super::navigation::{clamped_focus, in_range};
use super::pane::{Pane, PaneContent};
use super::links::{activated, Activation};
use crate::api::NetworkCommand;
use crate::text::{chars_eq, string_of, strs_view, to_chars};

verus! {

/// The title of the article a pane shows, if any.
pub open spec fn shown_article(p: Pane) -> Option<Seq<char>> {
    match p.content {
        PaneContent::ArticleText { title, .. } => Some(title@),
        _ => None,
    }
}

/// Everything a history move leaves as it was.
pub open spec fn same_but_history(a: Pane, b: Pane) -> bool {
    &&& a.id == b.id
    &&& a.content == b.content
    &&& a.selected_idx == b.selected_idx
    &&& a.viewport_height == b.viewport_height
    &&& a.local_search_query == b.local_search_query
    &&& a.local_matches == b.local_matches
    &&& a.selected_match_idx == b.selected_match_idx
    &&& a.text_selection == b.text_selection
    &&& a.is_mouse_selecting == b.is_mouse_selecting
    &&& a.selection_anchor == b.selection_anchor
    &&& a.loading_title == b.loading_title
    &&& a.show_toc == b.show_toc
    &&& a.selected_toc_idx == b.selected_toc_idx
    &&& a.toc_focused == b.toc_focused
}

/// The back and forward stacks after opening `target` while `cur` is shown:
/// a different article shown goes on the back stack and the forward stack
/// is dropped.
pub open spec fn open_step(
    back: Seq<Seq<char>>,
    fwd: Seq<Seq<char>>,
    cur: Option<Seq<char>>,
    target: Seq<char>,
) -> (Seq<Seq<char>>, Seq<Seq<char>>) {
    match cur {
        Some(c) => if c != target {
            (back.push(c), Seq::empty())
        } else {
            (back, fwd)
        },
        None => (back, fwd),
    }
}

/// Going back (non-empty back stack): the last page read is requested and
/// the page shown goes on the forward stack.
pub open spec fn back_step(back: Seq<Seq<char>>, fwd: Seq<Seq<char>>, cur: Option<Seq<char>>) -> (
    Seq<Seq<char>>,
    Seq<Seq<char>>,
    Seq<char>,
) {
    (
        back.drop_last(),
        match cur {
            Some(c) => fwd.push(c),
            None => fwd,
        },
        back.last(),
    )
}

/// Going forward (non-empty forward stack): the mirror of going back.
pub open spec fn forward_step(back: Seq<Seq<char>>, fwd: Seq<Seq<char>>, cur: Option<Seq<char>>) -> (
    Seq<Seq<char>>,
    Seq<Seq<char>>,
    Seq<char>,
) {
    (
        match cur {
            Some(c) => back.push(c),
            None => back,
        },
        fwd.drop_last(),
        fwd.last(),
    )
}

/// The request `request_id` to fetch `title` into pane `pane_id`.
pub open spec fn fetch_request(cmd: NetworkCommand, pane_id: usize, request_id: u64, title: Seq<char>) -> bool {
    cmd matches NetworkCommand::FetchArticle { pane_id: id, request_id: rid, title: t } && id == pane_id && rid
        == request_id && t@ == title
}

/// `b` is pane `a` once `title` was opened in it: the article shown went
/// to the back history (clearing the forward one) unless it is `title`, and
/// the pane waits for the new article (request `request_id`) with no link
/// focused and no jumps.
pub open spec fn opened(a: Pane, b: Pane, title: Seq<char>, request_id: u64) -> bool {
    &&& (strs_view(b.history_back@), strs_view(b.history_forward@)) == open_step(
        strs_view(a.history_back@),
        strs_view(a.history_forward@),
        shown_article(a),
        title,
    )
    &&& b.is_loading
    &&& b.selected_link_idx is None
    &&& b.jump_stack@ == Seq::<usize>::empty()
    &&& b.scroll_offset == a.scroll_offset
    &&& b.current_request_id == request_id
    &&& same_but_history(a, b)
}

/// `b` is `a` back from its last jump inside the article: the view returns
/// to where it was, the focus stays in view, and nothing else changes.
pub open spec fn jump_returned(a: Pane, b: Pane, term_height: u16) -> bool {
    &&& b.jump_stack@ == a.jump_stack@.drop_last()
    &&& b.scroll_offset == a.jump_stack@.last()
    &&& b.selected_link_idx == clamped_focus(Pane { scroll_offset: a.jump_stack@.last(), ..a }, term_height)
    &&& b.history_back == a.history_back
    &&& b.history_forward == a.history_forward
    &&& b.is_loading == a.is_loading
    &&& b.current_request_id == a.current_request_id
    &&& same_but_history(a, b)
}

impl Pane {
    /// Opens `title` in this pane: records the article shown in the history,
    /// marks the pane as waiting for request `request_id` and returns that
    /// request.
    pub fn open_article(&mut self, title: &str, request_id: u64) -> (r: NetworkCommand)
        ensures
            fetch_request(r, old(self).id, request_id, title@),
            opened(*old(self), *final(self), title@, request_id),
    {
        let current = self.title();
        if let Some(old_title) = current {
            let a = to_chars(old_title.as_str());
            let b = to_chars(title);
            if !chars_eq(&a, &b) {
                let ghost old_back = self.history_back@;
                self.history_back.push(old_title);
                self.history_forward.clear();
                assert(strs_view(self.history_back@) =~= strs_view(old_back).push(a@));
                assert(strs_view(self.history_forward@) =~= Seq::<Seq<char>>::empty());
            }
        }
        self.is_loading = true;
        self.selected_link_idx = None;
        self.jump_stack.clear();
        self.current_request_id = request_id;
        NetworkCommand::FetchArticle { pane_id: self.id, request_id, title: string_of(title) }
    }

    /// `H`: returns from a jump inside the article if there was one, else
    /// goes back to the previous article and returns the request for it,
    /// numbered `request_id`.
    pub fn history_back(&mut self, term_height: u16, request_id: u64) -> (r: Option<NetworkCommand>)
        requires
            in_range(*old(self)),
            forall|i: int| 0 <= i < old(self).jump_stack@.len() ==> #[trigger] old(self).jump_stack@[i] < usize::MAX / 4,
        ensures
            old(self).jump_stack@.len() > 0 ==> r is None && jump_returned(*old(self), *final(self), term_height),
            old(self).jump_stack@.len() == 0 && old(self).history_back@.len() > 0 ==> {
                &&& r matches Some(cmd) && fetch_request(
                    cmd,
                    old(self).id,
                    request_id,
                    old(self).history_back@.last()@,
                )
                &&& (strs_view(final(self).history_back@), strs_view(final(self).history_forward@),
                    old(self).history_back@.last()@) == back_step(
                    strs_view(old(self).history_back@),
                    strs_view(old(self).history_forward@),
                    shown_article(*old(self)),
                )
                &&& final(self).is_loading
                &&& final(self).selected_link_idx is None
                &&& final(self).jump_stack@ == Seq::<usize>::empty()
                &&& final(self).scroll_offset == old(self).scroll_offset
                &&& final(self).current_request_id == request_id
                &&& same_but_history(*old(self), *final(self))
            },
            old(self).jump_stack@.len() == 0 && old(self).history_back@.len() == 0 ==> r is None
                && *final(self) == *old(self),
    {
        if self.jump_stack.len() > 0 {
            let prev = self.jump_stack.pop().unwrap();
            self.scroll_offset = prev;
            self.clamp_link_selection_to_viewport(term_height);
            return None;
        }
        if self.history_back.len() == 0 {
            return None;
        }
        let current = self.title();
        let ghost old_back = self.history_back@;
        let ghost old_fwd = self.history_forward@;
        let target = self.history_back.pop().unwrap();
        assert(strs_view(self.history_back@) =~= strs_view(old_back).drop_last());
        if let Some(cur) = current {
            let ghost c = cur@;
            self.history_forward.push(cur);
            assert(strs_view(self.history_forward@) =~= strs_view(old_fwd).push(c));
        }
        self.is_loading = true;
        self.selected_link_idx = None;
        self.current_request_id = request_id;
        Some(NetworkCommand::FetchArticle { pane_id: self.id, request_id, title: target })
    }

    /// `L`: goes forward to the article left by going back, returning the
    /// request for it, numbered `request_id`.
    pub fn history_forward(&mut self, request_id: u64) -> (r: Option<NetworkCommand>)
        ensures
            old(self).history_forward@.len() > 0 ==> {
                &&& r matches Some(cmd) && fetch_request(
                    cmd,
                    old(self).id,
                    request_id,
                    old(self).history_forward@.last()@,
                )
                &&& (strs_view(final(self).history_back@), strs_view(final(self).history_forward@),
                    old(self).history_forward@.last()@) == forward_step(
                    strs_view(old(self).history_back@),
                    strs_view(old(self).history_forward@),
                    shown_article(*old(self)),
                )
                &&& final(self).is_loading
                &&& final(self).selected_link_idx is None
                &&& final(self).jump_stack == old(self).jump_stack
                &&& final(self).scroll_offset == old(self).scroll_offset
                &&& final(self).current_request_id == request_id
                &&& same_but_history(*old(self), *final(self))
            },
            old(self).history_forward@.len() == 0 ==> r is None && *final(self) == *old(self),
    {
        if self.history_forward.len() == 0 {
            return None;
        }
        let current = self.title();
        let ghost old_back = self.history_back@;
        let ghost old_fwd = self.history_forward@;
        let target = self.history_forward.pop().unwrap();
        assert(strs_view(self.history_forward@) =~= strs_view(old_fwd).drop_last());
        if let Some(cur) = current {
            let ghost c = cur@;
            self.history_back.push(cur);
            assert(strs_view(self.history_back@) =~= strs_view(old_back).push(c));
        }
        self.is_loading = true;
        self.selected_link_idx = None;
        self.current_request_id = request_id;
        Some(NetworkCommand::FetchArticle { pane_id: self.id, request_id, title: target })
    }
}

/// Going back and then forward again (once the page gone back to is shown)
/// restores both stacks and returns to the page left.
pub proof fn back_then_forward_restores(back: Seq<Seq<char>>, fwd: Seq<Seq<char>>, cur: Seq<char>)
    requires
        back.len() > 0,
    ensures
        ({
            let (b1, f1, t) = back_step(back, fwd, Some(cur));
            forward_step(b1, f1, Some(t)) == (back, fwd, cur)
        }),
{
    let (b1, f1, t) = back_step(back, fwd, Some(cur));
    assert(b1.push(t) =~= back);
    assert(f1.drop_last() =~= fwd);
}

/// Opening another article and then going back (once it is shown) requests
/// the article that was shown before, and leaves the back stack as it was.
pub proof fn open_then_back_returns(
    back: Seq<Seq<char>>,
    fwd: Seq<Seq<char>>,
    cur: Seq<char>,
    target: Seq<char>,
)
    requires
        cur != target,
    ensures
        ({
            let (b1, f1) = open_step(back, fwd, Some(cur), target);
            let (b2, f2, t) = back_step(b1, f1, Some(target));
            t == cur && b2 == back && f2 == seq![target]
        }),
{
    let (b1, f1) = open_step(back, fwd, Some(cur), target);
    assert(b1.drop_last() =~= back);
    assert(f1.push(target) =~= seq![target]);
}

/// Following a footnote anchor and then pressing `H` returns the view to
/// where it was: same position, same jumps, same article and history, and
/// no request.
pub proof fn jump_then_back_returns(a: Pane, b: Pane, c: Pane, m: String, term_height: u16)
    requires
        activated(a, b, Activation::Jumped(m), term_height),
        jump_returned(b, c, term_height),
    ensures
        c.scroll_offset == a.scroll_offset,
        c.jump_stack@ == a.jump_stack@,
        c.content == a.content,
        c.history_back == a.history_back,
        c.history_forward == a.history_forward,
        c.is_loading == a.is_loading,
        c.current_request_id == a.current_request_id,
{
    assert(b.jump_stack@ == a.jump_stack@.push(a.scroll_offset));
    assert(b.jump_stack@.drop_last() =~= a.jump_stack@);
}

} // verus!
