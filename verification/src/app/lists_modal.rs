//! The cursors of the list dialogs: "save to list" and the saved-lists
//! viewer, which moves between a column of lists and the articles of the
//! list chosen.
use vstd::prelude::*;

verus! {

/// Where the cursors of the list dialogs are.
#[derive(Debug, Clone, Copy, PartialEq, Eq, Structural)]
pub struct ListsModalState {
    pub save_cursor_idx: usize,
    pub viewer_list_idx: usize,
    pub viewer_article_idx: usize,
    pub viewer_focus_right: bool,
}

/// The next of `n` positions, wrapping.
pub open spec fn wrap_next(i: int, n: int) -> int {
    (i + 1) % n
}

/// The previous of `n` positions, wrapping (an empty range stays at 0).
pub open spec fn wrap_prev(i: int, n: int) -> int {
    if i == 0 {
        if n > 0 { n - 1 } else { 0 }
    } else {
        i - 1
    }
}

impl ListsModalState {
    /// All cursors at the start, the list column focused.
    pub fn new() -> (r: Self)
        ensures
            r.save_cursor_idx == 0,
            r.viewer_list_idx == 0,
            r.viewer_article_idx == 0,
            !r.viewer_focus_right,
    {
        ListsModalState { save_cursor_idx: 0, viewer_list_idx: 0, viewer_article_idx: 0, viewer_focus_right: false }
    }

    /// Down in "save to list", over `total` rows (the lists and "new list").
    pub fn save_next(&mut self, total: usize)
        requires
            total > 0,
            old(self).save_cursor_idx < usize::MAX,
        ensures
            *final(self) == (ListsModalState {
                save_cursor_idx: wrap_next(old(self).save_cursor_idx as int, total as int) as usize,
                ..*old(self)
            }),
    {
        self.save_cursor_idx = (self.save_cursor_idx + 1) % total;
    }

    /// Up in "save to list".
    pub fn save_prev(&mut self, total: usize)
        ensures
            *final(self) == (ListsModalState {
                save_cursor_idx: wrap_prev(old(self).save_cursor_idx as int, total as int) as usize,
                ..*old(self)
            }),
    {
        if self.save_cursor_idx == 0 {
            self.save_cursor_idx = if total > 0 { total - 1 } else { 0 };
        } else {
            self.save_cursor_idx = self.save_cursor_idx - 1;
        }
    }

    /// Down in the viewer: the next article of the list if the articles
    /// have the focus, else the next list (from its first article).
    pub fn viewer_down(&mut self, lists_count: usize, articles_count: usize)
        requires
            old(self).viewer_list_idx < usize::MAX,
            old(self).viewer_article_idx < usize::MAX,
        ensures
            old(self).viewer_focus_right ==> *final(self) == if articles_count > 0 {
                ListsModalState {
                    viewer_article_idx: wrap_next(old(self).viewer_article_idx as int, articles_count as int) as usize,
                    ..*old(self)
                }
            } else {
                *old(self)
            },
            !old(self).viewer_focus_right ==> *final(self) == if lists_count > 0 {
                ListsModalState {
                    viewer_list_idx: wrap_next(old(self).viewer_list_idx as int, lists_count as int) as usize,
                    viewer_article_idx: 0,
                    ..*old(self)
                }
            } else {
                *old(self)
            },
    {
        if self.viewer_focus_right {
            if articles_count > 0 {
                self.viewer_article_idx = (self.viewer_article_idx + 1) % articles_count;
            }
        } else if lists_count > 0 {
            self.viewer_list_idx = (self.viewer_list_idx + 1) % lists_count;
            self.viewer_article_idx = 0;
        }
    }

    /// Up in the viewer.
    pub fn viewer_up(&mut self, lists_count: usize, articles_count: usize)
        ensures
            old(self).viewer_focus_right ==> *final(self) == if articles_count > 0 {
                ListsModalState {
                    viewer_article_idx: wrap_prev(old(self).viewer_article_idx as int, articles_count as int) as usize,
                    ..*old(self)
                }
            } else {
                *old(self)
            },
            !old(self).viewer_focus_right ==> *final(self) == if lists_count > 0 {
                ListsModalState {
                    viewer_list_idx: wrap_prev(old(self).viewer_list_idx as int, lists_count as int) as usize,
                    viewer_article_idx: 0,
                    ..*old(self)
                }
            } else {
                *old(self)
            },
    {
        if self.viewer_focus_right {
            if articles_count > 0 {
                if self.viewer_article_idx == 0 {
                    self.viewer_article_idx = articles_count - 1;
                } else {
                    self.viewer_article_idx = self.viewer_article_idx - 1;
                }
            }
        } else if lists_count > 0 {
            if self.viewer_list_idx == 0 {
                self.viewer_list_idx = lists_count - 1;
            } else {
                self.viewer_list_idx = self.viewer_list_idx - 1;
            }
            self.viewer_article_idx = 0;
        }
    }
}

/// Moving down then up in a wrapping list of `n` rows comes back to the
/// row left.
pub proof fn wrap_next_then_prev(i: int, n: int)
    requires
        0 <= i < n,
    ensures
        wrap_prev(wrap_next(i, n), n) == i,
{
    if i + 1 < n {
        vstd::arithmetic::div_mod::lemma_small_mod((i + 1) as nat, n as nat);
    } else {
        vstd::arithmetic::div_mod::lemma_mod_self_0(n);
    }
}

} // verus!
