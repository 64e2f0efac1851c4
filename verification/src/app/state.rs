//! The reader as a whole: tabs of panes, the input mode, the search box, and
//! the requests waiting to be sent to the network worker.
use vstd::prelude::*;
use super::navigation::in_range;
use super::pane::{Pane, PaneContent};
use super::search::{input_ok, matches_in_range, SearchInput};
use super::InputMode;
use super::layout::{removed, shifted, split_at, LayoutNode};
use crate::keybinds::SplitDirection;
use crate::api::{NetworkCommand, SearchResultItem};
use crate::text::{string_of, trim_seq};

verus! {

/// A tab: some panes, one of them active.
#[derive(Debug)]
pub struct Tab {
    pub name: String,
    pub panes: Vec<Pane>,
    pub active_pane_idx: usize,
    /// How the panes are arranged, by their positions in `panes`.
    pub layout_root: LayoutNode,
}

impl Tab {
    /// A tab holding one empty pane.
    pub fn new(name: String, initial_pane_id: usize) -> (r: Self)
        ensures
            r.name == name,
            r.panes@.len() == 1,
            r.panes@[0].id == initial_pane_id,
            r.panes@[0].content is Empty,
            r.active_pane_idx == 0,
            r.layout_root == LayoutNode::Leaf(0),
            matches_in_range(r.panes@[0]),
    {
        let mut panes: Vec<Pane> = Vec::new();
        panes.push(Pane::new(initial_pane_id));
        Tab { name, panes, active_pane_idx: 0, layout_root: LayoutNode::Leaf(0) }
    }
}

/// The whole reader.
#[derive(Debug)]
pub struct App {
    pub running: bool,
    pub tabs: Vec<Tab>,
    pub active_tab_idx: usize,
    pub input_mode: InputMode,
    pub search: SearchInput,
    pub search_opens_new_tab: bool,
    pub waiting_for_split_cmd: bool,
    pub zen_mode: bool,
    /// The discovery feed covers the reader.
    pub feed_active: bool,
    pub next_pane_id: usize,
    /// The number the next network request gets; replies to requests older
    /// than a pane's current one are dropped.
    pub next_request_id: u64,
    /// Requests for the network worker, oldest first.
    pub outbox: Vec<NetworkCommand>,
}

/// A tab with an active pane, every pane within range.
pub open spec fn tab_ok(t: Tab) -> bool {
    &&& t.panes@.len() > 0
    &&& t.active_pane_idx < t.panes@.len()
    &&& t.panes@.len() < usize::MAX
    &&& forall|p: int| 0 <= p < t.panes@.len() ==> matches_in_range(#[trigger] t.panes@[p])
}

/// The reader always has an active tab, and its counters have room.
pub open spec fn app_ok(a: App) -> bool {
    &&& a.tabs@.len() > 0
    &&& a.active_tab_idx < a.tabs@.len()
    &&& a.tabs@.len() < usize::MAX
    &&& forall|t: int| 0 <= t < a.tabs@.len() ==> tab_ok(#[trigger] a.tabs@[t])
    &&& a.next_pane_id < usize::MAX
    &&& input_ok(a.search.text@, a.search.cursor as int)
    &&& a.search.text@.len() < usize::MAX
}

/// The active tab.
pub open spec fn active_tab(a: App) -> Tab {
    a.tabs@[a.active_tab_idx as int]
}

/// The active pane.
pub open spec fn active_pane(a: App) -> Pane {
    active_tab(a).panes@[active_tab(a).active_pane_idx as int]
}

/// `b` is `a` with pane `pi` of tab `ti` replaced by `p`.
pub open spec fn with_pane_at(a: App, b: App, ti: int, pi: int, p: Pane) -> bool {
    &&& b.tabs@.len() == a.tabs@.len()
    &&& b.active_tab_idx == a.active_tab_idx
    &&& forall|t: int| 0 <= t < a.tabs@.len() && t != ti ==> #[trigger] b.tabs@[t] == a.tabs@[t]
    &&& b.tabs@[ti].name == a.tabs@[ti].name
    &&& b.tabs@[ti].active_pane_idx == a.tabs@[ti].active_pane_idx
    &&& b.tabs@[ti].layout_root == a.tabs@[ti].layout_root
    &&& b.tabs@[ti].panes@.len() == a.tabs@[ti].panes@.len()
    &&& forall|q: int|
        0 <= q < a.tabs@[ti].panes@.len() && q != pi ==> #[trigger] b.tabs@[ti].panes@[q] == a.tabs@[ti].panes@[q]
    &&& b.tabs@[ti].panes@[pi] == p
    &&& same_settings(a, b)
    &&& b.next_pane_id == a.next_pane_id
}

/// `b` is `a` with the active pane replaced by `p`.
pub open spec fn with_active_pane(a: App, b: App, p: Pane) -> bool {
    with_pane_at(a, b, a.active_tab_idx as int, active_tab(a).active_pane_idx as int, p)
}

/// All but the tabs are the same in `a` and `b`.
pub open spec fn same_settings(a: App, b: App) -> bool {
    &&& b.running == a.running
    &&& b.input_mode == a.input_mode
    &&& b.search == a.search
    &&& b.search_opens_new_tab == a.search_opens_new_tab
    &&& b.waiting_for_split_cmd == a.waiting_for_split_cmd
    &&& b.zen_mode == a.zen_mode
    &&& b.feed_active == a.feed_active
    &&& b.outbox == a.outbox
    &&& b.next_request_id == a.next_request_id
}

impl App {
    /// The reader at start: one "home" tab with an empty pane.
    pub fn new() -> (r: Self)
        ensures
            app_ok(r),
            r.running,
            r.tabs@.len() == 1,
            r.tabs@[0].name@ == "home"@,
            r.active_tab_idx == 0,
            r.input_mode == InputMode::Normal,
            r.next_pane_id == 1,
            r.next_request_id == 1,
            r.outbox@.len() == 0,
    {
        let mut tabs: Vec<Tab> = Vec::new();
        tabs.push(Tab::new(string_of("home"), 0));
        App {
            running: true,
            tabs,
            active_tab_idx: 0,
            input_mode: InputMode::Normal,
            search: SearchInput::new(),
            search_opens_new_tab: false,
            waiting_for_split_cmd: false,
            zen_mode: false,
            feed_active: false,
            next_pane_id: 1,
            next_request_id: 1,
            outbox: Vec::new(),
        }
    }

    /// Stops the reader (`q`).
    pub fn quit(&mut self)
        ensures
            *final(self) == (App { running: false, ..*old(self) }),
    {
        self.running = false;
    }

    /// Takes pane `pi` of tab `ti` out, to work on it.
    pub(crate) fn take_pane_at(&mut self, ti: usize, pi: usize) -> (r: (Tab, Pane))
        requires
            app_ok(*old(self)),
            ti < old(self).tabs@.len(),
            pi < old(self).tabs@[ti as int].panes@.len(),
        ensures
            r.1 == old(self).tabs@[ti as int].panes@[pi as int],
            r.0.name == old(self).tabs@[ti as int].name,
            r.0.active_pane_idx == old(self).tabs@[ti as int].active_pane_idx,
            r.0.layout_root == old(self).tabs@[ti as int].layout_root,
            r.0.panes@ == old(self).tabs@[ti as int].panes@.remove(pi as int),
            final(self).tabs@ == old(self).tabs@.remove(ti as int),
            final(self).active_tab_idx == old(self).active_tab_idx,
            same_settings(*old(self), *final(self)),
            final(self).next_pane_id == old(self).next_pane_id,
    {
        let mut tab = self.tabs.remove(ti);
        let pane = tab.panes.remove(pi);
        (tab, pane)
    }

    /// Puts back what `take_pane_at` took, with the pane changed.
    pub(crate) fn put_pane_at(&mut self, ti: usize, pi: usize, tab: Tab, pane: Pane, Ghost(before): Ghost<App>)
        requires
            app_ok(before),
            ti < before.tabs@.len(),
            pi < before.tabs@[ti as int].panes@.len(),
            old(self).tabs@ == before.tabs@.remove(ti as int),
            old(self).active_tab_idx == before.active_tab_idx,
            same_settings(before, *old(self)),
            old(self).next_pane_id == before.next_pane_id,
            tab.name == before.tabs@[ti as int].name,
            tab.active_pane_idx == before.tabs@[ti as int].active_pane_idx,
            tab.layout_root == before.tabs@[ti as int].layout_root,
            tab.panes@ == before.tabs@[ti as int].panes@.remove(pi as int),
            matches_in_range(pane),
        ensures
            with_pane_at(before, *final(self), ti as int, pi as int, pane),
            app_ok(*final(self)),
    {
        let mut tab = tab;
        tab.panes.insert(pi, pane);
        self.tabs.insert(ti, tab);
        proof {
            let t = ti as int;
            let p = pi as int;
            assert(self.tabs@[t].panes@ =~= before.tabs@[t].panes@.update(p, pane));
            assert forall|k: int| 0 <= k < self.tabs@.len() implies tab_ok(#[trigger] self.tabs@[k]) by {
                if k != t {
                    assert(self.tabs@[k] == before.tabs@[k]);
                } else {
                    assert forall|q: int| 0 <= q < self.tabs@[k].panes@.len() implies matches_in_range(
                        #[trigger] self.tabs@[k].panes@[q],
                    ) by {
                        if q != p {
                            assert(self.tabs@[k].panes@[q] == before.tabs@[t].panes@[q]);
                        }
                    }
                }
            }
            assert forall|k: int| 0 <= k < before.tabs@.len() && k != t implies #[trigger] self.tabs@[k]
                == before.tabs@[k] by {}
        }
    }
}

/// A tab as `Tab::new` makes it: one empty pane with the id given.
pub open spec fn fresh_tab(t: Tab, name: Seq<char>, pane_id: usize) -> bool {
    &&& t.name@ == name
    &&& t.panes@.len() == 1
    &&& t.panes@[0].id == pane_id
    &&& t.panes@[0].content is Empty
    &&& t.active_pane_idx == 0
    &&& t.layout_root == LayoutNode::Leaf(0)
}

/// A new empty tab was added at the end and made active.
pub open spec fn new_tab_post(a: App, b: App) -> bool {
    &&& b.tabs@.len() == a.tabs@.len() + 1
    &&& forall|t: int| 0 <= t < a.tabs@.len() ==> #[trigger] b.tabs@[t] == a.tabs@[t]
    &&& fresh_tab(b.tabs@.last(), "new tab"@, a.next_pane_id)
    &&& b.active_tab_idx == a.tabs@.len()
    &&& b.next_pane_id == a.next_pane_id + 1
    &&& same_settings(a, b)
}

/// The active tab was closed (the last one replaced by a new "home" tab).
pub open spec fn close_tab_post(a: App, b: App) -> bool {
    &&& same_settings(a, b)
    &&& a.tabs@.len() > 1 ==> {
        &&& b.tabs@ == a.tabs@.remove(a.active_tab_idx as int)
        &&& b.active_tab_idx == if a.active_tab_idx >= a.tabs@.len() - 1 {
            a.tabs@.len() - 2
        } else {
            a.active_tab_idx as int
        }
        &&& b.next_pane_id == a.next_pane_id
    }
    &&& a.tabs@.len() == 1 ==> {
        &&& b.tabs@.len() == 1
        &&& fresh_tab(b.tabs@[0], "home"@, a.next_pane_id)
        &&& b.active_tab_idx == 0
        &&& b.next_pane_id == a.next_pane_id + 1
    }
}

/// A new empty pane joined the active tab and became active, splitting the
/// space of the pane that was active in direction `d`.
pub open spec fn split_post(a: App, b: App, d: SplitDirection) -> bool {
    &&& same_settings(a, b)
    &&& b.tabs@.len() == a.tabs@.len()
    &&& b.active_tab_idx == a.active_tab_idx
    &&& forall|t: int| 0 <= t < a.tabs@.len() && t != a.active_tab_idx ==> #[trigger] b.tabs@[t] == a.tabs@[t]
    &&& active_tab(b).name == active_tab(a).name
    &&& active_tab(b).panes@.len() == active_tab(a).panes@.len() + 1
    &&& forall|q: int| 0 <= q < active_tab(a).panes@.len() ==> #[trigger] active_tab(b).panes@[q] == active_tab(a).panes@[q]
    &&& active_pane(b).id == a.next_pane_id
    &&& active_pane(b).content is Empty
    &&& active_tab(b).active_pane_idx == active_tab(a).panes@.len()
    &&& active_tab(b).layout_root == split_at(
        active_tab(a).layout_root,
        active_tab(a).active_pane_idx,
        active_tab(a).panes@.len() as usize,
        d,
    )
    &&& b.next_pane_id == a.next_pane_id + 1
}

/// The active pane was removed from its tab, which has others, and from the
/// tab's arrangement; where the arrangement holds nothing but that pane,
/// nothing changes.
pub open spec fn close_pane_post(a: App, b: App) -> bool {
    let idx = active_tab(a).active_pane_idx;
    match removed(active_tab(a).layout_root, idx) {
        Some(rest) => pane_closed(a, b) && active_tab(b).layout_root == shifted(rest, idx),
        None => b == a,
    }
}

/// The active pane left its tab, the other tabs staying.
pub open spec fn pane_closed(a: App, b: App) -> bool {
    &&& same_settings(a, b)
    &&& b.tabs@.len() == a.tabs@.len()
    &&& b.active_tab_idx == a.active_tab_idx
    &&& forall|t: int| 0 <= t < a.tabs@.len() && t != a.active_tab_idx ==> #[trigger] b.tabs@[t] == a.tabs@[t]
    &&& active_tab(b).name == active_tab(a).name
    &&& active_tab(b).panes@ == active_tab(a).panes@.remove(active_tab(a).active_pane_idx as int)
    &&& active_tab(b).active_pane_idx == if active_tab(a).active_pane_idx >= active_tab(a).panes@.len() - 1 {
        active_tab(a).panes@.len() - 2
    } else {
        active_tab(a).active_pane_idx as int
    }
    &&& b.next_pane_id == a.next_pane_id
}

impl App {
    /// Opens an empty tab and makes it active (`Alt-T`).
    pub fn new_tab(&mut self)
        requires
            app_ok(*old(self)),
            old(self).tabs@.len() + 1 < usize::MAX,
            old(self).next_pane_id + 1 < usize::MAX,
        ensures
            app_ok(*final(self)),
            new_tab_post(*old(self), *final(self)),
    {
        let t = Tab::new(string_of("new tab"), self.next_pane_id);
        self.tabs.push(t);
        self.next_pane_id = self.next_pane_id + 1;
        self.active_tab_idx = self.tabs.len() - 1;
        proof {
            assert forall|k: int| 0 <= k < self.tabs@.len() implies tab_ok(#[trigger] self.tabs@[k]) by {
                if k < old(self).tabs@.len() {
                    assert(self.tabs@[k] == old(self).tabs@[k]);
                }
            }
        }
    }

    /// Makes the next tab active, wrapping (`Alt-L`).
    pub fn next_tab(&mut self)
        requires
            app_ok(*old(self)),
        ensures
            app_ok(*final(self)),
            *final(self) == (App {
                active_tab_idx: ((old(self).active_tab_idx + 1) % (old(self).tabs@.len() as int)) as usize,
                ..*old(self)
            }),
    {
        let n = self.tabs.len();
        self.active_tab_idx = (self.active_tab_idx + 1) % n;
    }

    /// Makes the previous tab active, wrapping (`Alt-H`).
    pub fn prev_tab(&mut self)
        requires
            app_ok(*old(self)),
        ensures
            app_ok(*final(self)),
            *final(self) == (App {
                active_tab_idx: (if old(self).active_tab_idx == 0 {
                    old(self).tabs@.len() - 1
                } else {
                    old(self).active_tab_idx - 1
                }) as usize,
                ..*old(self)
            }),
    {
        if self.active_tab_idx == 0 {
            self.active_tab_idx = self.tabs.len() - 1;
        } else {
            self.active_tab_idx = self.active_tab_idx - 1;
        }
    }

    /// Closes the active tab; the last tab is replaced by a new "home" tab.
    pub fn close_current_tab(&mut self)
        requires
            app_ok(*old(self)),
            old(self).next_pane_id + 1 < usize::MAX,
        ensures
            app_ok(*final(self)),
            close_tab_post(*old(self), *final(self)),
    {
        if self.tabs.len() > 1 {
            let ti = self.active_tab_idx;
            self.tabs.remove(ti);
            if self.active_tab_idx >= self.tabs.len() {
                self.active_tab_idx = self.tabs.len() - 1;
            }
            proof {
                assert forall|k: int| 0 <= k < self.tabs@.len() implies tab_ok(#[trigger] self.tabs@[k]) by {
                    if k < ti {
                        assert(self.tabs@[k] == old(self).tabs@[k]);
                    } else {
                        assert(self.tabs@[k] == old(self).tabs@[k + 1]);
                    }
                }
            }
        } else {
            let id = self.next_pane_id;
            self.next_pane_id = self.next_pane_id + 1;
            let t = Tab::new(string_of("home"), id);
            self.tabs = Vec::new();
            self.tabs.push(t);
            self.active_tab_idx = 0;
        }
    }

    /// Splits the active pane in direction `direction`: a new empty pane
    /// joins the tab, takes the second part of the space, and becomes active.
    pub fn split_active_pane(&mut self, direction: SplitDirection)
        requires
            app_ok(*old(self)),
            old(self).next_pane_id + 1 < usize::MAX,
            active_tab(*old(self)).panes@.len() + 1 < usize::MAX,
        ensures
            app_ok(*final(self)),
            split_post(*old(self), *final(self), direction),
    {
        let id = self.next_pane_id;
        self.next_pane_id = self.next_pane_id + 1;
        let ti = self.active_tab_idx;
        let mut tab = self.tabs.remove(ti);
        let current = tab.active_pane_idx;
        tab.panes.push(Pane::new(id));
        let new_idx = tab.panes.len() - 1;
        let mut root = LayoutNode::Leaf(0);
        std::mem::swap(&mut root, &mut tab.layout_root);
        tab.layout_root = root.split_pane(current, new_idx, direction);
        tab.active_pane_idx = new_idx;
        self.tabs.insert(ti, tab);
        proof {
            assert forall|k: int| 0 <= k < self.tabs@.len() implies tab_ok(#[trigger] self.tabs@[k]) by {
                if k != ti {
                    assert(self.tabs@[k] == old(self).tabs@[k]);
                } else {
                    assert forall|q: int| 0 <= q < self.tabs@[k].panes@.len() implies matches_in_range(
                        #[trigger] self.tabs@[k].panes@[q],
                    ) by {
                        if q < old(self).tabs@[k].panes@.len() {
                            assert(self.tabs@[k].panes@[q] == old(self).tabs@[k].panes@[q]);
                        }
                    }
                }
            }
            assert forall|t: int| 0 <= t < old(self).tabs@.len() && t != ti implies #[trigger] self.tabs@[t]
                == old(self).tabs@[t] by {}
        }
    }

    /// Closes the active pane; closing a tab's only pane closes the tab.
    pub fn close_active_pane(&mut self)
        requires
            app_ok(*old(self)),
            old(self).next_pane_id + 1 < usize::MAX,
        ensures
            app_ok(*final(self)),
            active_tab(*old(self)).panes@.len() <= 1 ==> close_tab_post(*old(self), *final(self)),
            active_tab(*old(self)).panes@.len() > 1 ==> close_pane_post(*old(self), *final(self)),
    {
        let ti = self.active_tab_idx;
        if self.tabs[ti].panes.len() <= 1 {
            self.close_current_tab();
            return;
        }
        let pi = self.tabs[ti].active_pane_idx;
        if !self.tabs[ti].layout_root.keeps_other_panes(pi) {
            return;
        }
        let mut tab = self.tabs.remove(ti);
        let mut root = LayoutNode::Leaf(0);
        std::mem::swap(&mut root, &mut tab.layout_root);
        match root.remove_pane(pi) {
            Some(rest) => {
                tab.layout_root = rest.decrement_indices_above(pi);
            },
            None => {},
        }
        tab.panes.remove(pi);
        if tab.active_pane_idx >= tab.panes.len() {
            tab.active_pane_idx = tab.panes.len() - 1;
        }
        self.tabs.insert(ti, tab);
        proof {
            assert forall|k: int| 0 <= k < self.tabs@.len() implies tab_ok(#[trigger] self.tabs@[k]) by {
                if k != ti {
                    assert(self.tabs@[k] == old(self).tabs@[k]);
                } else {
                    assert forall|q: int| 0 <= q < self.tabs@[k].panes@.len() implies matches_in_range(
                        #[trigger] self.tabs@[k].panes@[q],
                    ) by {
                        if q < pi {
                            assert(self.tabs@[k].panes@[q] == old(self).tabs@[k].panes@[q]);
                        } else {
                            assert(self.tabs@[k].panes@[q] == old(self).tabs@[k].panes@[q + 1]);
                        }
                    }
                }
            }
            assert forall|t: int| 0 <= t < old(self).tabs@.len() && t != ti implies #[trigger] self.tabs@[t]
                == old(self).tabs@[t] by {}
        }
    }
}

/// Moving to the next tab and back to the previous one returns to the tab
/// left.
pub proof fn next_then_prev_tab(active: int, n: int)
    requires
        0 <= active < n,
    ensures
        ({
            let next = (active + 1) % n;
            (if next == 0 { n - 1 } else { next - 1 }) == active
        }),
{
    if active + 1 < n {
        vstd::arithmetic::div_mod::lemma_small_mod((active + 1) as nat, n as nat);
    } else {
        vstd::arithmetic::div_mod::lemma_mod_self_0(n);
    }
}

} // verus!
