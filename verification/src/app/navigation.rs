//! Moving around in a pane: scrolling, the focused link, headings, the table
//! of contents, and the search-result cursor.
use vstd::prelude::*;
use super::pane::{line_count, minus, viewport_rows, Pane, PaneContent};
use crate::api::SearchResultItem;
use crate::parser::types::{Heading, Link};

verus! {

/// Positions and counts stay far enough below `usize::MAX` that the
/// reader's arithmetic cannot overflow. The counts are lengths of vectors
/// held in memory, whose elements take at least sixteen bytes each, so no
/// vector can be longer; the positions only ever point into them. Every pane
/// the library makes meets this (it is part of `matches_in_range`, which
/// `tab_ok` keeps for every pane of the reader).
pub open spec fn in_range(p: Pane) -> bool {
    &&& p.scroll_offset < usize::MAX / 4
    &&& p.selected_idx < usize::MAX / 4
    &&& p.viewport_height < usize::MAX / 4
    &&& (p.selected_link_idx matches Some(i) ==> i < usize::MAX / 4)
    &&& (p.selected_toc_idx matches Some(i) ==> i < usize::MAX / 4)
    &&& match p.content {
        PaneContent::SearchResults { items, .. } => items@.len() < usize::MAX / 16,
        PaneContent::ArticleText { parsed_doc, .. } => parsed_doc.lines@.len() < usize::MAX / 4
            && parsed_doc.links@.len() < usize::MAX / 4 && parsed_doc.headings@.len() < usize::MAX / 4
            && (forall|i: int| 0 <= i < parsed_doc.reference_targets@.len() ==> (
            #[trigger] parsed_doc.reference_targets@[i]).1 < usize::MAX / 4)
            && (forall|i: int| 0 <= i < parsed_doc.headings@.len() ==> (#[trigger] parsed_doc.headings@[i]).line_idx
                < usize::MAX / 4)
            && (forall|i: int, k: int|
                0 <= i < parsed_doc.links@.len() && 0 <= k < parsed_doc.links@[i].span_indices@.len()
                    ==> (#[trigger] parsed_doc.links@[i].span_indices@[k]).0 < usize::MAX / 4),
        _ => true,
    }
}

/// How far an article may scroll: all but half a screen of lines.
pub open spec fn scroll_limit(total_lines: int, term_height: u16) -> int {
    minus(total_lines, if term_height / 2 >= 1 { (term_height / 2) as int } else { 1 })
}

/// How far an article may scroll with `total_lines` lines on a terminal
/// `term_height` rows high.
pub fn calc_max_scroll(total_lines: usize, term_height: u16) -> (r: usize)
    ensures
        r == scroll_limit(total_lines as int, term_height),
{
    let half: usize = if term_height / 2 >= 1 { (term_height / 2) as usize } else { 1 };
    if total_lines > half {
        total_lines - half
    } else {
        0
    }
}

// ---------------------------------------------------------------------------
// The focused link
// ---------------------------------------------------------------------------

/// Some piece of the link lies on a line in `lo..hi`.
pub open spec fn touches(spans: Seq<(usize, usize)>, lo: int, hi: int) -> bool {
    exists|k: int| 0 <= k < spans.len() && lo <= (#[trigger] spans[k]).0 && spans[k].0 < hi
}

/// Some piece of the link lies on line `lo` or below.
pub open spec fn reaches(spans: Seq<(usize, usize)>, lo: int) -> bool {
    exists|k: int| 0 <= k < spans.len() && lo <= (#[trigger] spans[k]).0
}

/// The first link from `i` on with a piece in `lo..hi`.
pub open spec fn first_in_view(links: Seq<Link>, lo: int, hi: int, i: int) -> Option<int>
    decreases links.len() - i,
{
    if i < 0 || i >= links.len() {
        None
    } else if touches(links[i].span_indices@, lo, hi) {
        Some(i)
    } else {
        first_in_view(links, lo, hi, i + 1)
    }
}

/// The first link from `i` on with a piece on line `lo` or below.
pub open spec fn first_reaching(links: Seq<Link>, lo: int, i: int) -> Option<int>
    decreases links.len() - i,
{
    if i < 0 || i >= links.len() {
        None
    } else if reaches(links[i].span_indices@, lo) {
        Some(i)
    } else {
        first_reaching(links, lo, i + 1)
    }
}

/// The focused link once the view shows lines `lo..hi`: kept if it is in
/// view, else the first link in view, else the first one further down,
/// else the last link; no link at all gives no focus.
pub open spec fn clamped_link(links: Seq<Link>, sel: Option<usize>, lo: int, hi: int) -> Option<usize> {
    if links.len() == 0 {
        None
    } else if sel matches Some(i) && i < links.len() && touches(links[i as int].span_indices@, lo, hi) {
        sel
    } else {
        match first_in_view(links, lo, hi, 0) {
            Some(i) => Some(i as usize),
            None => match first_reaching(links, lo, 0) {
                Some(i) => Some(i as usize),
                None => Some((links.len() - 1) as usize),
            },
        }
    }
}

/// The focus after the view of article pane `p` moved.
pub open spec fn clamped_focus(p: Pane, term_height: u16) -> Option<usize> {
    match p.content {
        PaneContent::ArticleText { parsed_doc, .. } => clamped_link(
            parsed_doc.links@,
            p.selected_link_idx,
            p.scroll_offset as int,
            p.scroll_offset + viewport_rows(p.viewport_height, term_height),
        ),
        _ => p.selected_link_idx,
    }
}

fn link_touches(spans: &Vec<(usize, usize)>, lo: usize, hi: usize) -> (r: bool)
    ensures
        r == touches(spans@, lo as int, hi as int),
{
    let mut k: usize = 0;
    while k < spans.len()
        invariant
            k <= spans.len(),
            forall|j: int| 0 <= j < k ==> !(lo <= (#[trigger] spans@[j]).0 && spans@[j].0 < hi),
        decreases spans.len() - k,
    {
        if lo <= spans[k].0 && spans[k].0 < hi {
            return true;
        }
        k += 1;
    }
    false
}

fn link_reaches(spans: &Vec<(usize, usize)>, lo: usize) -> (r: bool)
    ensures
        r == reaches(spans@, lo as int),
{
    let mut k: usize = 0;
    while k < spans.len()
        invariant
            k <= spans.len(),
            forall|j: int| 0 <= j < k ==> !(lo <= (#[trigger] spans@[j]).0),
        decreases spans.len() - k,
    {
        if lo <= spans[k].0 {
            return true;
        }
        k += 1;
    }
    false
}

fn first_in_view_exec(links: &Vec<Link>, lo: usize, hi: usize) -> (r: Option<usize>)
    ensures
        match r {
            Some(i) => first_in_view(links@, lo as int, hi as int, 0) == Some(i as int) && i < links@.len(),
            None => first_in_view(links@, lo as int, hi as int, 0) is None,
        },
{
    let mut i: usize = 0;
    while i < links.len()
        invariant
            i <= links.len(),
            first_in_view(links@, lo as int, hi as int, 0) == first_in_view(links@, lo as int, hi as int, i as int),
        decreases links.len() - i,
    {
        if link_touches(&links[i].span_indices, lo, hi) {
            return Some(i);
        }
        i += 1;
    }
    None
}

fn first_reaching_exec(links: &Vec<Link>, lo: usize) -> (r: Option<usize>)
    ensures
        match r {
            Some(i) => first_reaching(links@, lo as int, 0) == Some(i as int) && i < links@.len(),
            None => first_reaching(links@, lo as int, 0) is None,
        },
{
    let mut i: usize = 0;
    while i < links.len()
        invariant
            i <= links.len(),
            first_reaching(links@, lo as int, 0) == first_reaching(links@, lo as int, i as int),
        decreases links.len() - i,
    {
        if link_reaches(&links[i].span_indices, lo) {
            return Some(i);
        }
        i += 1;
    }
    None
}

/// `p` with its focus kept in view.
pub open spec fn clamped(p: Pane, term_height: u16) -> Pane {
    Pane { selected_link_idx: clamped_focus(p, term_height), ..p }
}

impl Pane {
    /// Keeps the focused link inside the view: if it scrolled out, the focus
    /// goes to the first link in view (or the nearest one below, or the
    /// last). Only article panes have links.
    pub fn clamp_link_selection_to_viewport(&mut self, term_height: u16)
        requires
            in_range(*old(self)),
        ensures
            *final(self) == clamped(*old(self), term_height),
            in_range(*final(self)),
    {
        let viewport_h = self.effective_viewport_height(term_height);
        let view_start = self.scroll_offset;
        let view_end = self.scroll_offset + viewport_h;
        let new_sel = match &self.content {
            PaneContent::ArticleText { parsed_doc, .. } => {
                let links = &parsed_doc.links;
                if links.len() == 0 {
                    None
                } else {
                    let visible = match self.selected_link_idx {
                        Some(i) => i < links.len() && link_touches(&links[i].span_indices, view_start, view_end),
                        None => false,
                    };
                    if visible {
                        self.selected_link_idx
                    } else {
                        match first_in_view_exec(links, view_start, view_end) {
                            Some(i) => Some(i),
                            None => match first_reaching_exec(links, view_start) {
                                Some(i) => Some(i),
                                None => Some(links.len() - 1),
                            },
                        }
                    }
                }
            },
            _ => self.selected_link_idx,
        };
        self.selected_link_idx = new_sel;
    }
}

// ---------------------------------------------------------------------------
// Search results
// ---------------------------------------------------------------------------

/// Rows a search result takes: title and gap, plus one for a snippet.
pub open spec fn item_rows(it: SearchResultItem) -> int {
    2 + if it.snippet@.len() > 0 { 1int } else { 0int }
}

/// Rows taken by the first `n` results (all of them if there are fewer).
pub open spec fn rows_before(items: Seq<SearchResultItem>, n: int) -> int
    decreases n,
{
    if n <= 0 {
        0
    } else {
        rows_before(items, n - 1) + if n - 1 < items.len() { item_rows(items[n - 1]) } else { 0 }
    }
}

/// The rows `start..end` that result `sel` occupies (empty past the end).
pub open spec fn result_rows(items: Seq<SearchResultItem>, sel: int) -> (int, int) {
    let start = rows_before(items, sel);
    (start, if 0 <= sel < items.len() { start + item_rows(items[sel]) } else { start })
}

proof fn lemma_rows_before_bound(items: Seq<SearchResultItem>, n: int)
    requires
        0 <= n,
    ensures
        0 <= rows_before(items, n) <= 3 * (if n < items.len() { n } else { items.len() as int }),
    decreases n,
{
    if n > 0 {
        lemma_rows_before_bound(items, n - 1);
    }
}

proof fn lemma_rows_before_past_end(items: Seq<SearchResultItem>, n: int)
    requires
        items.len() <= n,
    ensures
        rows_before(items, n) == rows_before(items, items.len() as int),
    decreases n,
{
    if n > items.len() {
        lemma_rows_before_past_end(items, n - 1);
    }
}

/// The rows that result `selected_idx` occupies in the list.
pub fn search_result_line_range(items: &Vec<SearchResultItem>, selected_idx: usize) -> (r: (usize, usize))
    requires
        items@.len() < usize::MAX / 16,
    ensures
        r.0 == result_rows(items@, selected_idx as int).0,
        r.1 == result_rows(items@, selected_idx as int).1,
{
    let n = if selected_idx < items.len() { selected_idx } else { items.len() };
    let mut start: usize = 0;
    let mut k: usize = 0;
    while k < n
        invariant
            k <= n <= items@.len(),
            items@.len() < usize::MAX / 16,
            start == rows_before(items@, k as int),
        decreases n - k,
    {
        proof {
            lemma_rows_before_bound(items@, k as int);
        }
        let rows: usize = if items[k].snippet.as_str().is_empty() { 2 } else { 3 };
        proof {
            reveal_strlit("");
        }
        start = start + rows;
        k += 1;
    }
    proof {
        if selected_idx >= items.len() {
            lemma_rows_before_past_end(items@, selected_idx as int);
        }
        lemma_rows_before_bound(items@, n as int);
    }
    let end = if selected_idx < items.len() {
        start + if items[selected_idx].snippet.as_str().is_empty() { 2 } else { 3 }
    } else {
        start
    };
    (start, end)
}

/// The scroll offset that brings result `sel` into a view of `rows` rows:
/// up to its first row if it is above the view, down to its last if below.
pub open spec fn scroll_to_show(scroll: int, start: int, end: int, rows: int) -> int {
    if start < scroll {
        start
    } else if end > scroll + rows {
        end - rows
    } else {
        scroll
    }
}

/// `p` with the selected search result scrolled into view.
pub open spec fn result_in_view(p: Pane, term_height: u16) -> Pane {
    match p.content {
        PaneContent::SearchResults { items, .. } => if items@.len() == 0 {
            p
        } else {
            Pane {
                scroll_offset: scroll_to_show(
                    p.scroll_offset as int,
                    result_rows(items@, p.selected_idx as int).0,
                    result_rows(items@, p.selected_idx as int).1,
                    viewport_rows(p.viewport_height, term_height),
                ) as usize,
                ..p
            }
        },
        _ => p,
    }
}

impl Pane {
    /// Scrolls the result list so that the selected result is visible.
    pub fn keep_search_selection_visible(&mut self, term_height: u16)
        requires
            in_range(*old(self)),
        ensures
            *final(self) == result_in_view(*old(self), term_height),
            in_range(*final(self)),
    {
        let rows = self.effective_viewport_height(term_height);
        let new_scroll = match &self.content {
            PaneContent::SearchResults { items, .. } => {
                if items.len() == 0 {
                    self.scroll_offset
                } else {
                    let (start, end) = search_result_line_range(items, self.selected_idx);
                    proof {
                        lemma_rows_before_bound(items@, self.selected_idx as int);
                    }
                    if start < self.scroll_offset {
                        start
                    } else if end > self.scroll_offset + rows {
                        end - rows
                    } else {
                        self.scroll_offset
                    }
                }
            },
            _ => self.scroll_offset,
        };
        self.scroll_offset = new_scroll;
    }
}

// ---------------------------------------------------------------------------
// Scrolling and selection
// ---------------------------------------------------------------------------

pub open spec fn min_int(a: int, b: int) -> int {
    if a <= b {
        a
    } else {
        b
    }
}

/// `p` after moving down one step: an article scrolls a line (up to its
/// limit), a result list selects the next result.
pub open spec fn after_select_next(p: Pane, term_height: u16) -> Pane {
    match p.content {
        PaneContent::ArticleText { parsed_doc, .. } => {
            let q = if (p.scroll_offset as int) < scroll_limit(parsed_doc.lines@.len() as int, term_height) {
                Pane { scroll_offset: (p.scroll_offset + 1) as usize, ..p }
            } else {
                p
            };
            clamped(q, term_height)
        },
        PaneContent::SearchResults { items, .. } => if items@.len() > 0 {
            result_in_view(
                Pane { selected_idx: min_int(p.selected_idx + 1, items@.len() - 1) as usize, ..p },
                term_height,
            )
        } else {
            p
        },
        _ => p,
    }
}

/// `p` after moving up one step.
pub open spec fn after_select_prev(p: Pane, term_height: u16) -> Pane {
    match p.content {
        PaneContent::ArticleText { .. } => {
            let q = if p.scroll_offset > 0 {
                Pane { scroll_offset: (p.scroll_offset - 1) as usize, ..p }
            } else {
                p
            };
            clamped(q, term_height)
        },
        _ => if p.selected_idx > 0 {
            result_in_view(Pane { selected_idx: (p.selected_idx - 1) as usize, ..p }, term_height)
        } else {
            p
        },
    }
}

/// A page: three quarters of the terminal's rows, at least one.
pub open spec fn page_step(term_height: u16) -> int {
    if term_height * 3 / 4 >= 1 {
        term_height * 3 / 4
    } else {
        1
    }
}

/// `p` after a page down.
pub open spec fn after_page_down(p: Pane, term_height: u16) -> Pane {
    match p.content {
        PaneContent::ArticleText { parsed_doc, .. } => clamped(
            Pane {
                scroll_offset: min_int(
                    p.scroll_offset + page_step(term_height),
                    scroll_limit(parsed_doc.lines@.len() as int, term_height),
                ) as usize,
                ..p
            },
            term_height,
        ),
        PaneContent::SearchResults { items, .. } => if items@.len() > 0 {
            result_in_view(
                Pane {
                    selected_idx: min_int(p.selected_idx + page_step(term_height), items@.len() - 1) as usize,
                    ..p
                },
                term_height,
            )
        } else {
            p
        },
        _ => p,
    }
}

/// `p` after a page up.
pub open spec fn after_page_up(p: Pane, term_height: u16) -> Pane {
    match p.content {
        PaneContent::ArticleText { .. } => clamped(
            Pane { scroll_offset: minus(p.scroll_offset as int, page_step(term_height)) as usize, ..p },
            term_height,
        ),
        PaneContent::SearchResults { .. } => result_in_view(
            Pane { selected_idx: minus(p.selected_idx as int, page_step(term_height)) as usize, ..p },
            term_height,
        ),
        _ => p,
    }
}

/// `p` back at its top: no scroll, first result, first link.
pub open spec fn at_top(p: Pane) -> Pane {
    let q = Pane { scroll_offset: 0, selected_idx: 0, ..p };
    match p.content {
        PaneContent::ArticleText { parsed_doc, .. } => Pane {
            selected_link_idx: if parsed_doc.links@.len() > 0 { Some(0usize) } else { None },
            ..q
        },
        _ => q,
    }
}

/// `p` at its bottom: an article at its scroll limit, a list at its last
/// result.
pub open spec fn at_bottom(p: Pane, term_height: u16) -> Pane {
    match p.content {
        PaneContent::ArticleText { parsed_doc, .. } => clamped(
            Pane { scroll_offset: scroll_limit(parsed_doc.lines@.len() as int, term_height) as usize, ..p },
            term_height,
        ),
        PaneContent::SearchResults { items, .. } => if items@.len() > 0 {
            result_in_view(Pane { selected_idx: (items@.len() - 1) as usize, ..p }, term_height)
        } else {
            p
        },
        _ => p,
    }
}

fn page_step_exec(term_height: u16) -> (r: usize)
    ensures
        r == page_step(term_height),
{
    let s = (term_height as usize) * 3 / 4;
    if s >= 1 {
        s
    } else {
        1
    }
}

impl Pane {
    /// One step down (`j`): scrolls an article, or selects the next result.
    pub fn select_next_item(&mut self, term_height: u16)
        requires
            in_range(*old(self)),
        ensures
            *final(self) == after_select_next(*old(self), term_height),
            in_range(*final(self)),
    {
        let is_article = match &self.content {
            PaneContent::ArticleText { .. } => true,
            _ => false,
        };
        if is_article {
            let limit = match &self.content {
                PaneContent::ArticleText { parsed_doc, .. } => calc_max_scroll(parsed_doc.lines.len(), term_height),
                _ => 0,
            };
            if self.scroll_offset < limit {
                self.scroll_offset = self.scroll_offset + 1;
            }
            self.clamp_link_selection_to_viewport(term_height);
        } else {
            let n = match &self.content {
                PaneContent::SearchResults { items, .. } => items.len(),
                _ => 0,
            };
            if n > 0 {
                let next = if self.selected_idx + 1 < n - 1 { self.selected_idx + 1 } else { n - 1 };
                self.selected_idx = next;
                self.keep_search_selection_visible(term_height);
            }
        }
    }

    /// One step up (`k`): scrolls an article back, or selects the previous
    /// result.
    pub fn select_prev_item(&mut self, term_height: u16)
        requires
            in_range(*old(self)),
        ensures
            *final(self) == after_select_prev(*old(self), term_height),
            in_range(*final(self)),
    {
        let is_article = match &self.content {
            PaneContent::ArticleText { .. } => true,
            _ => false,
        };
        if is_article {
            if self.scroll_offset > 0 {
                self.scroll_offset = self.scroll_offset - 1;
            }
            self.clamp_link_selection_to_viewport(term_height);
        } else if self.selected_idx > 0 {
            self.selected_idx = self.selected_idx - 1;
            self.keep_search_selection_visible(term_height);
        }
    }

    /// A page down (`f`).
    pub fn scroll_page_down(&mut self, term_height: u16)
        requires
            in_range(*old(self)),
        ensures
            *final(self) == after_page_down(*old(self), term_height),
            in_range(*final(self)),
    {
        let step = page_step_exec(term_height);
        let is_article = match &self.content {
            PaneContent::ArticleText { .. } => true,
            _ => false,
        };
        if is_article {
            let limit = match &self.content {
                PaneContent::ArticleText { parsed_doc, .. } => calc_max_scroll(parsed_doc.lines.len(), term_height),
                _ => 0,
            };
            let target = self.scroll_offset + step;
            self.scroll_offset = if target < limit { target } else { limit };
            self.clamp_link_selection_to_viewport(term_height);
        } else {
            let n = match &self.content {
                PaneContent::SearchResults { items, .. } => items.len(),
                _ => 0,
            };
            if n > 0 {
                let target = self.selected_idx + step;
                self.selected_idx = if target < n - 1 { target } else { n - 1 };
                self.keep_search_selection_visible(term_height);
            }
        }
    }

    /// A page up (`b`).
    pub fn scroll_page_up(&mut self, term_height: u16)
        requires
            in_range(*old(self)),
        ensures
            *final(self) == after_page_up(*old(self), term_height),
            in_range(*final(self)),
    {
        let step = page_step_exec(term_height);
        let kind: u8 = match &self.content {
            PaneContent::ArticleText { .. } => 1,
            PaneContent::SearchResults { .. } => 2,
            _ => 0,
        };
        if kind == 1 {
            self.scroll_offset = if self.scroll_offset > step { self.scroll_offset - step } else { 0 };
            self.clamp_link_selection_to_viewport(term_height);
        } else if kind == 2 {
            self.selected_idx = if self.selected_idx > step { self.selected_idx - step } else { 0 };
            self.keep_search_selection_visible(term_height);
        }
    }

    /// Back to the top (`g`).
    pub fn jump_to_top(&mut self)
        requires
            in_range(*old(self)),
        ensures
            *final(self) == at_top(*old(self)),
            in_range(*final(self)),
    {
        self.scroll_offset = 0;
        self.selected_idx = 0;
        let link = match &self.content {
            PaneContent::ArticleText { parsed_doc, .. } => Some(
                if parsed_doc.links.len() > 0 {
                    Some(0usize)
                } else {
                    None
                },
            ),
            _ => None,
        };
        if let Some(l) = link {
            self.selected_link_idx = l;
        }
    }

    /// To the bottom (`G`).
    pub fn jump_to_bottom(&mut self, term_height: u16)
        requires
            in_range(*old(self)),
        ensures
            *final(self) == at_bottom(*old(self), term_height),
            in_range(*final(self)),
    {
        let kind: u8 = match &self.content {
            PaneContent::ArticleText { .. } => 1,
            PaneContent::SearchResults { .. } => 2,
            _ => 0,
        };
        if kind == 1 {
            let limit = match &self.content {
                PaneContent::ArticleText { parsed_doc, .. } => calc_max_scroll(parsed_doc.lines.len(), term_height),
                _ => 0,
            };
            self.scroll_offset = limit;
            self.clamp_link_selection_to_viewport(term_height);
        } else if kind == 2 {
            let n = match &self.content {
                PaneContent::SearchResults { items, .. } => items.len(),
                _ => 0,
            };
            if n > 0 {
                self.selected_idx = n - 1;
                self.keep_search_selection_visible(term_height);
            }
        }
    }
}

// ---------------------------------------------------------------------------
// Link focus and headings
// ---------------------------------------------------------------------------

/// The line a link starts on (0 for a link with no pieces).
pub open spec fn link_line(l: Link) -> int {
    if l.span_indices@.len() > 0 {
        l.span_indices@[0].0 as int
    } else {
        0
    }
}

/// The scroll offset that shows a newly focused link on `line`: scrolled
/// up to it if it is above, down to five lines before it if it is ten or
/// more lines below the top.
pub open spec fn scroll_for_link(scroll: int, line: int) -> int {
    if line < scroll {
        line
    } else if line >= scroll + 10 {
        minus(line, 5)
    } else {
        scroll
    }
}

/// The link focused by `Tab`: the next one, wrapping, or the first.
pub open spec fn next_link(sel: Option<usize>, n: int) -> int {
    match sel {
        Some(i) => (i + 1) % n,
        None => 0,
    }
}

/// The link focused by `Shift-Tab`: the previous one, wrapping, or the last.
pub open spec fn prev_link(sel: Option<usize>, n: int) -> int {
    match sel {
        Some(i) => if i == 0 { n - 1 } else { i - 1 },
        None => n - 1,
    }
}

/// `p` with the focus moved to link `i` and the view following it.
pub open spec fn focus_on(p: Pane, links: Seq<Link>, i: int) -> Pane {
    Pane {
        selected_link_idx: Some(i as usize),
        scroll_offset: scroll_for_link(p.scroll_offset as int, link_line(links[i])) as usize,
        ..p
    }
}

pub open spec fn after_focus_next(p: Pane) -> Pane {
    match p.content {
        PaneContent::ArticleText { parsed_doc, .. } => if parsed_doc.links@.len() == 0 {
            p
        } else {
            focus_on(p, parsed_doc.links@, next_link(p.selected_link_idx, parsed_doc.links@.len() as int))
        },
        _ => p,
    }
}

pub open spec fn after_focus_prev(p: Pane) -> Pane {
    match p.content {
        PaneContent::ArticleText { parsed_doc, .. } => if parsed_doc.links@.len() == 0 {
            p
        } else {
            focus_on(p, parsed_doc.links@, prev_link(p.selected_link_idx, parsed_doc.links@.len() as int))
        },
        _ => p,
    }
}

/// The focus, if any, points at a link of the article or just past them.
pub open spec fn focus_in_bounds(p: Pane) -> bool {
    match (p.content, p.selected_link_idx) {
        (PaneContent::ArticleText { parsed_doc, .. }, Some(i)) => i <= parsed_doc.links@.len(),
        _ => true,
    }
}

/// The first heading from `i` on that starts below line `scroll`.
pub open spec fn heading_after(hs: Seq<Heading>, scroll: int, i: int) -> Option<int>
    decreases hs.len() - i,
{
    if i < 0 || i >= hs.len() {
        None
    } else if hs[i].line_idx > scroll {
        Some(i)
    } else {
        heading_after(hs, scroll, i + 1)
    }
}

/// The last heading before index `i` that starts above line `scroll`.
pub open spec fn heading_before(hs: Seq<Heading>, scroll: int, i: int) -> Option<int>
    decreases i,
{
    if i <= 0 || i > hs.len() {
        None
    } else if hs[i - 1].line_idx < scroll {
        Some(i - 1)
    } else {
        heading_before(hs, scroll, i - 1)
    }
}

pub open spec fn after_next_heading(p: Pane, term_height: u16) -> Pane {
    match p.content {
        PaneContent::ArticleText { parsed_doc, .. } => {
            let hs = parsed_doc.headings@;
            let q = match heading_after(hs, p.scroll_offset as int, 0) {
                Some(i) => Pane { scroll_offset: hs[i].line_idx, ..p },
                None => p,
            };
            clamped(q, term_height)
        },
        _ => p,
    }
}

pub open spec fn after_prev_heading(p: Pane, term_height: u16) -> Pane {
    match p.content {
        PaneContent::ArticleText { parsed_doc, .. } => {
            let hs = parsed_doc.headings@;
            let q = match heading_before(hs, p.scroll_offset as int, hs.len() as int) {
                Some(i) => Pane { scroll_offset: hs[i].line_idx, ..p },
                None => p,
            };
            clamped(q, term_height)
        },
        _ => p,
    }
}

fn first_line_of(l: &Link) -> (r: usize)
    ensures
        r == link_line(*l),
{
    if l.span_indices.len() > 0 {
        l.span_indices[0].0
    } else {
        0
    }
}

impl Pane {
    /// Focuses the next link (`Tab`) and scrolls to it if needed.
    pub fn focus_next_link(&mut self)
        requires
            in_range(*old(self)),
        ensures
            *final(self) == after_focus_next(*old(self)),
            in_range(*final(self)),
    {
        let target = match &self.content {
            PaneContent::ArticleText { parsed_doc, .. } => {
                let n = parsed_doc.links.len();
                if n == 0 {
                    None
                } else {
                    let next = match self.selected_link_idx {
                        Some(i) => (i + 1) % n,
                        None => 0,
                    };
                    Some((next, first_line_of(&parsed_doc.links[next])))
                }
            },
            _ => None,
        };
        if let Some((next, line)) = target {
            self.selected_link_idx = Some(next);
            if line < self.scroll_offset {
                self.scroll_offset = line;
            } else if line >= self.scroll_offset + 10 {
                self.scroll_offset = if line > 5 { line - 5 } else { 0 };
            }
        }
    }

    /// Focuses the previous link (`Shift-Tab`) and scrolls to it if needed.
    pub fn focus_prev_link(&mut self)
        requires
            in_range(*old(self)),
            focus_in_bounds(*old(self)),
        ensures
            *final(self) == after_focus_prev(*old(self)),
            in_range(*final(self)),
    {
        let target = match &self.content {
            PaneContent::ArticleText { parsed_doc, .. } => {
                let n = parsed_doc.links.len();
                if n == 0 {
                    None
                } else {
                    let prev = match self.selected_link_idx {
                        Some(i) => if i == 0 { n - 1 } else { i - 1 },
                        None => n - 1,
                    };
                    Some((prev, first_line_of(&parsed_doc.links[prev])))
                }
            },
            _ => None,
        };
        if let Some((prev, line)) = target {
            self.selected_link_idx = Some(prev);
            if line < self.scroll_offset {
                self.scroll_offset = line;
            } else if line >= self.scroll_offset + 10 {
                self.scroll_offset = if line > 5 { line - 5 } else { 0 };
            }
        }
    }

    /// Scrolls to the next heading below the top of the view (`]`).
    pub fn jump_next_heading(&mut self, term_height: u16)
        requires
            in_range(*old(self)),
        ensures
            *final(self) == after_next_heading(*old(self), term_height),
            in_range(*final(self)),
    {
        let target = match &self.content {
            PaneContent::ArticleText { parsed_doc, .. } => {
                let hs = &parsed_doc.headings;
                Some(
                    match heading_after_exec(hs, self.scroll_offset) {
                        Some(i) => Some(hs[i].line_idx),
                        None => None,
                    },
                )
            },
            _ => None,
        };
        if let Some(found) = target {
            if let Some(line) = found {
                self.scroll_offset = line;
            }
            self.clamp_link_selection_to_viewport(term_height);
        }
    }

    /// Scrolls to the last heading above the top of the view (`[`).
    pub fn jump_prev_heading(&mut self, term_height: u16)
        requires
            in_range(*old(self)),
        ensures
            *final(self) == after_prev_heading(*old(self), term_height),
            in_range(*final(self)),
    {
        let target = match &self.content {
            PaneContent::ArticleText { parsed_doc, .. } => {
                let hs = &parsed_doc.headings;
                Some(
                    match heading_before_exec(hs, self.scroll_offset) {
                        Some(i) => Some(hs[i].line_idx),
                        None => None,
                    },
                )
            },
            _ => None,
        };
        if let Some(found) = target {
            if let Some(line) = found {
                self.scroll_offset = line;
            }
            self.clamp_link_selection_to_viewport(term_height);
        }
    }
}

/// The first heading that starts below line `scroll`.
fn heading_after_exec(hs: &Vec<Heading>, scroll: usize) -> (r: Option<usize>)
    ensures
        match r {
            Some(i) => heading_after(hs@, scroll as int, 0) == Some(i as int) && i < hs@.len(),
            None => heading_after(hs@, scroll as int, 0) is None,
        },
{
    let mut i: usize = 0;
    while i < hs.len()
        invariant
            i <= hs@.len(),
            heading_after(hs@, scroll as int, 0) == heading_after(hs@, scroll as int, i as int),
        decreases hs.len() - i,
    {
        if hs[i].line_idx > scroll {
            return Some(i);
        }
        i += 1;
    }
    None
}

/// The last heading that starts above line `scroll`.
fn heading_before_exec(hs: &Vec<Heading>, scroll: usize) -> (r: Option<usize>)
    ensures
        match r {
            Some(i) => heading_before(hs@, scroll as int, hs@.len() as int) == Some(i as int) && i < hs@.len(),
            None => heading_before(hs@, scroll as int, hs@.len() as int) is None,
        },
{
    let mut i: usize = hs.len();
    while i > 0
        invariant
            i <= hs@.len(),
            heading_before(hs@, scroll as int, hs@.len() as int) == heading_before(hs@, scroll as int, i as int),
        decreases i,
    {
        if hs[i - 1].line_idx < scroll {
            return Some(i - 1);
        }
        i -= 1;
    }
    None
}
// ---------------------------------------------------------------------------
// Table of contents
// ---------------------------------------------------------------------------

/// The pane shows an article with headings.
pub open spec fn has_headings(p: Pane) -> bool {
    p.content matches PaneContent::ArticleText { parsed_doc, .. } && parsed_doc.headings@.len() > 0
}

/// The last heading before index `i` that starts at or above line `scroll`.
pub open spec fn heading_at_or_before(hs: Seq<Heading>, scroll: int, i: int) -> Option<int>
    decreases i,
{
    if i <= 0 || i > hs.len() {
        None
    } else if hs[i - 1].line_idx <= scroll {
        Some(i - 1)
    } else {
        heading_at_or_before(hs, scroll, i - 1)
    }
}

/// The heading of the section the view is in (the first if none).
pub open spec fn current_section(hs: Seq<Heading>, scroll: int) -> int {
    match heading_at_or_before(hs, scroll, hs.len() as int) {
        Some(i) => i,
        None => 0,
    }
}

proof fn lemma_heading_at_or_before(hs: Seq<Heading>, scroll: int, i: int)
    requires
        0 <= i <= hs.len(),
    ensures
        match heading_at_or_before(hs, scroll, i) {
            Some(r) => 0 <= r < i && hs[r].line_idx <= scroll && forall|k: int| r < k < i ==> #[trigger] hs[k].line_idx
                > scroll,
            None => forall|k: int| 0 <= k < i ==> #[trigger] hs[k].line_idx > scroll,
        },
    decreases i,
{
    if i > 0 {
        lemma_heading_at_or_before(hs, scroll, i - 1);
    }
}

/// The section the view is in is the last heading that starts at or above
/// the top line shown: that heading starts at or before `scroll` and every
/// later one starts below it. When no heading starts that high, it is the
/// first heading.
pub proof fn current_section_is_last_heading_above(hs: Seq<Heading>, scroll: int)
    ensures
        (exists|k: int| 0 <= k < hs.len() && #[trigger] hs[k].line_idx <= scroll) ==> {
            let r = current_section(hs, scroll);
            &&& 0 <= r < hs.len()
            &&& hs[r].line_idx <= scroll
            &&& forall|k: int| r < k < hs.len() ==> #[trigger] hs[k].line_idx > scroll
        },
        (forall|k: int| 0 <= k < hs.len() ==> #[trigger] hs[k].line_idx > scroll) ==> current_section(hs, scroll) == 0,
{
    lemma_heading_at_or_before(hs, scroll, hs.len() as int);
}

/// `p` with the table of contents opened or closed (`o`); it opens on the
/// current section and takes the keys while open. Without headings it stays
/// closed.
pub open spec fn after_toggle_toc(p: Pane) -> Pane {
    if !has_headings(p) {
        Pane { show_toc: false, toc_focused: false, ..p }
    } else {
        let show = !p.show_toc;
        let q = Pane { show_toc: show, toc_focused: show, ..p };
        if show {
            match p.content {
                PaneContent::ArticleText { parsed_doc, .. } => Pane {
                    selected_toc_idx: Some(current_section(parsed_doc.headings@, p.scroll_offset as int) as usize),
                    ..q
                },
                _ => q,
            }
        } else {
            q
        }
    }
}

pub open spec fn after_next_toc(p: Pane) -> Pane {
    match p.content {
        PaneContent::ArticleText { parsed_doc, .. } => if parsed_doc.headings@.len() == 0 {
            p
        } else {
            Pane {
                selected_toc_idx: Some(
                    match p.selected_toc_idx {
                        Some(i) => min_int(i + 1, parsed_doc.headings@.len() - 1),
                        None => 0,
                    } as usize,
                ),
                ..p
            }
        },
        _ => p,
    }
}

pub open spec fn after_prev_toc(p: Pane) -> Pane {
    match p.content {
        PaneContent::ArticleText { parsed_doc, .. } => if parsed_doc.headings@.len() == 0 {
            p
        } else {
            Pane {
                selected_toc_idx: Some(
                    match p.selected_toc_idx {
                        Some(i) => minus(i as int, 1),
                        None => 0,
                    } as usize,
                ),
                ..p
            }
        },
        _ => p,
    }
}

/// `p` after `Enter` in the table of contents: scrolled to the chosen
/// heading, contents closed.
pub open spec fn after_activate_toc(p: Pane, term_height: u16) -> Pane {
    let q = match (p.content, p.selected_toc_idx) {
        (PaneContent::ArticleText { parsed_doc, .. }, Some(i)) => if i < parsed_doc.headings@.len() {
            Pane { scroll_offset: parsed_doc.headings@[i as int].line_idx, ..p }
        } else {
            p
        },
        _ => p,
    };
    clamped(Pane { show_toc: false, toc_focused: false, ..q }, term_height)
}

fn current_section_exec(hs: &Vec<Heading>, scroll: usize) -> (r: usize)
    ensures
        r == current_section(hs@, scroll as int),
        hs@.len() > 0 ==> r < hs@.len(),
{
    let mut i: usize = hs.len();
    while i > 0
        invariant
            i <= hs@.len(),
            heading_at_or_before(hs@, scroll as int, hs@.len() as int) == heading_at_or_before(
                hs@,
                scroll as int,
                i as int,
            ),
        decreases i,
    {
        if hs[i - 1].line_idx <= scroll {
            return i - 1;
        }
        i -= 1;
    }
    0
}

impl Pane {
    /// Opens or closes the table of contents (`o`).
    pub fn toggle_toc(&mut self)
        requires
            in_range(*old(self)),
        ensures
            *final(self) == after_toggle_toc(*old(self)),
            in_range(*final(self)),
    {
        let section = match &self.content {
            PaneContent::ArticleText { parsed_doc, .. } => if parsed_doc.headings.len() > 0 {
                Some(current_section_exec(&parsed_doc.headings, self.scroll_offset))
            } else {
                None
            },
            _ => None,
        };
        match section {
            None => {
                self.show_toc = false;
                self.toc_focused = false;
            },
            Some(idx) => {
                self.show_toc = !self.show_toc;
                self.toc_focused = self.show_toc;
                if self.show_toc {
                    self.selected_toc_idx = Some(idx);
                }
            },
        }
    }

    /// The next entry of the table of contents.
    pub fn select_next_toc_item(&mut self)
        requires
            in_range(*old(self)),
        ensures
            *final(self) == after_next_toc(*old(self)),
            in_range(*final(self)),
    {
        let n = match &self.content {
            PaneContent::ArticleText { parsed_doc, .. } => parsed_doc.headings.len(),
            _ => 0,
        };
        if n > 0 {
            let next = match self.selected_toc_idx {
                Some(i) => if i + 1 < n - 1 { i + 1 } else { n - 1 },
                None => 0,
            };
            self.selected_toc_idx = Some(next);
        }
    }

    /// The previous entry of the table of contents.
    pub fn select_prev_toc_item(&mut self)
        requires
            in_range(*old(self)),
        ensures
            *final(self) == after_prev_toc(*old(self)),
            in_range(*final(self)),
    {
        let n = match &self.content {
            PaneContent::ArticleText { parsed_doc, .. } => parsed_doc.headings.len(),
            _ => 0,
        };
        if n > 0 {
            let prev = match self.selected_toc_idx {
                Some(i) => if i > 0 { i - 1 } else { 0 },
                None => 0,
            };
            self.selected_toc_idx = Some(prev);
        }
    }

    /// Jumps to the chosen heading and closes the table of contents.
    pub fn activate_toc_selection(&mut self, term_height: u16)
        requires
            in_range(*old(self)),
        ensures
            *final(self) == after_activate_toc(*old(self), term_height),
            in_range(*final(self)),
    {
        let target = match &self.content {
            PaneContent::ArticleText { parsed_doc, .. } => match self.selected_toc_idx {
                Some(i) => if i < parsed_doc.headings.len() {
                    Some(parsed_doc.headings[i].line_idx)
                } else {
                    None
                },
                None => None,
            },
            _ => None,
        };
        if let Some(line) = target {
            self.scroll_offset = line;
        }
        self.show_toc = false;
        self.toc_focused = false;
        self.clamp_link_selection_to_viewport(term_height);
    }
}

} // verus!
