//! Mouse selection in an article: from a click to a text position, and from
//! a selection to the text it covers.
use vstd::prelude::*;
use crate::app::navigation::in_range;
use crate::app::pane::{minus, Pane, PaneContent, ParsedDocument, TextSelection, pos_le};
use crate::app::search::{joined, matches_in_range};
use crate::app::state::{active_pane, active_tab, app_ok, tab_ok, with_active_pane, App, Tab};
use crate::app::InputMode;
use crate::text::{all_ws, is_all_whitespace};
use crate::text::{push_char, push_chars, slice_chars, to_chars};

verus! {

/// What a scroll-bar drag moves.
#[derive(Debug, Clone, Copy, PartialEq, Eq, Structural)]
pub enum ScrollDragTarget {
    Pane(usize),
    Toc,
    SavedLists(bool),
}

/// A rectangle of terminal cells.
#[derive(Debug, Clone, Copy, PartialEq, Eq, Structural)]
pub struct Rect {
    pub x: u16,
    pub y: u16,
    pub width: u16,
    pub height: u16,
}

/// The text position under a click at `(col, row)` in an article pane drawn
/// in `rect`: the text starts one row and two columns in from the corner;
/// rows past the end of the article give its last line.
pub open spec fn click_position(p: Pane, rect: Rect, col: u16, row: u16) -> Option<(usize, usize)> {
    match p.content {
        PaneContent::ArticleText { parsed_doc, .. } => if col < rect.x || col >= rect.x + rect.width
            || row < rect.y || row >= rect.y + rect.height {
            None
        } else {
            let line = p.scroll_offset + minus(row as int, rect.y + 1);
            let last = minus(parsed_doc.lines@.len() as int, 1);
            Some(
                (
                    (if line < last { line } else { last }) as usize,
                    minus(col as int, rect.x + 2) as usize,
                ),
            )
        },
        _ => None,
    }
}

/// The text position under a click, if the click is on an article pane.
pub fn get_char_coord_in_article_pane(pane: &Pane, rect: Rect, col: u16, row: u16) -> (r: Option<(usize, usize)>)
    requires
        in_range(*pane),
        rect.x + rect.width + 2 <= u16::MAX,
        rect.y + rect.height + 1 <= u16::MAX,
    ensures
        r == click_position(*pane, rect, col, row),
{
    let n = match &pane.content {
        PaneContent::ArticleText { parsed_doc, .. } => parsed_doc.lines.len(),
        _ => return None,
    };
    if col < rect.x || col >= rect.x + rect.width || row < rect.y || row >= rect.y + rect.height {
        return None;
    }
    let inner_y = rect.y + 1;
    let inner_x = rect.x + 2;
    let line_offset: usize = if row < inner_y { 0 } else { (row - inner_y) as usize };
    let line_idx = pane.scroll_offset + line_offset;
    let last = if n > 0 { n - 1 } else { 0 };
    let line_idx = if line_idx < last { line_idx } else { last };
    let char_col: usize = if col < inner_x { 0 } else { (col - inner_x) as usize };
    Some((line_idx, char_col))
}

/// The part of line `i` (of `n` characters) inside the selection from
/// `(sl, sc)` to `(el, ec)`: from the start column on the first line, up
/// to the end column on the last.
pub open spec fn line_part(text: Seq<char>, i: int, sl: int, sc: int, el: int, ec: int) -> (int, int) {
    let n = text.len() as int;
    (
        if i == sl { if sc < n { sc } else { n } } else { 0 },
        if i == el { if ec < n { ec } else { n } } else { n },
    )
}

/// The selected pieces of lines `sl..k`, one per line; a line with nothing
/// selected gives an empty piece when the selection spans several lines.
pub open spec fn selected_pieces(lines: Seq<Vec<String>>, sl: int, sc: int, el: int, ec: int, k: int) -> Seq<
    Seq<char>,
>
    decreases k - sl,
{
    if k <= sl || k > lines.len() {
        Seq::empty()
    } else {
        let rest = selected_pieces(lines, sl, sc, el, ec, k - 1);
        let text = joined(lines[k - 1]@);
        let (from, to) = line_part(text, k - 1, sl, sc, el, ec);
        if from < to {
            rest.push(text.subrange(from, to))
        } else if sl != el {
            rest.push(Seq::empty())
        } else {
            rest
        }
    }
}

/// Pieces joined with line breaks.
pub open spec fn join_lines(ps: Seq<Seq<char>>) -> Seq<char>
    decreases ps.len(),
{
    if ps.len() == 0 {
        Seq::empty()
    } else if ps.len() == 1 {
        ps[0]
    } else {
        join_lines(ps.drop_last()) + seq!['\n'] + ps.last()
    }
}

/// The text a selection covers, line by line.
pub open spec fn selected_text(lines: Seq<Vec<String>>, sel: TextSelection) -> Seq<char> {
    let (s, e) = if pos_le(sel.start, sel.end) { (sel.start, sel.end) } else { (sel.end, sel.start) };
    let last = if (e.0 as int) < minus(lines.len() as int, 1) { e.0 as int } else { minus(lines.len() as int, 1) };
    join_lines(selected_pieces(lines, s.0 as int, s.1 as int, e.0 as int, e.1 as int, last + 1))
}

/// The text under a mouse selection in an article.
pub fn extract_selected_text(doc: &ParsedDocument, selection: &TextSelection) -> (r: String)
    requires
        doc.lines@.len() < usize::MAX,
    ensures
        r@ == selected_text(doc.lines@, *selection),
{
    let ((start_line, start_col), (end_line, end_col)) = selection.normalized();
    let n = doc.lines.len();
    let last = if n > 0 { n - 1 } else { 0 };
    let last = if end_line < last { end_line } else { last };
    let mut out = String::new();
    let mut count: usize = 0;
    let mut k: usize = start_line;
    let ghost lines = doc.lines@;
    proof {
        assert(selected_pieces(lines, start_line as int, start_col as int, end_line as int, end_col as int, start_line as int) =~= Seq::<Seq<char>>::empty());
    }
    while k <= last && k < n
        invariant
            start_line <= k,
            last < n || n == 0,
            n == lines.len(),
            lines == doc.lines@,
            k <= last + 1 || k == start_line,
            count <= k - start_line,
            count == selected_pieces(lines, start_line as int, start_col as int, end_line as int, end_col as int, k as int).len(),
            out@ == join_lines(selected_pieces(lines, start_line as int, start_col as int, end_line as int, end_col as int, k as int)),
        decreases n - k,
    {
        let text_s = crate::app::search::joined_text(&doc.lines[k]);
        let text = to_chars(text_s.as_str());
        let len = text.len();
        let from = if k == start_line { if start_col < len { start_col } else { len } } else { 0 };
        let to = if k == end_line { if end_col < len { end_col } else { len } } else { len };
        let ghost before = selected_pieces(lines, start_line as int, start_col as int, end_line as int, end_col as int, k as int);
        if from < to {
            let piece = slice_chars(&text, from, to);
            if count > 0 {
                push_char(&mut out, '\n');
            }
            push_chars(&mut out, &piece);
            count = count + 1;
            proof {
                let now = before.push(piece@);
                assert(now.drop_last() =~= before);
                if before.len() == 0 {
                    assert(join_lines(now) == now[0]);
                }
            }
        } else if start_line != end_line {
            if count > 0 {
                push_char(&mut out, '\n');
            }
            count = count + 1;
            proof {
                let now = before.push(Seq::<char>::empty());
                assert(now.drop_last() =~= before);
                assert(out@ =~= join_lines(now));
            }
        }
        k += 1;
    }
    proof {
        if k != last + 1 {
            assert(k == start_line);
            assert(selected_pieces(lines, start_line as int, start_col as int, end_line as int, end_col as int, last + 1)
                =~= Seq::<Seq<char>>::empty());
        }
    }
    out
}

/// The click at `(col, row)` falls inside `r`.
pub open spec fn inside(r: Rect, col: u16, row: u16) -> bool {
    r.x <= col < r.x + r.width && r.y <= row < r.y + r.height
}

/// The rectangles the panes of a tab are drawn in, each naming one of the
/// `n` panes, with room below `u16::MAX` for the text's margins.
pub open spec fn rects_ok(rects: Seq<(usize, Rect)>, n: int) -> bool {
    forall|j: int|
        0 <= j < rects.len() ==> (#[trigger] rects[j]).0 < n && rects[j].1.x + rects[j].1.width + 2 <= u16::MAX
            && rects[j].1.y + rects[j].1.height + 1 <= u16::MAX
}

/// The first of the first `n` rectangles that the click is in and that
/// shows an article at the click.
pub open spec fn first_grab(panes: Seq<Pane>, rects: Seq<(usize, Rect)>, col: u16, row: u16, n: int) -> Option<int>
    decreases n,
{
    if n <= 0 {
        None
    } else {
        match first_grab(panes, rects, col, row, n - 1) {
            Some(j) => Some(j),
            None => if inside(rects[n - 1].1, col, row) && click_position(
                panes[rects[n - 1].0 as int],
                rects[n - 1].1,
                col,
                row,
            ) is Some {
                Some(n - 1)
            } else {
                None
            },
        }
    }
}

/// The last of the first `n` rectangles that the click is in.
pub open spec fn last_inside(rects: Seq<(usize, Rect)>, col: u16, row: u16, n: int) -> Option<int>
    decreases n,
{
    if n <= 0 {
        None
    } else if inside(rects[n - 1].1, col, row) {
        Some(n - 1)
    } else {
        last_inside(rects, col, row, n - 1)
    }
}

/// The first of the first `n` rectangles drawn for pane `idx`.
pub open spec fn rect_of(rects: Seq<(usize, Rect)>, idx: usize, n: int) -> Option<int>
    decreases n,
{
    if n <= 0 {
        None
    } else {
        match rect_of(rects, idx, n - 1) {
            Some(j) => Some(j),
            None => if rects[n - 1].0 == idx {
                Some(n - 1)
            } else {
                None
            },
        }
    }
}

proof fn lemma_first_grab_stays(panes: Seq<Pane>, rects: Seq<(usize, Rect)>, col: u16, row: u16, n: int, m: int)
    requires
        n <= m,
        first_grab(panes, rects, col, row, n) is Some,
    ensures
        first_grab(panes, rects, col, row, m) == first_grab(panes, rects, col, row, n),
    decreases m - n,
{
    if n < m {
        lemma_first_grab_stays(panes, rects, col, row, n, m - 1);
    }
}

proof fn lemma_rect_of_stays(rects: Seq<(usize, Rect)>, idx: usize, n: int, m: int)
    requires
        n <= m,
        rect_of(rects, idx, n) is Some,
    ensures
        rect_of(rects, idx, m) == rect_of(rects, idx, n),
    decreases m - n,
{
    if n < m {
        lemma_rect_of_stays(rects, idx, n, m - 1);
    }
}

/// Pane `p` with a mouse selection started at `pos`.
pub open spec fn selection_begun(p: Pane, pos: (usize, usize)) -> Pane {
    Pane { text_selection: None, selection_anchor: Some(pos), is_mouse_selecting: true, ..p }
}

/// The text that releasing the mouse over pane `p` copies: that of a
/// selection of more than one position in an article, unless it is blank.
pub open spec fn released_text(p: Pane) -> Option<Seq<char>> {
    if !p.is_mouse_selecting {
        None
    } else {
        match (p.text_selection, p.content) {
            (Some(sel), PaneContent::ArticleText { parsed_doc, .. }) => if sel.start != sel.end && !all_ws(
                selected_text(parsed_doc.lines@, sel),
            ) {
                Some(selected_text(parsed_doc.lines@, sel))
            } else {
                None
            },
            _ => None,
        }
    }
}

proof fn lemma_begun_in_range(p: Pane, pos: (usize, usize))
    requires
        matches_in_range(p),
    ensures
        matches_in_range(selection_begun(p, pos)),
{
}

/// Pane `p`, drawn in `rect`, after the mouse is dragged to `(col, row)`:
/// the selection being made now ends at the click, if the click is on
/// article text.
pub open spec fn dragged(p: Pane, rect: Rect, col: u16, row: u16) -> Option<Pane> {
    if p.is_mouse_selecting && p.selection_anchor is Some && click_position(p, rect, col, row) is Some {
        Some(
            Pane {
                text_selection: Some(
                    TextSelection { start: p.selection_anchor->0, end: click_position(p, rect, col, row)->0 },
                ),
                ..p
            },
        )
    } else {
        None
    }
}

/// Pane `p` once the mouse is released.
pub open spec fn released(p: Pane) -> Pane {
    if p.is_mouse_selecting {
        Pane { is_mouse_selecting: false, ..p }
    } else {
        p
    }
}

impl Pane {
    /// Starts a mouse selection where the pane, drawn in `rect`, shows
    /// article text at the click; returns whether it did.
    pub fn begin_mouse_selection(&mut self, rect: Rect, col: u16, row: u16) -> (r: bool)
        requires
            in_range(*old(self)),
            rect.x + rect.width + 2 <= u16::MAX,
            rect.y + rect.height + 1 <= u16::MAX,
        ensures
            click_position(*old(self), rect, col, row) matches Some(pos) ==> r && *final(self) == selection_begun(
                *old(self),
                pos,
            ),
            click_position(*old(self), rect, col, row) is None ==> !r && *final(self) == *old(self),
    {
        match get_char_coord_in_article_pane(self, rect, col, row) {
            Some(pos) => {
                self.text_selection = None;
                self.selection_anchor = Some(pos);
                self.is_mouse_selecting = true;
                true
            },
            None => false,
        }
    }

    /// Stretches the mouse selection to the click, when one is being made
    /// and the click is on article text; returns whether it did.
    pub fn drag_mouse_selection(&mut self, rect: Rect, col: u16, row: u16) -> (r: bool)
        requires
            in_range(*old(self)),
            rect.x + rect.width + 2 <= u16::MAX,
            rect.y + rect.height + 1 <= u16::MAX,
        ensures
            match dragged(*old(self), rect, col, row) {
                Some(q) => r && *final(self) == q,
                None => !r && *final(self) == *old(self),
            },
    {
        if !self.is_mouse_selecting {
            return false;
        }
        match self.selection_anchor {
            Some(anchor) => match get_char_coord_in_article_pane(self, rect, col, row) {
                Some(pos) => {
                    self.text_selection = Some(TextSelection { start: anchor, end: pos });
                    true
                },
                None => false,
            },
            None => false,
        }
    }

    /// Ends a mouse selection: returns the text to copy, if any.
    pub fn end_mouse_selection(&mut self) -> (r: Option<String>)
        requires
            in_range(*old(self)),
        ensures
            *final(self) == released(*old(self)),
            match released_text(*old(self)) {
                Some(t) => r matches Some(s) && s@ == t,
                None => r is None,
            },
    {
        if !self.is_mouse_selecting {
            return None;
        }
        self.is_mouse_selecting = false;
        match (&self.text_selection, &self.content) {
            (Some(sel), PaneContent::ArticleText { parsed_doc, .. }) => {
                let same = sel.start.0 == sel.end.0 && sel.start.1 == sel.end.1;
                if same {
                    return None;
                }
                let text = extract_selected_text(parsed_doc, sel);
                let cs = to_chars(text.as_str());
                if is_all_whitespace(&cs) {
                    None
                } else {
                    Some(text)
                }
            },
            _ => None,
        }
    }
}

/// Tab `b` after a press at `(col, row)` over tab `a`, its panes drawn in
/// `rects`: the first pane showing article text there becomes active and
/// starts a selection (`r`); otherwise the last pane clicked, if any,
/// becomes active.
pub open spec fn pressed(a: Tab, b: Tab, rects: Seq<(usize, Rect)>, col: u16, row: u16, r: bool) -> bool {
    &&& b.name == a.name
    &&& b.layout_root == a.layout_root
    &&& match first_grab(a.panes@, rects, col, row, rects.len() as int) {
        Some(j) => {
            let i = rects[j].0 as int;
            &&& r
            &&& b.active_pane_idx == i
            &&& b.panes@ == a.panes@.update(
                i,
                selection_begun(a.panes@[i], click_position(a.panes@[i], rects[j].1, col, row)->0),
            )
        },
        None => {
            &&& !r
            &&& b.panes@ == a.panes@
            &&& b.active_pane_idx == match last_inside(rects, col, row, rects.len() as int) {
                Some(j) => rects[j].0,
                None => a.active_pane_idx,
            }
        },
    }
}

impl Tab {
    /// A mouse press over the tab, its panes drawn in `rects`.
    pub fn press_at(&mut self, col: u16, row: u16, rects: &Vec<(usize, Rect)>) -> (r: bool)
        requires
            tab_ok(*old(self)),
            rects_ok(rects@, old(self).panes@.len() as int),
        ensures
            tab_ok(*final(self)),
            pressed(*old(self), *final(self), rects@, col, row, r),
    {
        let ghost a = *self;
        let mut k: usize = 0;
        while k < rects.len()
            invariant
                k <= rects.len(),
                a == *old(self),
                tab_ok(a),
                rects_ok(rects@, a.panes@.len() as int),
                self.name == a.name,
                self.layout_root == a.layout_root,
                self.panes@ == a.panes@,
                self.active_pane_idx < a.panes@.len(),
                first_grab(a.panes@, rects@, col, row, k as int) is None,
                self.active_pane_idx == match last_inside(rects@, col, row, k as int) {
                    Some(j) => rects@[j].0,
                    None => a.active_pane_idx,
                },
            decreases rects.len() - k,
        {
            let (idx, rect) = rects[k];
            assert(rects@[k as int] == (idx, rect));
            if col >= rect.x && col < rect.x + rect.width && row >= rect.y && row < rect.y + rect.height {
                self.active_pane_idx = idx;
                let ghost p0 = self.panes@[idx as int];
                assert(matches_in_range(p0));
                let mut pane = self.panes.remove(idx);
                let ghost rest = self.panes@;
                let grabbed = pane.begin_mouse_selection(rect, col, row);
                self.panes.insert(idx, pane);
                if grabbed {
                    proof {
                        assert(first_grab(a.panes@, rects@, col, row, k + 1) == Some(k as int));
                        assert(p0 == a.panes@[idx as int]);
                        assert(pane == selection_begun(
                            a.panes@[idx as int],
                            click_position(a.panes@[idx as int], rects@[k as int].1, col, row)->0,
                        ));
                        lemma_first_grab_stays(a.panes@, rects@, col, row, k + 1, rects@.len() as int);
                        assert(self.panes@ =~= a.panes@.update(idx as int, pane));
                        lemma_begun_in_range(p0, click_position(p0, rect, col, row)->0);
                        assert forall|q: int| 0 <= q < self.panes@.len() implies matches_in_range(
                            #[trigger] self.panes@[q],
                        ) by {
                            if q != idx as int {
                                assert(self.panes@[q] == a.panes@[q]);
                            }
                        }
                    }
                    return true;
                }
                assert(self.panes@ =~= a.panes@);
            }
            k += 1;
        }
        false
    }
}

proof fn lemma_rect_of_names(rects: Seq<(usize, Rect)>, idx: usize, n: int)
    ensures
        rect_of(rects, idx, n) matches Some(j) ==> 0 <= j < n && rects[j].0 == idx,
    decreases n,
{
    if n > 0 {
        lemma_rect_of_names(rects, idx, n - 1);
    }
}

/// A press is taken in normal mode, below the tab bar and above the
/// status line.
pub open spec fn press_taken(a: App, row: u16, term_height: u16) -> bool {
    a.input_mode == InputMode::Normal && row != 0 && (row as int) < term_height - 1
}

impl App {
    /// A mouse press at `(col, row)` with the active tab's panes drawn in
    /// `rects`: see `Tab::press_at`; returns whether a selection started.
    pub fn handle_selection_down(&mut self, col: u16, row: u16, term_height: u16, rects: &Vec<(usize, Rect)>) -> (r:
        bool)
        requires
            app_ok(*old(self)),
            rects_ok(rects@, active_tab(*old(self)).panes@.len() as int),
        ensures
            app_ok(*final(self)),
            !press_taken(*old(self), row, term_height) ==> !r && *final(self) == *old(self),
            press_taken(*old(self), row, term_height) ==> {
                &&& final(self).tabs@ == old(self).tabs@.update(old(self).active_tab_idx as int, active_tab(*final(self)))
                &&& *final(self) == (App { tabs: final(self).tabs, ..*old(self) })
                &&& pressed(active_tab(*old(self)), active_tab(*final(self)), rects@, col, row, r)
            },
    {
        if self.input_mode != InputMode::Normal {
            return false;
        }
        let last_row: u16 = if term_height > 0 { term_height - 1 } else { 0 };
        if row == 0 || row >= last_row {
            return false;
        }
        let ghost before = *self;
        let ti = self.active_tab_idx;
        let mut tab = self.tabs.remove(ti);
        let r = tab.press_at(col, row, rects);
        self.tabs.insert(ti, tab);
        proof {
            assert(self.tabs@ =~= before.tabs@.update(ti as int, tab));
            assert forall|t: int| 0 <= t < self.tabs@.len() implies tab_ok(#[trigger] self.tabs@[t]) by {
                if t != ti as int {
                    assert(self.tabs@[t] == before.tabs@[t]);
                }
            }
        }
        r
    }

    /// The mouse dragged to `(col, row)`, the active tab's panes drawn in
    /// `rects`: the active pane's selection follows it (see `dragged`,
    /// with the first rectangle drawn for that pane); returns whether it
    /// did.
    pub fn handle_selection_drag(&mut self, col: u16, row: u16, rects: &Vec<(usize, Rect)>) -> (r: bool)
        requires
            app_ok(*old(self)),
            rects_ok(rects@, active_tab(*old(self)).panes@.len() as int),
        ensures
            app_ok(*final(self)),
            ({
                let a = *old(self);
                let found = rect_of(rects@, active_tab(a).active_pane_idx, rects@.len() as int);
                if a.input_mode == InputMode::Normal && found is Some && dragged(
                    active_pane(a),
                    rects@[found->0].1,
                    col,
                    row,
                ) is Some {
                    &&& r
                    &&& with_active_pane(a, *final(self), dragged(active_pane(a), rects@[found->0].1, col, row)->0)
                } else {
                    !r && *final(self) == a
                }
            }),
    {
        if self.input_mode != InputMode::Normal {
            return false;
        }
        let ti = self.active_tab_idx;
        let pi = self.tabs[ti].active_pane_idx;
        let mut k: usize = 0;
        let mut found: Option<Rect> = None;
        while k < rects.len()
            invariant
                k <= rects.len(),
                found is None ==> rect_of(rects@, pi, k as int) is None,
                found matches Some(fr) ==> rect_of(rects@, pi, k as int) matches Some(j) && rects@[j].1 == fr,
            decreases rects.len() - k,
        {
            if found.is_none() && rects[k].0 == pi {
                found = Some(rects[k].1);
            }
            k += 1;
        }
        let rect = match found {
            Some(fr) => fr,
            None => return false,
        };
        proof {
            let j = rect_of(rects@, pi, k as int)->0;
            lemma_rect_of_stays(rects@, pi, k as int, rects@.len() as int);
            lemma_rect_of_names(rects@, pi, k as int);
            let e = rects@[j];
            assert(e.1 == rect);
            assert(tab_ok(self.tabs@[ti as int]));
            assert(matches_in_range(self.tabs@[ti as int].panes@[pi as int]));
        }
        let p = &self.tabs[ti].panes[pi];
        if !p.is_mouse_selecting || p.selection_anchor.is_none() {
            return false;
        }
        if get_char_coord_in_article_pane(p, rect, col, row).is_none() {
            return false;
        }
        let ghost before = *self;
        let (tab, mut pane) = self.take_pane_at(ti, pi);
        pane.drag_mouse_selection(rect, col, row);
        self.put_pane_at(ti, pi, tab, pane, Ghost(before));
        true
    }

    /// The mouse released: the active pane's selection ends; returns the
    /// text to copy, if any (see `released_text`).
    pub fn handle_selection_up(&mut self) -> (r: Option<String>)
        requires
            app_ok(*old(self)),
        ensures
            app_ok(*final(self)),
            with_active_pane(*old(self), *final(self), released(active_pane(*old(self)))),
            match released_text(active_pane(*old(self))) {
                Some(t) => r matches Some(s) && s@ == t,
                None => r is None,
            },
    {
        let ghost before = *self;
        let ti = self.active_tab_idx;
        let pi = self.tabs[ti].active_pane_idx;
        let (tab, mut pane) = self.take_pane_at(ti, pi);
        let text = pane.end_mouse_selection();
        self.put_pane_at(ti, pi, tab, pane, Ghost(before));
        text
    }
}

} // verus!
