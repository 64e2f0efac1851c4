//! A pane: what it shows (nothing, search results, an article or an error)
//! and where the reader is in it.
use vstd::prelude::*;
use crate::api::SearchResultItem;
use crate::parser::types::{Heading, Link};
pub use crate::parser::types::ParsedDocument;
use crate::text::string_of;

verus! {

/// An occurrence of the in-page search query: its line, the piece of the
/// line where it starts, and its byte offset in the lower-cased line.
#[derive(Debug, Clone, Copy, PartialEq, Eq, Structural)]
pub struct LocalMatch {
    pub line_idx: usize,
    pub span_idx: usize,
    pub char_offset: usize,
}

/// A mouse selection from `start` to `end`, each a `(line, column)`; either
/// end may come first.
#[derive(Debug, Clone, Copy, PartialEq, Eq)]
pub struct TextSelection {
    pub start: (usize, usize),
    pub end: (usize, usize),
}

/// `(line, column)` positions in reading order.
pub open spec fn pos_le(a: (usize, usize), b: (usize, usize)) -> bool {
    a.0 < b.0 || (a.0 == b.0 && a.1 <= b.1)
}

impl TextSelection {
    /// The two ends, earlier first.
    pub fn normalized(&self) -> (r: ((usize, usize), (usize, usize)))
        ensures
            pos_le(self.start, self.end) ==> r == (self.start, self.end),
            !pos_le(self.start, self.end) ==> r == (self.end, self.start),
            pos_le(r.0, r.1),
    {
        let le = self.start.0 < self.end.0 || (self.start.0 == self.end.0 && self.start.1 <= self.end.1);
        if le {
            (self.start, self.end)
        } else {
            (self.end, self.start)
        }
    }

    /// Whether line `line_idx` lies between the two ends.
    pub fn contains_line(&self, line_idx: usize) -> (r: bool)
        ensures
            r == ((self.start.0 <= line_idx && line_idx <= self.end.0) || (self.end.0 <= line_idx
                && line_idx <= self.start.0)),
    {
        let (start, end) = self.normalized();
        line_idx >= start.0 && line_idx <= end.0
    }
}

/// What a pane shows.
#[derive(Debug, Clone)]
pub enum PaneContent {
    Empty,
    SearchResults { query: String, items: Vec<SearchResultItem> },
    /// An article, its markup, and the layout settings it was rendered with.
    ArticleText {
        title: String,
        raw_html: String,
        parsed_doc: ParsedDocument,
        last_width: usize,
        last_show_footnotes: bool,
        last_heading_marker: bool,
        last_code_line_numbers: bool,
    },
    Error(String),
}

/// A pane and the reader's position in it.
#[derive(Debug, Clone)]
pub struct Pane {
    pub id: usize,
    pub content: PaneContent,
    pub selected_idx: usize,
    pub scroll_offset: usize,
    pub viewport_height: usize,
    pub selected_link_idx: Option<usize>,
    pub local_search_query: String,
    pub local_matches: Vec<LocalMatch>,
    pub selected_match_idx: Option<usize>,
    pub text_selection: Option<TextSelection>,
    pub is_mouse_selecting: bool,
    pub selection_anchor: Option<(usize, usize)>,
    pub is_loading: bool,
    pub loading_title: Option<String>,
    pub show_toc: bool,
    pub selected_toc_idx: Option<usize>,
    pub toc_focused: bool,
    pub history_back: Vec<String>,
    pub history_forward: Vec<String>,
    pub jump_stack: Vec<usize>,
    pub current_request_id: u64,
}

/// The number of rendered lines of an article pane; other panes have none.
pub open spec fn line_count(c: PaneContent) -> nat {
    match c {
        PaneContent::ArticleText { parsed_doc, .. } => parsed_doc.lines@.len(),
        _ => 0,
    }
}

/// `a - b`, or 0 when `b` is larger (`usize::saturating_sub`).
pub open spec fn minus(a: int, b: int) -> int {
    if a > b {
        a - b
    } else {
        0
    }
}

/// The rows an article takes on screen: the pane's own height once known,
/// else the terminal's height less four, at least one.
pub open spec fn viewport_rows(viewport_height: usize, term_height: u16) -> int {
    if viewport_height > 0 {
        viewport_height as int
    } else if term_height >= 5 {
        term_height - 4
    } else {
        1
    }
}

impl Pane {
    /// An empty pane with no history.
    pub fn new(id: usize) -> (r: Self)
        ensures
            r.id == id,
            r.content is Empty,
            r.selected_idx == 0,
            r.scroll_offset == 0,
            r.viewport_height == 0,
            r.selected_link_idx is None,
            r.local_search_query@ == Seq::<char>::empty(),
            r.local_matches@ == Seq::<LocalMatch>::empty(),
            r.selected_match_idx is None,
            r.text_selection is None,
            !r.is_mouse_selecting,
            r.selection_anchor is None,
            !r.is_loading,
            r.loading_title is None,
            !r.show_toc,
            r.selected_toc_idx is None,
            !r.toc_focused,
            r.history_back@ == Seq::<String>::empty(),
            r.history_forward@ == Seq::<String>::empty(),
            r.jump_stack@ == Seq::<usize>::empty(),
            r.current_request_id == 0,
    {
        Pane {
            id,
            content: PaneContent::Empty,
            selected_idx: 0,
            scroll_offset: 0,
            viewport_height: 0,
            selected_link_idx: None,
            local_search_query: String::new(),
            local_matches: Vec::new(),
            selected_match_idx: None,
            text_selection: None,
            is_mouse_selecting: false,
            selection_anchor: None,
            is_loading: false,
            loading_title: None,
            show_toc: false,
            selected_toc_idx: None,
            toc_focused: false,
            history_back: Vec::new(),
            history_forward: Vec::new(),
            jump_stack: Vec::new(),
            current_request_id: 0,
        }
    }

    /// Marks the pane as loading `title` and forgets the position in the
    /// article it showed.
    pub fn prepare_for_article_fetch(&mut self, title: &str)
        ensures
            final(self).is_loading,
            final(self).loading_title matches Some(t) && t@ == title@,
            final(self).selected_link_idx is None,
            final(self).text_selection is None,
            !final(self).is_mouse_selecting,
            final(self).selection_anchor is None,
            final(self).jump_stack@ == Seq::<usize>::empty(),
            final(self).scroll_offset == 0,
            !final(self).show_toc,
            final(self).selected_toc_idx is None,
            final(self).id == old(self).id,
            final(self).content == old(self).content,
            final(self).selected_idx == old(self).selected_idx,
            final(self).viewport_height == old(self).viewport_height,
            final(self).history_back == old(self).history_back,
            final(self).history_forward == old(self).history_forward,
            final(self).toc_focused == old(self).toc_focused,
            final(self).local_search_query == old(self).local_search_query,
            final(self).local_matches == old(self).local_matches,
            final(self).selected_match_idx == old(self).selected_match_idx,
            final(self).current_request_id == old(self).current_request_id,
    {
        self.is_loading = true;
        self.loading_title = Some(string_of(title));
        self.selected_link_idx = None;
        self.text_selection = None;
        self.is_mouse_selecting = false;
        self.selection_anchor = None;
        self.jump_stack.clear();
        self.scroll_offset = 0;
        self.show_toc = false;
        self.selected_toc_idx = None;
    }

    /// The title of the article shown, if any.
    pub fn title(&self) -> (r: Option<String>)
        ensures
            match self.content {
                PaneContent::ArticleText { title, .. } => r matches Some(t) && t@ == title@,
                _ => r is None,
            },
    {
        match &self.content {
            PaneContent::ArticleText { title, .. } => Some(string_of(title.as_str())),
            _ => None,
        }
    }

    /// The link that has the focus, if the pane shows an article and the
    /// focus is on one of its links.
    pub fn focused_link(&self) -> (r: Option<&Link>)
        ensures
            match (self.content, self.selected_link_idx) {
                (PaneContent::ArticleText { parsed_doc, .. }, Some(i)) => if i < parsed_doc.links@.len() {
                    r == Some(&parsed_doc.links@[i as int])
                } else {
                    r is None
                },
                _ => r is None,
            },
    {
        match &self.content {
            PaneContent::ArticleText { parsed_doc, .. } => match self.selected_link_idx {
                Some(i) => if i < parsed_doc.links.len() {
                    Some(&parsed_doc.links[i])
                } else {
                    None
                },
                None => None,
            },
            _ => None,
        }
    }

    /// The rows the article takes on screen.
    pub fn effective_viewport_height(&self, term_height: u16) -> (r: usize)
        ensures
            r == viewport_rows(self.viewport_height, term_height),
            r >= 1,
    {
        if self.viewport_height > 0 {
            self.viewport_height
        } else if term_height >= 5 {
            (term_height - 4) as usize
        } else {
            1
        }
    }

    /// How far a page scroll moves: three quarters of the rows, at least one.
    pub fn page_scroll_step(&self, term_height: u16) -> (r: usize)
        ensures
            r == (if viewport_rows(self.viewport_height, term_height) * 3 / 4 >= 1 {
                viewport_rows(self.viewport_height, term_height) * 3 / 4
            } else {
                1
            }),
    {
        let v = self.effective_viewport_height(term_height);
        let step = if v <= usize::MAX / 3 { v * 3 / 4 } else { v / 4 * 3 + (v % 4) * 3 / 4 };
        assert(step == v * 3 / 4) by (nonlinear_arith)
            requires
                step == (if v <= usize::MAX / 3 { v * 3 / 4 } else { v / 4 * 3 + (v % 4) * 3 / 4 }),
                v >= 0;
        if step >= 1 {
            step
        } else {
            1
        }
    }

    /// The furthest the article can be scrolled: the lines that do not fit.
    pub fn max_scroll(&self, term_height: u16) -> (r: usize)
        ensures
            r == minus(line_count(self.content) as int, viewport_rows(self.viewport_height, term_height)),
    {
        let viewport = self.effective_viewport_height(term_height);
        match &self.content {
            PaneContent::ArticleText { parsed_doc, .. } => {
                let n = parsed_doc.lines.len();
                if n > viewport {
                    n - viewport
                } else {
                    0
                }
            },
            _ => 0,
        }
    }
}

} // verus!
