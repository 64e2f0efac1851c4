//! What the reader does with the network worker's replies, and the requests
//! it queues for it.
use vstd::prelude::*;
use super::navigation::in_range;
use super::pane::{minus, Pane, PaneContent, ParsedDocument};
use super::recent::{record_recent_article, recorded};
use super::search::{matches_in_range, recomputed};
use super::state::{active_pane, active_tab, app_ok, same_settings, with_active_pane, with_pane_at, App, Tab};
use crate::api::{NetworkCommand, SearchResultItem};
use crate::parser::document::{effective, lower_texts_ok, parse_wikipedia_html, read_article, LinkV, ReadOptions};
use crate::parser::elements::headings_view;
use crate::parser::types::{lines_view, links_view};
use crate::api::NetworkEvent;
use crate::feed::algorithm::FeedItem;
use crate::text::{string_of, strs_view};

verus! {

/// The first pane with id `id`, tab by tab, as `(tab, pane)`.
pub open spec fn pane_position(tabs: Seq<Tab>, id: usize, t: int) -> Option<(int, int)>
    decreases tabs.len() - t, 0int,
{
    if t < 0 || t >= tabs.len() {
        None
    } else {
        match pane_in_tab(tabs[t].panes@, id, 0) {
            Some(p) => Some((t, p)),
            None => pane_position(tabs, id, t + 1),
        }
    }
}

/// The first pane from `p` on with id `id`.
pub open spec fn pane_in_tab(panes: Seq<Pane>, id: usize, p: int) -> Option<int>
    decreases panes.len() - p,
{
    if p < 0 || p >= panes.len() {
        None
    } else if panes[p].id == id {
        Some(p)
    } else {
        pane_in_tab(panes, id, p + 1)
    }
}

proof fn lemma_pane_in_tab(panes: Seq<Pane>, id: usize, p: int)
    requires
        0 <= p,
    ensures
        pane_in_tab(panes, id, p) matches Some(q) ==> p <= q < panes.len(),
    decreases panes.len() - p,
{
    if p < panes.len() && panes[p].id != id {
        lemma_pane_in_tab(panes, id, p + 1);
    }
}

proof fn lemma_pane_position(tabs: Seq<Tab>, id: usize, t: int)
    requires
        0 <= t,
    ensures
        pane_position(tabs, id, t) matches Some((a, b)) ==> t <= a < tabs.len() && 0 <= b
            < tabs[a].panes@.len(),
    decreases tabs.len() - t,
{
    if t < tabs.len() {
        lemma_pane_in_tab(tabs[t].panes@, id, 0);
        if pane_in_tab(tabs[t].panes@, id, 0) is None {
            lemma_pane_position(tabs, id, t + 1);
        }
    }
}

/// Where the pane with id `id` is.
fn find_pane(tabs: &Vec<Tab>, id: usize) -> (r: Option<(usize, usize)>)
    ensures
        match r {
            Some((a, b)) => pane_position(tabs@, id, 0) == Some((a as int, b as int)) && a < tabs@.len() && b
                < tabs@[a as int].panes@.len(),
            None => pane_position(tabs@, id, 0) is None,
        },
{
    let mut t: usize = 0;
    while t < tabs.len()
        invariant
            t <= tabs@.len(),
            pane_position(tabs@, id, 0) == pane_position(tabs@, id, t as int),
        decreases tabs.len() - t,
    {
        let panes = &tabs[t].panes;
        let mut p: usize = 0;
        while p < panes.len()
            invariant
                t < tabs@.len(),
                p <= panes@.len(),
                panes@ == tabs@[t as int].panes@,
                pane_position(tabs@, id, 0) == pane_position(tabs@, id, t as int),
                pane_in_tab(panes@, id, 0) == pane_in_tab(panes@, id, p as int),
            decreases panes.len() - p,
        {
            if panes[p].id == id {
                return Some((t, p));
            }
            p += 1;
        }
        t += 1;
    }
    None
}

/// A reply numbered `request_id` for pane `pane_id` is stale: the pane
/// sent a newer request since.
pub open spec fn stale(tabs: Seq<Tab>, pane_id: usize, request_id: u64) -> bool {
    match pane_position(tabs, pane_id, 0) {
        Some((t, p)) => request_id < tabs[t].panes@[p].current_request_id,
        None => false,
    }
}

fn is_stale(tabs: &Vec<Tab>, pane_id: usize, request_id: u64) -> (r: bool)
    ensures
        r == stale(tabs@, pane_id, request_id),
{
    match find_pane(tabs, pane_id) {
        Some((t, p)) => request_id < tabs[t].panes[p].current_request_id,
        None => false,
    }
}

/// The pane after search results for `query` arrived.
pub open spec fn with_results(p: Pane, query: String, results: Vec<SearchResultItem>) -> Pane {
    Pane {
        is_loading: false,
        loading_title: None,
        selected_idx: 0,
        scroll_offset: 0,
        toc_focused: false,
        content: PaneContent::SearchResults { query, items: results },
        ..p
    }
}

/// The pane after a request for it failed.
pub open spec fn with_error(p: Pane, message: String) -> Pane {
    Pane { is_loading: false, loading_title: None, content: PaneContent::Error(message), ..p }
}

/// The pane after the article `title` arrived, laid out with `o`: the view
/// keeps its offset if the article is long enough, and the first link takes
/// the focus.
pub open spec fn with_article(p: Pane, title: String, raw_html: String, doc: ParsedDocument, o: ReadOptions) -> Pane {
    Pane {
        is_loading: false,
        loading_title: None,
        toc_focused: false,
        scroll_offset: if (p.scroll_offset as int) < minus(doc.lines@.len() as int, 1) {
            p.scroll_offset
        } else {
            minus(doc.lines@.len() as int, 1) as usize
        },
        content: PaneContent::ArticleText {
            title,
            raw_html,
            parsed_doc: doc,
            last_width: o.max_width,
            last_show_footnotes: o.show_footnotes,
            last_heading_marker: o.heading_marker,
            last_code_line_numbers: o.code_line_numbers,
        },
        selected_link_idx: if doc.links@.len() > 0 { Some(0usize) } else { None },
        ..p
    }
}

/// A rendered article whose positions all stay far below `usize::MAX`.
pub open spec fn doc_in_range(doc: ParsedDocument) -> bool {
    &&& doc.lines@.len() < usize::MAX / 4
    &&& doc.links@.len() < usize::MAX / 4
    &&& doc.headings@.len() < usize::MAX / 4
    &&& forall|i: int| 0 <= i < doc.headings@.len() ==> (#[trigger] doc.headings@[i]).line_idx < usize::MAX / 4
    &&& forall|i: int| 0 <= i < doc.reference_targets@.len() ==> (#[trigger] doc.reference_targets@[i]).1
        < usize::MAX / 4
    &&& forall|i: int, k: int|
        0 <= i < doc.links@.len() && 0 <= k < doc.links@[i].span_indices@.len() ==> (
        #[trigger] doc.links@[i].span_indices@[k]).0 < usize::MAX / 4
}

impl App {
    /// Search results for a pane arrived; a pane that is gone ignores them.
    pub fn show_search_results(&mut self, pane_id: usize, query: String, results: Vec<SearchResultItem>)
        requires
            app_ok(*old(self)),
            results@.len() < usize::MAX / 16,
        ensures
            app_ok(*final(self)),
            match pane_position(old(self).tabs@, pane_id, 0) {
                Some((t, p)) => with_pane_at(
                    *old(self),
                    *final(self),
                    t,
                    p,
                    with_results(old(self).tabs@[t].panes@[p], query, results),
                ),
                None => *final(self) == *old(self),
            },
    {
        match find_pane(&self.tabs, pane_id) {
            Some((t, p)) => {
                let ghost before = *self;
                let (tab, mut pane) = self.take_pane_at(t, p);
                pane.is_loading = false;
                pane.loading_title = None;
                pane.selected_idx = 0;
                pane.scroll_offset = 0;
                pane.toc_focused = false;
                pane.content = PaneContent::SearchResults { query, items: results };
                self.put_pane_at(t, p, tab, pane, Ghost(before));
            },
            None => {},
        }
    }

    /// A request for a pane failed.
    pub fn show_error(&mut self, pane_id: usize, message: String)
        requires
            app_ok(*old(self)),
        ensures
            app_ok(*final(self)),
            match pane_position(old(self).tabs@, pane_id, 0) {
                Some((t, p)) => with_pane_at(
                    *old(self),
                    *final(self),
                    t,
                    p,
                    with_error(old(self).tabs@[t].panes@[p], message),
                ),
                None => *final(self) == *old(self),
            },
    {
        match find_pane(&self.tabs, pane_id) {
            Some((t, p)) => {
                let ghost before = *self;
                let (tab, mut pane) = self.take_pane_at(t, p);
                pane.is_loading = false;
                pane.loading_title = None;
                pane.content = PaneContent::Error(message);
                self.put_pane_at(t, p, tab, pane, Ghost(before));
            },
            None => {},
        }
    }

    /// An article arrived for a pane, rendered as `doc` with the settings `o`.
    pub fn show_article(
        &mut self,
        pane_id: usize,
        title: String,
        raw_html: String,
        doc: ParsedDocument,
        o: ReadOptions,
    )
        requires
            app_ok(*old(self)),
            doc_in_range(doc),
        ensures
            app_ok(*final(self)),
            match pane_position(old(self).tabs@, pane_id, 0) {
                Some((t, p)) => with_pane_at(
                    *old(self),
                    *final(self),
                    t,
                    p,
                    with_article(old(self).tabs@[t].panes@[p], title, raw_html, doc, o),
                ),
                None => *final(self) == *old(self),
            },
    {
        match find_pane(&self.tabs, pane_id) {
            Some((t, p)) => {
                let ghost before = *self;
                let (tab, mut pane) = self.take_pane_at(t, p);
                pane.is_loading = false;
                pane.loading_title = None;
                pane.toc_focused = false;
                let n = doc.lines.len();
                let last = if n > 0 { n - 1 } else { 0 };
                if pane.scroll_offset >= last {
                    pane.scroll_offset = last;
                }
                pane.selected_link_idx = if doc.links.len() > 0 { Some(0) } else { None };
                pane.content = PaneContent::ArticleText {
                    title,
                    raw_html,
                    parsed_doc: doc,
                    last_width: o.max_width,
                    last_show_footnotes: o.show_footnotes,
                    last_heading_marker: o.heading_marker,
                    last_code_line_numbers: o.code_line_numbers,
                };
                self.put_pane_at(t, p, tab, pane, Ghost(before));
            },
            None => {},
        }
    }
}


/// An article read from markup whose positions all stay far below
/// `usize::MAX`.
pub open spec fn views_in_range(a: (Seq<Seq<Seq<char>>>, Seq<LinkV>, Seq<(Seq<char>, u8, usize)>)) -> bool {
    &&& a.0.len() < usize::MAX / 4
    &&& a.1.len() < usize::MAX / 4
    &&& a.2.len() < usize::MAX / 4
    &&& forall|i: int| 0 <= i < a.2.len() ==> (#[trigger] a.2[i]).2 < usize::MAX / 4
    &&& forall|i: int, k: int| 0 <= i < a.1.len() && 0 <= k < a.1[i].2.len() ==> (#[trigger] a.1[i].2[k]).0 < usize::MAX / 4
}

/// The lines, links and headings of a document as plain values.
pub open spec fn doc_views(d: ParsedDocument) -> (Seq<Seq<Seq<char>>>, Seq<LinkV>, Seq<(Seq<char>, u8, usize)>) {
    (lines_view(d.lines@), links_view(d.links@), headings_view(d.headings@))
}

proof fn lemma_doc_in_range_views(d: ParsedDocument)
    requires
        d.reference_targets@.len() == 0,
    ensures
        doc_in_range(d) == views_in_range(doc_views(d)),
{
    let a = doc_views(d);
    assert(a.0.len() == d.lines@.len());
    assert(a.1.len() == d.links@.len());
    assert(a.2.len() == d.headings@.len());
    if doc_in_range(d) {
        assert forall|i: int| 0 <= i < a.2.len() implies (#[trigger] a.2[i]).2 < usize::MAX / 4 by {
            assert(a.2[i].2 == d.headings@[i].line_idx);
        }
        assert forall|i: int, k: int| 0 <= i < a.1.len() && 0 <= k < a.1[i].2.len() implies (#[trigger] a.1[i].2[k]).0 < usize::MAX / 4 by {
            assert(a.1[i].2 == d.links@[i].span_indices@);
        }
    }
    if views_in_range(a) {
        assert forall|i: int| 0 <= i < d.headings@.len() implies (#[trigger] d.headings@[i]).line_idx < usize::MAX / 4 by {
            assert(a.2[i].2 == d.headings@[i].line_idx);
        }
        assert forall|i: int, k: int| 0 <= i < d.links@.len() && 0 <= k < d.links@[i].span_indices@.len() implies (#[trigger] d.links@[i].span_indices@[k]).0 < usize::MAX / 4 by {
            assert(a.1[i].2 == d.links@[i].span_indices@);
            assert(a.1[i].2[k] == d.links@[i].span_indices@[k]);
        }
    }
}

/// Whether every position of `doc` stays far below `usize::MAX`.
pub fn doc_fits(doc: &ParsedDocument) -> (r: bool)
    ensures
        r == doc_in_range(*doc),
{
    let q = usize::MAX / 4;
    if doc.lines.len() >= q || doc.links.len() >= q || doc.headings.len() >= q {
        return false;
    }
    let mut i: usize = 0;
    while i < doc.headings.len()
        invariant
            i <= doc.headings@.len(),
            q == usize::MAX / 4,
            forall|j: int| 0 <= j < i ==> (#[trigger] doc.headings@[j]).line_idx < usize::MAX / 4,
        decreases doc.headings@.len() - i,
    {
        if doc.headings[i].line_idx >= q {
            return false;
        }
        i += 1;
    }
    let mut i: usize = 0;
    while i < doc.reference_targets.len()
        invariant
            i <= doc.reference_targets@.len(),
            q == usize::MAX / 4,
            forall|j: int| 0 <= j < doc.headings@.len() ==> (#[trigger] doc.headings@[j]).line_idx < usize::MAX / 4,
            forall|j: int| 0 <= j < i ==> (#[trigger] doc.reference_targets@[j]).1 < usize::MAX / 4,
        decreases doc.reference_targets@.len() - i,
    {
        if doc.reference_targets[i].1 >= q {
            return false;
        }
        i += 1;
    }
    let mut i: usize = 0;
    while i < doc.links.len()
        invariant
            i <= doc.links@.len(),
            q == usize::MAX / 4,
            doc.lines@.len() < usize::MAX / 4,
            doc.links@.len() < usize::MAX / 4,
            doc.headings@.len() < usize::MAX / 4,
            forall|j: int| 0 <= j < doc.headings@.len() ==> (#[trigger] doc.headings@[j]).line_idx < usize::MAX / 4,
            forall|j: int| 0 <= j < doc.reference_targets@.len() ==> (#[trigger] doc.reference_targets@[j]).1 < usize::MAX / 4,
            forall|j: int, k: int| 0 <= j < i && 0 <= k < doc.links@[j].span_indices@.len() ==> (#[trigger] doc.links@[j].span_indices@[k]).0 < usize::MAX / 4,
        decreases doc.links@.len() - i,
    {
        let sp = &doc.links[i].span_indices;
        let mut k: usize = 0;
        while k < sp.len()
            invariant
                k <= sp@.len(),
                q == usize::MAX / 4,
                i < doc.links@.len(),
                sp@ == doc.links@[i as int].span_indices@,
                forall|j: int, k: int| 0 <= j < i && 0 <= k < doc.links@[j].span_indices@.len() ==> (#[trigger] doc.links@[j].span_indices@[k]).0 < usize::MAX / 4,
                forall|m: int| 0 <= m < k ==> (#[trigger] sp@[m]).0 < usize::MAX / 4,
            decreases sp@.len() - k,
        {
            if sp[k].0 >= q {
                return false;
            }
            k += 1;
        }
        i += 1;
    }
    true
}

/// The link focus after an article was laid out anew with `n` links: a
/// focus past the last link moves to it.
pub open spec fn clamp_focus(sel: Option<usize>, n: int) -> Option<usize> {
    match sel {
        Some(i) => if (i as int) >= n {
            if n == 0 { None } else { Some((n - 1) as usize) }
        } else {
            Some(i)
        },
        None => None,
    }
}

/// `b` is `a` whose article was laid out anew with `o` as `lay`.
pub open spec fn relaid(a: Pane, b: Pane, o: ReadOptions, lay: (Seq<Seq<Seq<char>>>, Seq<LinkV>, Seq<(Seq<char>, u8, usize)>)) -> bool {
    &&& a.content matches PaneContent::ArticleText { title, raw_html, .. }
    &&& b.content matches PaneContent::ArticleText {
        title: t2,
        raw_html: h2,
        parsed_doc: d,
        last_width,
        last_show_footnotes,
        last_heading_marker,
        last_code_line_numbers,
    } && t2 == a.content->title && h2 == a.content->raw_html && doc_views(d) == lay && d.reference_targets@.len() == 0
        && lower_texts_ok(d)
        && last_width == o.max_width && last_show_footnotes == o.show_footnotes && last_heading_marker
        == o.heading_marker && last_code_line_numbers == o.code_line_numbers && recomputed(
        Pane { content: b.content, selected_link_idx: clamp_focus(a.selected_link_idx, d.links@.len() as int), ..a },
        b,
    )
}

/// The article was last laid out with the settings `o`.
pub open spec fn laid_out_with(c: PaneContent, o: ReadOptions) -> bool {
    c matches PaneContent::ArticleText { last_width, last_show_footnotes, last_heading_marker, last_code_line_numbers, .. }
        && last_width == o.max_width && last_show_footnotes == o.show_footnotes && last_heading_marker == o.heading_marker
        && last_code_line_numbers == o.code_line_numbers
}

/// What laying the pane `a` out with the settings `o` gives: nothing changes
/// unless it shows an article last laid out with other settings; then the
/// article is laid out again (and stays as it was where the layout does not
/// fit the machine's integers).
pub open spec fn relayout_post(a: Pane, b: Pane, o: ReadOptions) -> bool {
    &&& (!(a.content is ArticleText) || laid_out_with(a.content, o)) ==> b == a
    &&& (a.content is ArticleText && !laid_out_with(a.content, o)) ==> ({
        let lay = read_article(a.content->raw_html@, effective(o));
        &&& views_in_range(lay) ==> relaid(a, b, o, lay)
        &&& !views_in_range(lay) ==> b == a
    })
}

/// Laying an article out twice with the same settings is laying it out
/// once: the second time changes nothing.
pub proof fn relayout_settles(a: Pane, b: Pane, c: Pane, o: ReadOptions)
    requires
        relayout_post(a, b, o),
        relayout_post(b, c, o),
    ensures
        c == b,
{
}

impl Pane {
    /// Lays the pane's article out again when the width or the settings
    /// changed since it was last laid out: the link focus stays within the
    /// links, and the in-page matches are found again.
    pub fn ensure_parsed_width(&mut self, o: ReadOptions)
        requires
            matches_in_range(*old(self)),
        ensures
            matches_in_range(*final(self)),
            relayout_post(*old(self), *final(self), o),
    {
        let html = match &self.content {
            PaneContent::ArticleText { raw_html, last_width, last_show_footnotes, last_heading_marker, last_code_line_numbers, .. } => {
                if *last_width == o.max_width && *last_show_footnotes == o.show_footnotes && *last_heading_marker
                    == o.heading_marker && *last_code_line_numbers == o.code_line_numbers {
                    return;
                }
                raw_html.clone()
            },
            _ => {
                return;
            },
        };
        let doc = parse_wikipedia_html(html.as_str(), o);
        proof {
            lemma_doc_in_range_views(doc);
        }
        if !doc_fits(&doc) {
            return;
        }
        let title = match &self.content {
            PaneContent::ArticleText { title, .. } => title.clone(),
            _ => String::new(),
        };
        let n = doc.links.len();
        let focus = match self.selected_link_idx {
            Some(i) => if i >= n {
                if n == 0 { None } else { Some(n - 1) }
            } else {
                Some(i)
            },
            None => None,
        };
        self.content = PaneContent::ArticleText {
            title,
            raw_html: html,
            parsed_doc: doc,
            last_width: o.max_width,
            last_show_footnotes: o.show_footnotes,
            last_heading_marker: o.heading_marker,
            last_code_line_numbers: o.code_line_numbers,
        };
        self.selected_link_idx = focus;
        self.recompute_local_matches();
    }
}


/// The settings articles arrive with: the reader's, at 80 columns until the
/// pane's width is known.
pub open spec fn arrival_options(o: ReadOptions) -> ReadOptions {
    ReadOptions { max_width: 80, ..o }
}

impl App {
    /// Takes a reply of the network worker: search results, an article (laid
    /// out with `options` at 80 columns and recorded in `recent`) or an error
    /// goes to the pane that asked, if it is still open and has sent no
    /// newer request (an older reply is dropped); a batch for the discovery
    /// feed is handed back.
    pub fn handle_network_event(&mut self, ev: NetworkEvent, options: ReadOptions, recent: &mut Vec<String>) -> (r: Option<Vec<FeedItem>>)
        requires
            app_ok(*old(self)),
        ensures
            app_ok(*final(self)),
            match ev {
                NetworkEvent::SearchResult { pane_id, request_id, query, results } => {
                    &&& r is None
                    &&& *final(recent) == *old(recent)
                    &&& stale(old(self).tabs@, pane_id, request_id) ==> *final(self) == *old(self)
                    &&& !stale(old(self).tabs@, pane_id, request_id) && results@.len() < usize::MAX / 16 ==> match pane_position(old(self).tabs@, pane_id, 0) {
                        Some((t, p)) => with_pane_at(*old(self), *final(self), t, p, with_results(old(self).tabs@[t].panes@[p], query, results)),
                        None => *final(self) == *old(self),
                    }
                    &&& results@.len() >= usize::MAX / 16 ==> *final(self) == *old(self)
                },
                NetworkEvent::ArticleResult { pane_id, request_id, title, content } => {
                    &&& r is None
                    &&& stale(old(self).tabs@, pane_id, request_id) ==> *final(self) == *old(self) && *final(recent) == *old(recent)
                    &&& !stale(old(self).tabs@, pane_id, request_id) ==> match pane_position(old(self).tabs@, pane_id, 0) {
                        Some((t, p)) => {
                            let o = arrival_options(options);
                            let lay = read_article(content@, effective(o));
                            &&& strs_view(final(recent)@) == recorded(strs_view(old(recent)@), title@)
                            &&& views_in_range(lay) ==> exists|d: ParsedDocument| doc_views(d) == lay && d.reference_targets@.len() == 0 && lower_texts_ok(d)
                                && #[trigger] with_pane_at(*old(self), *final(self), t, p, with_article(old(self).tabs@[t].panes@[p], title, content, d, o))
                            &&& !views_in_range(lay) ==> *final(self) == *old(self)
                        },
                        None => *final(self) == *old(self) && *final(recent) == *old(recent),
                    }
                },
                NetworkEvent::Error { pane_id, request_id, message } => {
                    &&& r is None
                    &&& *final(recent) == *old(recent)
                    &&& stale(old(self).tabs@, pane_id, request_id) ==> *final(self) == *old(self)
                    &&& !stale(old(self).tabs@, pane_id, request_id) ==> match pane_position(old(self).tabs@, pane_id, 0) {
                        Some((t, p)) => with_pane_at(*old(self), *final(self), t, p, with_error(old(self).tabs@[t].panes@[p], message)),
                        None => *final(self) == *old(self),
                    }
                },
                NetworkEvent::FeedBatchLoaded { items } => r == Some(items) && *final(self) == *old(self) && *final(recent) == *old(recent),
            },
    {
        match ev {
            NetworkEvent::SearchResult { pane_id, request_id, query, results } => {
                if is_stale(&self.tabs, pane_id, request_id) {
                    return None;
                }
                if results.len() < usize::MAX / 16 {
                    self.show_search_results(pane_id, query, results);
                }
                None
            },
            NetworkEvent::ArticleResult { pane_id, request_id, title, content } => {
                if is_stale(&self.tabs, pane_id, request_id) {
                    return None;
                }
                if find_pane(&self.tabs, pane_id).is_none() {
                    return None;
                }
                record_recent_article(recent, title.as_str());
                let o = ReadOptions { max_width: 80, ..options };
                let doc = parse_wikipedia_html(content.as_str(), o);
                proof {
                    lemma_doc_in_range_views(doc);
                }
                if doc_fits(&doc) {
                    let ghost d = doc;
                    self.show_article(pane_id, title, content, doc, o);
                }
                None
            },
            NetworkEvent::Error { pane_id, request_id, message } => {
                if is_stale(&self.tabs, pane_id, request_id) {
                    return None;
                }
                self.show_error(pane_id, message);
                None
            },
            NetworkEvent::FeedBatchLoaded { items } => Some(items),
        }
    }
}

impl App {
    /// Lays the article of the active pane out again where the settings `o`
    /// changed since it was last laid out (see `Pane::ensure_parsed_width`).
    pub fn ensure_active_parsed_width(&mut self, o: ReadOptions)
        requires
            app_ok(*old(self)),
        ensures
            app_ok(*final(self)),
            relayout_post(active_pane(*old(self)), active_pane(*final(self)), o),
            with_active_pane(*old(self), *final(self), active_pane(*final(self))),
    {
        let ghost before = *self;
        let ti = self.active_tab_idx;
        let pi = self.tabs[ti].active_pane_idx;
        assert(matches_in_range(before.tabs@[ti as int].panes@[pi as int]));
        let (tab, mut pane) = self.take_pane_at(ti, pi);
        pane.ensure_parsed_width(o);
        self.put_pane_at(ti, pi, tab, pane, Ghost(before));
    }
}

} // verus!
