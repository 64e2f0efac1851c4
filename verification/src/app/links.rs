//! Acting on the selected search result or the focused link: opening it,
//! jumping to a footnote inside the article, or handing an outside address
//! to the clipboard; and the addresses copied by `y` and `Y`.
use vstd::prelude::*;
use super::navigation::{clamped_focus, in_range, touches};
use super::pane::{Pane, PaneContent};
use crate::parser::types::{is_external_target, Link};
use crate::text::{
    chars_eq, has_prefix, push_chars, replace_char, replace_char_seq, skip_chars, starts_with_str,
    string_from_chars, string_of, to_chars,
};

verus! {

/// What activating the selection (`Enter`) asks for.
#[derive(Debug)]
pub enum Activation {
    /// Nothing is selected, or a footnote anchor is not in the article.
    Nothing,
    /// The view jumped to a footnote; the message tells how to return.
    Jumped(String),
    /// An address outside the wiki, to be copied to the clipboard.
    CopyExternal(String),
    /// A page of the wiki to open, if it is an article.
    Follow(String),
}

/// The target of the selected result or of the focused link.
pub open spec fn selected_target(p: Pane) -> Option<Seq<char>> {
    match p.content {
        PaneContent::SearchResults { items, .. } => if p.selected_idx < items@.len() {
            Some(items@[p.selected_idx as int].title@)
        } else {
            None
        },
        PaneContent::ArticleText { parsed_doc, .. } => match p.selected_link_idx {
            Some(i) => if i < parsed_doc.links@.len() {
                Some(parsed_doc.links@[i as int].title@)
            } else {
                None
            },
            None => None,
        },
        _ => None,
    }
}

/// The line of the first anchor named `a`.
pub open spec fn anchor_line(refs: Seq<(String, usize)>, a: Seq<char>, i: int) -> Option<usize>
    decreases refs.len() - i,
{
    if i < 0 || i >= refs.len() {
        None
    } else if refs[i].0@ == a {
        Some(refs[i].1)
    } else {
        anchor_line(refs, a, i + 1)
    }
}

/// The first link from `i` on with a piece on `line`.
pub open spec fn first_link_on(links: Seq<Link>, line: int, i: int) -> Option<int>
    decreases links.len() - i,
{
    if i < 0 || i >= links.len() {
        None
    } else if touches(links[i].span_indices@, line, line + 1) {
        Some(i)
    } else {
        first_link_on(links, line, i + 1)
    }
}

/// The message shown after jumping to anchor `a`.
pub open spec fn jump_message(a: Seq<char>) -> Seq<char> {
    if has_prefix(a, "cite_note"@) {
        "jumped to reference (press H to return)"@
    } else {
        "jumped to citation (press H to return)"@
    }
}

/// The focus after a jump to `line`: the first link there, else unchanged.
pub open spec fn focus_after_jump(p: Pane, links: Seq<Link>, line: usize) -> Option<usize> {
    match first_link_on(links, line as int, 0) {
        Some(k) => Some(k as usize),
        None => p.selected_link_idx,
    }
}

fn anchor_line_exec(refs: &Vec<(String, usize)>, a: &Vec<char>) -> (r: Option<usize>)
    ensures
        r == anchor_line(refs@, a@, 0),
{
    let mut i: usize = 0;
    while i < refs.len()
        invariant
            i <= refs@.len(),
            anchor_line(refs@, a@, 0) == anchor_line(refs@, a@, i as int),
        decreases refs.len() - i,
    {
        let k = to_chars(refs[i].0.as_str());
        if chars_eq(&k, a) {
            return Some(refs[i].1);
        }
        i += 1;
    }
    None
}

fn spans_on_line(spans: &Vec<(usize, usize)>, line: usize) -> (r: bool)
    requires
        line < usize::MAX,
    ensures
        r == touches(spans@, line as int, line + 1),
{
    let mut k: usize = 0;
    while k < spans.len()
        invariant
            k <= spans.len(),
            forall|j: int| 0 <= j < k ==> !(line <= (#[trigger] spans@[j]).0 && spans@[j].0 < line + 1),
        decreases spans.len() - k,
    {
        if spans[k].0 == line {
            return true;
        }
        k += 1;
    }
    false
}

fn first_link_on_exec(links: &Vec<Link>, line: usize) -> (r: Option<usize>)
    requires
        line < usize::MAX,
    ensures
        match r {
            Some(i) => first_link_on(links@, line as int, 0) == Some(i as int) && i < links@.len(),
            None => first_link_on(links@, line as int, 0) is None,
        },
{
    let mut i: usize = 0;
    while i < links.len()
        invariant
            i <= links@.len(),
            line < usize::MAX,
            first_link_on(links@, line as int, 0) == first_link_on(links@, line as int, i as int),
        decreases links.len() - i,
    {
        if spans_on_line(&links[i].span_indices, line) {
            return Some(i);
        }
        i += 1;
    }
    None
}

/// `b` is `a` after `Enter` on its selection, which asked for `r`.
pub open spec fn activated(a: Pane, b: Pane, r: Activation, term_height: u16) -> bool {
    match selected_target(a) {
        None => r is Nothing && b == a,
        Some(t) => if has_prefix(t, "#"@) {
            match a.content {
                PaneContent::ArticleText { parsed_doc, .. } => match anchor_line(
                    parsed_doc.reference_targets@,
                    t.skip(1),
                    0,
                ) {
                    Some(line) => {
                        &&& r matches Activation::Jumped(m) && m@ == jump_message(t.skip(1))
                        &&& b.jump_stack@ == a.jump_stack@.push(a.scroll_offset)
                        &&& b.scroll_offset == line
                        &&& b.selected_link_idx == clamped_focus(
                            Pane {
                                scroll_offset: line,
                                selected_link_idx: focus_after_jump(a, parsed_doc.links@, line),
                                ..a
                            },
                            term_height,
                        )
                        &&& b == Pane {
                            jump_stack: b.jump_stack,
                            scroll_offset: line,
                            selected_link_idx: b.selected_link_idx,
                            ..a
                        }
                    },
                    None => r is Nothing && b == a,
                },
                _ => r is Nothing && b == a,
            }
        } else if is_external_target(t) {
            r matches Activation::CopyExternal(u) && u@ == t && b == a
        } else {
            r matches Activation::Follow(u) && u@ == t && b == a
        },
    }
}

impl Pane {
    /// The target of the selection, copied.
    fn selected_target_exec(&self) -> (r: Option<String>)
        ensures
            match r {
                Some(t) => selected_target(*self) == Some(t@),
                None => selected_target(*self) is None,
            },
    {
        match &self.content {
            PaneContent::SearchResults { items, .. } => if self.selected_idx < items.len() {
                Some(string_of(items[self.selected_idx].title.as_str()))
            } else {
                None
            },
            PaneContent::ArticleText { parsed_doc, .. } => match self.selected_link_idx {
                Some(i) => if i < parsed_doc.links.len() {
                    Some(string_of(parsed_doc.links[i].title.as_str()))
                } else {
                    None
                },
                None => None,
            },
            _ => None,
        }
    }

    /// `Enter`: in an article, a `#anchor` link jumps to its footnote
    /// (remembering where the view was, for `H`); an outside address is to
    /// be copied; anything else is a page to follow.
    pub fn activate_selected(&mut self, term_height: u16) -> (r: Activation)
        requires
            in_range(*old(self)),
        ensures
            in_range(*final(self)),
            activated(*old(self), *final(self), r, term_height),
    {
        let target = match self.selected_target_exec() {
            Some(t) => t,
            None => return Activation::Nothing,
        };
        let tc = to_chars(target.as_str());
        if starts_with_str(&tc, "#") {
            proof {
                reveal_strlit("#");
            }
            let anchor = skip_chars(&tc, 1);
            let jump = match &self.content {
                PaneContent::ArticleText { parsed_doc, .. } => match anchor_line_exec(&parsed_doc.reference_targets, &anchor) {
                    Some(line) => {
                        proof {
                            lemma_anchor_line_in(parsed_doc.reference_targets@, anchor@, 0);
                        }
                        Some((line, first_link_on_exec(&parsed_doc.links, line)))
                    },
                    None => None,
                },
                _ => None,
            };
            match jump {
                Some((line, link)) => {
                    let current = self.scroll_offset;
                    self.jump_stack.push(current);
                    self.scroll_offset = line;
                    if let Some(k) = link {
                        self.selected_link_idx = Some(k);
                    }
                    self.clamp_link_selection_to_viewport(term_height);
                    let msg = if starts_with_str(&anchor, "cite_note") {
                        string_of("jumped to reference (press H to return)")
                    } else {
                        string_of("jumped to citation (press H to return)")
                    };
                    Activation::Jumped(msg)
                },
                None => Activation::Nothing,
            }
        } else if starts_with_str(&tc, "http://") || starts_with_str(&tc, "https://") || starts_with_str(
            &tc,
            "//",
        ) {
            Activation::CopyExternal(target)
        } else {
            Activation::Follow(target)
        }
    }
}

/// The page the selection leads to, when it is neither a footnote anchor
/// nor an outside address: what `Enter` follows.
pub open spec fn followed_target(p: Pane) -> Option<Seq<char>> {
    match selected_target(p) {
        Some(t) => if has_prefix(t, "#"@) || is_external_target(t) {
            None
        } else {
            Some(t)
        },
        None => None,
    }
}

impl Pane {
    /// The page the selection leads to, if it is one to follow.
    pub fn followed_target(&self) -> (r: Option<String>)
        ensures
            match r {
                Some(t) => followed_target(*self) == Some(t@),
                None => followed_target(*self) is None,
            },
    {
        let target = match self.selected_target_exec() {
            Some(t) => t,
            None => return None,
        };
        let tc = to_chars(target.as_str());
        if starts_with_str(&tc, "#") || starts_with_str(&tc, "http://") || starts_with_str(&tc, "https://")
            || starts_with_str(&tc, "//") {
            None
        } else {
            Some(target)
        }
    }
}

proof fn lemma_anchor_line_in(refs: Seq<(String, usize)>, a: Seq<char>, i: int)
    requires
        0 <= i,
    ensures
        anchor_line(refs, a, i) matches Some(line) ==> exists|k: int| i <= k < refs.len() && refs[k].1 == line,
    decreases refs.len() - i,
{
    if i < refs.len() && refs[i].0@ != a {
        lemma_anchor_line_in(refs, a, i + 1);
    }
}

// ---------------------------------------------------------------------------
// Addresses to copy
// ---------------------------------------------------------------------------

/// The address of a wiki page: spaces become underscores.
pub open spec fn wiki_url(title: Seq<char>) -> Seq<char> {
    "https://en.wikipedia.org/wiki/"@ + replace_char_seq(title, ' ', '_')
}

/// What `y` copies: the focused link (as it stands if it leaves the wiki),
/// else the article; in a result list, the selected result.
pub open spec fn focused_link_url(p: Pane) -> Option<Seq<char>> {
    match p.content {
        PaneContent::ArticleText { title, parsed_doc, .. } => Some(
            match p.selected_link_idx {
                Some(i) => if i < parsed_doc.links@.len() {
                    let t = parsed_doc.links@[i as int].title@;
                    if is_external_target(t) {
                        t
                    } else {
                        wiki_url(t)
                    }
                } else {
                    wiki_url(title@)
                },
                None => wiki_url(title@),
            },
        ),
        PaneContent::SearchResults { items, .. } => if p.selected_idx < items@.len() {
            Some(wiki_url(items@[p.selected_idx as int].title@))
        } else {
            None
        },
        _ => None,
    }
}

/// What `Y` copies: the article's address, or the address of the search.
pub open spec fn article_url(p: Pane) -> Option<Seq<char>> {
    match p.content {
        PaneContent::ArticleText { title, .. } => Some(wiki_url(title@)),
        PaneContent::SearchResults { query, .. } => Some(
            "https://en.wikipedia.org/wiki/Special:Search?search="@ + replace_char_seq(query@, ' ', '_'),
        ),
        _ => None,
    }
}

fn wiki_url_exec(title: &str) -> (r: String)
    ensures
        r@ == wiki_url(title@),
{
    let mut u = string_of("https://en.wikipedia.org/wiki/");
    let t = to_chars(title);
    let t2 = replace_char(&t, ' ', '_');
    push_chars(&mut u, &t2);
    u
}

impl Pane {
    /// The address `y` copies.
    pub fn copy_focused_link(&self) -> (r: Option<String>)
        ensures
            match r {
                Some(u) => focused_link_url(*self) == Some(u@),
                None => focused_link_url(*self) is None,
            },
    {
        match &self.content {
            PaneContent::ArticleText { title, parsed_doc, .. } => {
                let url = match self.selected_link_idx {
                    Some(i) => if i < parsed_doc.links.len() {
                        let t = parsed_doc.links[i].title.as_str();
                        let tc = to_chars(t);
                        if starts_with_str(&tc, "http://") || starts_with_str(&tc, "https://")
                            || starts_with_str(&tc, "//") {
                            string_of(t)
                        } else {
                            wiki_url_exec(t)
                        }
                    } else {
                        wiki_url_exec(title.as_str())
                    },
                    None => wiki_url_exec(title.as_str()),
                };
                Some(url)
            },
            PaneContent::SearchResults { items, .. } => if self.selected_idx < items.len() {
                Some(wiki_url_exec(items[self.selected_idx].title.as_str()))
            } else {
                None
            },
            _ => None,
        }
    }

    /// The address `Y` copies.
    pub fn copy_article_link(&self) -> (r: Option<String>)
        ensures
            match r {
                Some(u) => article_url(*self) == Some(u@),
                None => article_url(*self) is None,
            },
    {
        match &self.content {
            PaneContent::ArticleText { title, .. } => Some(wiki_url_exec(title.as_str())),
            PaneContent::SearchResults { query, .. } => {
                let mut u = string_of("https://en.wikipedia.org/wiki/Special:Search?search=");
                let q = to_chars(query.as_str());
                let q2 = replace_char(&q, ' ', '_');
                push_chars(&mut u, &q2);
                Some(u)
            },
            _ => None,
        }
    }
}

} // verus!
