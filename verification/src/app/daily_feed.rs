//! Keys in the daily-feed dialog: moving over its entries and over the links
//! of a news story, and choosing the article to open.
use vstd::prelude::*;

use crate::keybinds::{KeyCode, KeyEvent};

verus! {

/// Where the dialog's cursor stands: the entry, and the link of the news
/// story under it.
#[derive(Debug, Clone, Copy, PartialEq, Eq, Structural)]
pub struct DailyFeedCursor {
    pub cursor_idx: usize,
    pub link_idx: usize,
}

/// What the reader does after a key in the dialog.
#[derive(Debug, Clone, PartialEq, Eq)]
pub enum DailyFeedAction {
    /// The dialog stays open.
    Stay,
    /// The dialog closes.
    Close,
    /// The dialog closes and the article opens in the active pane.
    Open(String),
    /// The dialog closes and the article opens in a new tab, unless the
    /// active pane is still empty.
    OpenInNewTab(String),
}

pub open spec fn is_down(c: KeyCode) -> bool {
    c == KeyCode::Char('j') || c == KeyCode::Down
}

pub open spec fn is_up(c: KeyCode) -> bool {
    c == KeyCode::Char('k') || c == KeyCode::Up
}

pub open spec fn is_first(c: KeyCode) -> bool {
    c == KeyCode::Char('g') || c == KeyCode::Home
}

pub open spec fn is_last(c: KeyCode) -> bool {
    c == KeyCode::Char('G') || c == KeyCode::End
}

pub open spec fn is_next_link(c: KeyCode) -> bool {
    c == KeyCode::Tab || c == KeyCode::Char('l') || c == KeyCode::Right
}

pub open spec fn is_prev_link(c: KeyCode) -> bool {
    c == KeyCode::BackTab || c == KeyCode::Char('h') || c == KeyCode::Left
}

pub open spec fn is_close(c: KeyCode) -> bool {
    c == KeyCode::Esc || c == KeyCode::Char('q')
}

/// The cursor after a key, over `total` entries; `links` is the number of
/// links of the news story under the cursor (0 when the dialog does not show
/// the news). Moving to another entry puts the link cursor back on the first.
pub open spec fn feed_cursor_after(m: DailyFeedCursor, total: int, links: int, c: KeyCode) -> DailyFeedCursor {
    if is_down(c) {
        if m.cursor_idx + 1 < total {
            DailyFeedCursor { cursor_idx: (m.cursor_idx + 1) as usize, link_idx: 0 }
        } else {
            m
        }
    } else if is_up(c) {
        if m.cursor_idx > 0 {
            DailyFeedCursor { cursor_idx: (m.cursor_idx - 1) as usize, link_idx: 0 }
        } else {
            m
        }
    } else if is_first(c) {
        DailyFeedCursor { cursor_idx: 0, link_idx: 0 }
    } else if is_last(c) {
        if total > 0 {
            DailyFeedCursor { cursor_idx: (total - 1) as usize, link_idx: 0 }
        } else {
            m
        }
    } else if is_next_link(c) {
        if links > 0 {
            DailyFeedCursor { link_idx: ((m.link_idx + 1) % links) as usize, ..m }
        } else {
            m
        }
    } else if is_prev_link(c) {
        if links > 0 {
            DailyFeedCursor {
                link_idx: (if m.link_idx == 0 { links - 1 } else { m.link_idx - 1 }) as usize,
                ..m
            }
        } else {
            m
        }
    } else {
        m
    }
}

/// Moving over the entries keeps the cursor on one of them where there are
/// any: Down stops at the last entry and Up at the first, End goes to the
/// last and Home to the first; whenever the cursor moves to another entry
/// the link cursor goes back to the first link.
pub proof fn feed_cursor_stays_in_range(m: DailyFeedCursor, total: int, links: int, c: KeyCode)
    requires
        0 <= total <= usize::MAX,
        0 <= links,
        total == 0 || m.cursor_idx < total,
    ensures
        ({
            let n = feed_cursor_after(m, total, links, c);
            &&& total == 0 || n.cursor_idx < total
            &&& n.cursor_idx != m.cursor_idx ==> n.link_idx == 0
            &&& is_down(c) && m.cursor_idx + 1 == total ==> n == m
            &&& is_up(c) && m.cursor_idx == 0 ==> n == m
            &&& is_last(c) && total > 0 ==> n.cursor_idx == total - 1
            &&& is_first(c) ==> n.cursor_idx == 0
        }),
{
}

/// The article that Enter or `t` opens: in the news, the story link under
/// the link cursor (the first link when that cursor is past the end); else,
/// or when the story has no links, the entry's own article.
pub open spec fn feed_target(
    m: DailyFeedCursor,
    is_news: bool,
    entries: Seq<Seq<char>>,
    links: Seq<Seq<char>>,
) -> Option<Seq<char>> {
    if is_news && m.link_idx < links.len() {
        Some(links[m.link_idx as int])
    } else if is_news && links.len() > 0 {
        Some(links[0])
    } else if m.cursor_idx < entries.len() {
        Some(entries[m.cursor_idx as int])
    } else {
        None
    }
}

/// What the dialog does after a key, given the article it would open.
pub open spec fn feed_action_ok(r: DailyFeedAction, c: KeyCode, target: Option<Seq<char>>) -> bool {
    if is_close(c) {
        r is Close
    } else if c == KeyCode::Enter || c == KeyCode::Char('t') {
        match target {
            Some(t) => if t.len() > 0 {
                match r {
                    DailyFeedAction::Open(s) => c == KeyCode::Enter && s@ == t,
                    DailyFeedAction::OpenInNewTab(s) => c == KeyCode::Char('t') && s@ == t,
                    _ => false,
                }
            } else {
                r is Stay
            },
            None => r is Stay,
        }
    } else {
        r is Stay
    }
}

pub open spec fn string_views(v: Seq<String>) -> Seq<Seq<char>> {
    v.map_values(|s: String| s@)
}

/// Handles a key in the daily-feed dialog. `entries` holds the article of
/// each entry shown; `story_links` the links of the news story under the
/// cursor, empty when the dialog does not show the news.
pub fn daily_feed_step(
    m: &mut DailyFeedCursor,
    is_news: bool,
    entries: &Vec<String>,
    story_links: &Vec<String>,
    key: KeyEvent,
) -> (r: DailyFeedAction)
    requires
        old(m).link_idx < usize::MAX,
    ensures
        *final(m) == feed_cursor_after(
            *old(m),
            entries@.len() as int,
            if is_news { story_links@.len() as int } else { 0 },
            key.code,
        ),
        feed_action_ok(
            r,
            key.code,
            feed_target(*old(m), is_news, string_views(entries@), string_views(story_links@)),
        ),
{
    let total = entries.len();
    let links: usize = if is_news { story_links.len() } else { 0 };
    let c = key.code;
    if c == KeyCode::Esc || c == KeyCode::Char('q') {
        return DailyFeedAction::Close;
    }
    if c == KeyCode::Char('j') || c == KeyCode::Down {
        if total > 0 && m.cursor_idx < total - 1 {
            m.cursor_idx = m.cursor_idx + 1;
            m.link_idx = 0;
        }
        return DailyFeedAction::Stay;
    }
    if c == KeyCode::Char('k') || c == KeyCode::Up {
        if m.cursor_idx > 0 {
            m.cursor_idx = m.cursor_idx - 1;
            m.link_idx = 0;
        }
        return DailyFeedAction::Stay;
    }
    if c == KeyCode::Char('g') || c == KeyCode::Home {
        m.cursor_idx = 0;
        m.link_idx = 0;
        return DailyFeedAction::Stay;
    }
    if c == KeyCode::Char('G') || c == KeyCode::End {
        if total > 0 {
            m.cursor_idx = total - 1;
            m.link_idx = 0;
        }
        return DailyFeedAction::Stay;
    }
    if c == KeyCode::Tab || c == KeyCode::Char('l') || c == KeyCode::Right {
        if links > 0 {
            m.link_idx = (m.link_idx + 1) % links;
        }
        return DailyFeedAction::Stay;
    }
    if c == KeyCode::BackTab || c == KeyCode::Char('h') || c == KeyCode::Left {
        if links > 0 {
            m.link_idx = if m.link_idx == 0 { links - 1 } else { m.link_idx - 1 };
        }
        return DailyFeedAction::Stay;
    }
    if c == KeyCode::Enter || c == KeyCode::Char('t') {
        let target: Option<String> = if is_news && m.link_idx < story_links.len() {
            Some(story_links[m.link_idx].clone())
        } else if is_news && story_links.len() > 0 {
            Some(story_links[0].clone())
        } else if m.cursor_idx < total {
            Some(entries[m.cursor_idx].clone())
        } else {
            None
        };
        match target {
            Some(t) => {
                if !t.as_str().is_empty() {
                    if c == KeyCode::Enter {
                        return DailyFeedAction::Open(t);
                    } else {
                        return DailyFeedAction::OpenInNewTab(t);
                    }
                }
                return DailyFeedAction::Stay;
            },
            None => {
                return DailyFeedAction::Stay;
            },
        }
    }
    DailyFeedAction::Stay
}

} // verus!
