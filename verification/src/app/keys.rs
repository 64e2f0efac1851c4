//! Carrying out a key press on the reader: the command the key stands for
//! (see `keybinds`), done to the active pane, the tabs, the search box or
//! the input mode.
use vstd::prelude::*;
use super::history::{fetch_request, opened};
use super::links::{activated, followed_target, Activation};
use super::navigation::{
    after_focus_next, after_focus_prev, after_next_heading, after_next_toc, after_page_down, after_page_up,
    after_prev_heading, after_prev_toc, after_select_next, after_select_prev, after_toggle_toc, at_bottom, at_top,
    after_activate_toc, focus_in_bounds,
};
use super::pane::{Pane, PaneContent};
use super::search::{
    backspaced, deleted, input_ok, matches_in_range, next_match, prev_match, searched_in_page, shown_match, typed,
    word_deleted, SearchInput,
};
use super::state::{
    active_pane, active_tab, app_ok, close_pane_post, close_tab_post, new_tab_post, same_settings, split_post,
    with_active_pane, App,
};
use super::layout::LayoutNode;
use super::lists_dialog::{dialog_context, lists_key_post, ListsDialog};
use super::InputMode;
use crate::saved_lists::SavedListsStore;
use crate::api::NetworkCommand;
use crate::keybinds::{key_binding, key_command, KeyCommand, KeyContext, KeyEvent, SplitDirection};
use crate::text::{trim_seq, string_of};

verus! {

/// What the reader makes of a key press: the command, and for `Enter` what
/// activating the selection asks for.
#[derive(Debug)]
pub struct KeyOutcome {
    pub command: KeyCommand,
    pub activation: Option<Activation>,
}

/// The state a key press lands in.
pub open spec fn key_context(a: App) -> KeyContext {
    KeyContext {
        mode: a.input_mode,
        feed_active: a.feed_active,
        toc_focused: active_pane(a).toc_focused,
        waiting_for_split: a.waiting_for_split_cmd,
    }
}

/// What a command does to the active pane, for the commands that only move
/// around in it.
pub open spec fn pane_step(cmd: KeyCommand, p: Pane, term_height: u16) -> Option<Pane> {
    match cmd {
        KeyCommand::SelectNext => Some(after_select_next(p, term_height)),
        KeyCommand::SelectPrev => Some(after_select_prev(p, term_height)),
        KeyCommand::PageDown => Some(after_page_down(p, term_height)),
        KeyCommand::PageUp => Some(after_page_up(p, term_height)),
        KeyCommand::Top => Some(at_top(p)),
        KeyCommand::Bottom => Some(at_bottom(p, term_height)),
        KeyCommand::FocusNextLink => Some(after_focus_next(p)),
        KeyCommand::FocusPrevLink => Some(after_focus_prev(p)),
        KeyCommand::NextHeading => Some(after_next_heading(p, term_height)),
        KeyCommand::PrevHeading => Some(after_prev_heading(p, term_height)),
        KeyCommand::TocToggle => Some(after_toggle_toc(p)),
        KeyCommand::TocNext => Some(after_next_toc(p)),
        KeyCommand::TocPrev => Some(after_prev_toc(p)),
        KeyCommand::TocActivate => Some(after_activate_toc(p, term_height)),
        KeyCommand::NextMatch => Some(
            if p.local_matches@.len() == 0 {
                p
            } else {
                shown_match(
                    Pane {
                        selected_match_idx: Some(next_match(p.selected_match_idx, p.local_matches@.len() as int) as usize),
                        ..p
                    },
                    term_height,
                )
            },
        ),
        KeyCommand::PrevMatch => Some(
            if p.local_matches@.len() == 0 {
                p
            } else {
                shown_match(
                    Pane {
                        selected_match_idx: Some(prev_match(p.selected_match_idx, p.local_matches@.len() as int) as usize),
                        ..p
                    },
                    term_height,
                )
            },
        ),
        _ => None,
    }
}

/// What an edit command does to the search box.
pub open spec fn search_step(cmd: KeyCommand, s: Seq<char>, cursor: int) -> Option<(Seq<char>, int)> {
    match cmd {
        KeyCommand::SearchChar(c) => Some(typed(s, cursor, c)),
        KeyCommand::SearchBackspace => Some(backspaced(s, cursor)),
        KeyCommand::SearchDelete => Some(deleted(s, cursor)),
        KeyCommand::SearchDeleteWord => Some(word_deleted(s, cursor)),
        KeyCommand::SearchCursorLeft => Some((s, if cursor > 0 { cursor - 1 } else { 0 })),
        KeyCommand::SearchCursorRight => Some((s, if cursor < s.len() { cursor + 1 } else { cursor })),
        KeyCommand::SearchCursorHome => Some((s, 0)),
        KeyCommand::SearchCursorEnd => Some((s, s.len() as int)),
        _ => None,
    }
}

/// What a command does to the mode and the switches of the reader.
pub open spec fn mode_step(cmd: KeyCommand, a: App) -> Option<App> {
    match cmd {
        KeyCommand::Quit => Some(App { running: false, ..a }),
        KeyCommand::ToggleZen => Some(App { zen_mode: !a.zen_mode, ..a }),
        KeyCommand::ToggleHelp => Some(
            App { input_mode: if a.input_mode == InputMode::Help { InputMode::Normal } else { InputMode::Help }, ..a },
        ),
        KeyCommand::BackToNormal => Some(App { input_mode: InputMode::Normal, ..a }),
        KeyCommand::AwaitSplit => Some(App { waiting_for_split_cmd: true, ..a }),
        KeyCommand::SplitCancel => Some(App { waiting_for_split_cmd: false, ..a }),
        _ => None,
    }
}

/// `b` is `a` after its search box was submitted.
pub open spec fn submit_post(a: App, b: App) -> bool {
    let q = trim_seq(a.search.text@);
    let in_new_tab = a.search_opens_new_tab && !(active_pane(a).content is Empty);
    &&& b.input_mode == InputMode::Normal
    &&& b.search.text@ == Seq::<char>::empty() && b.search.cursor == 0
    &&& q.len() == 0 ==> b == (App { input_mode: InputMode::Normal, search: b.search, ..a })
    &&& q.len() > 0 && !in_new_tab ==> {
        &&& b.next_request_id == a.next_request_id + 1
        &&& with_active_pane(
            App {
                input_mode: InputMode::Normal,
                search: b.search,
                outbox: b.outbox,
                next_request_id: b.next_request_id,
                ..a
            },
            b,
            searching(active_pane(a), a.next_request_id),
        )
        &&& queued_search(a.outbox@, b.outbox@, active_pane(a).id, a.next_request_id, q)
    }
    &&& q.len() > 0 && in_new_tab ==> {
        &&& b.tabs@.len() == a.tabs@.len() + 1
        &&& forall|t: int| 0 <= t < a.tabs@.len() ==> #[trigger] b.tabs@[t] == a.tabs@[t]
        &&& b.active_tab_idx == a.tabs@.len()
        &&& active_tab(b).name@ == "new tab"@
        &&& active_tab(b).layout_root == LayoutNode::Leaf(0)
        &&& active_tab(b).panes@.len() == 1
        &&& active_pane(b).id == a.next_pane_id
        &&& active_pane(b).content is Empty
        &&& active_pane(b).is_loading
        &&& active_pane(b).current_request_id == a.next_request_id
        &&& b.next_pane_id == a.next_pane_id + 1
        &&& b.next_request_id == a.next_request_id + 1
        &&& queued_search(a.outbox@, b.outbox@, a.next_pane_id, a.next_request_id, q)
    }
}

/// `b` is `a` after a random article was asked for.
pub open spec fn random_post(a: App, b: App) -> bool {
    &&& active_pane(a).is_loading ==> b == a
    &&& !active_pane(a).is_loading && active_pane(a).content is Empty ==> {
        &&& with_active_pane(
            App { outbox: b.outbox, next_request_id: b.next_request_id, ..a },
            b,
            Pane { is_loading: true, current_request_id: a.next_request_id, ..active_pane(a) },
        )
        &&& b.next_request_id == a.next_request_id + 1
        &&& b.outbox@ == a.outbox@.push(
            NetworkCommand::FetchRandomArticle { pane_id: active_pane(a).id, request_id: a.next_request_id },
        )
    }
    &&& !active_pane(a).is_loading && !(active_pane(a).content is Empty) ==> {
        &&& b.tabs@.len() == a.tabs@.len() + 1
        &&& forall|t: int| 0 <= t < a.tabs@.len() ==> #[trigger] b.tabs@[t] == a.tabs@[t]
        &&& b.active_tab_idx == a.tabs@.len()
        &&& active_tab(b).name@ == "loading..."@
        &&& active_tab(b).layout_root == LayoutNode::Leaf(0)
        &&& active_tab(b).panes@.len() == 1
        &&& active_pane(b).id == a.next_pane_id
        &&& active_pane(b).content is Empty
        &&& active_pane(b).is_loading
        &&& active_pane(b).current_request_id == a.next_request_id
        &&& b.next_pane_id == a.next_pane_id + 1
        &&& b.next_request_id == a.next_request_id + 1
        &&& b.outbox@ == a.outbox@.push(
            NetworkCommand::FetchRandomArticle { pane_id: a.next_pane_id, request_id: a.next_request_id },
        )
        &&& same_settings(App { outbox: b.outbox, next_request_id: b.next_request_id, ..a }, b)
    }
}

/// `b` is `a` after a character was typed into (or, for `None`, deleted
/// from) the in-page search, which ran again.
pub open spec fn local_edit_post(a: App, b: App, c: Option<char>, term_height: u16) -> bool {
    let q = active_pane(a).local_search_query@;
    let edited = match c {
        Some(ch) => q.push(ch),
        None => if q.len() > 0 { q.drop_last() } else { q },
    };
    &&& exists|mid: Pane|
        mid.local_search_query@ == edited && mid == Pane { local_search_query: mid.local_search_query, ..active_pane(a) }
            && searched_in_page(mid, active_pane(b), term_height)
    &&& with_active_pane(a, b, active_pane(b))
}

/// `b` is `a` with an in-page search started.
pub open spec fn local_enter_post(a: App, b: App) -> bool {
    &&& fresh_local_search(active_pane(a), active_pane(b))
    &&& with_active_pane(App { input_mode: InputMode::LocalSearch, ..a }, b, active_pane(b))
}

/// `b` is `a` with the search box opened on the query shown.
pub open spec fn edit_search_post(a: App, b: App) -> bool {
    &&& b.search.text@ == shown_query(a)
    &&& b.search.cursor == shown_query(a).len()
    &&& b == (App { input_mode: InputMode::Search, search_opens_new_tab: false, search: b.search, ..a })
}

/// `b` is `a` with the search box opened empty, for a new tab.
pub open spec fn enter_search_post(a: App, b: App) -> bool {
    &&& b.search.text@ == Seq::<char>::empty() && b.search.cursor == 0
    &&& b == (App { input_mode: InputMode::Search, search_opens_new_tab: true, search: b.search, ..a })
}

/// `b` is `a` with the search box closed and emptied.
pub open spec fn exit_search_post(a: App, b: App) -> bool {
    &&& b.search.text@ == Seq::<char>::empty() && b.search.cursor == 0
    &&& b == (App { input_mode: InputMode::Normal, search: b.search, ..a })
}

impl App {
    /// Carries out a command on the active pane.
    fn on_active_pane(&mut self, cmd: KeyCommand, term_height: u16) -> (r: Option<Activation>)
        requires
            app_ok(*old(self)),
            focus_in_bounds(active_pane(*old(self))),
            pane_step(cmd, active_pane(*old(self)), term_height) is Some || cmd == KeyCommand::Activate,
        ensures
            app_ok(*final(self)),
            pane_step(cmd, active_pane(*old(self)), term_height) matches Some(p) ==> with_active_pane(
                *old(self),
                *final(self),
                p,
            ) && r is None,
            cmd == KeyCommand::Activate ==> (r matches Some(act) && activated(
                active_pane(*old(self)),
                active_pane(*final(self)),
                act,
                term_height,
            ) && with_active_pane(*old(self), *final(self), active_pane(*final(self)))),
    {
        let ghost before = *self;
        let ti = self.active_tab_idx;
        let pi = self.tabs[ti].active_pane_idx;
        let (tab, mut pane) = self.take_pane_at(ti, pi);
        let mut activation: Option<Activation> = None;
        match cmd {
            KeyCommand::SelectNext => pane.select_next_item(term_height),
            KeyCommand::SelectPrev => pane.select_prev_item(term_height),
            KeyCommand::PageDown => pane.scroll_page_down(term_height),
            KeyCommand::PageUp => pane.scroll_page_up(term_height),
            KeyCommand::Top => pane.jump_to_top(),
            KeyCommand::Bottom => pane.jump_to_bottom(term_height),
            KeyCommand::FocusNextLink => pane.focus_next_link(),
            KeyCommand::FocusPrevLink => pane.focus_prev_link(),
            KeyCommand::NextHeading => pane.jump_next_heading(term_height),
            KeyCommand::PrevHeading => pane.jump_prev_heading(term_height),
            KeyCommand::TocToggle => pane.toggle_toc(),
            KeyCommand::TocNext => pane.select_next_toc_item(),
            KeyCommand::TocPrev => pane.select_prev_toc_item(),
            KeyCommand::TocActivate => pane.activate_toc_selection(term_height),
            KeyCommand::NextMatch => pane.next_local_match(term_height),
            KeyCommand::PrevMatch => pane.prev_local_match(term_height),
            _ => {
                activation = Some(pane.activate_selected(term_height));
            },
        }
        self.put_pane_at(ti, pi, tab, pane, Ghost(before));
        activation
    }
}

/// The query of the search results the active pane shows, if it shows some.
pub open spec fn shown_query(a: App) -> Seq<char> {
    match active_pane(a).content {
        PaneContent::SearchResults { query, .. } => query@,
        _ => Seq::empty(),
    }
}

impl App {
    /// Opens the search box for a new search (`Ctrl-S`), which will open in
    /// a new tab.
    pub fn enter_search_mode(&mut self)
        requires
            app_ok(*old(self)),
        ensures
            app_ok(*final(self)),
            enter_search_post(*old(self), *final(self)),
    {
        self.input_mode = InputMode::Search;
        self.search_opens_new_tab = true;
        self.search = SearchInput::new();
    }

    /// Opens the search box on the query of the results shown (`i`), to
    /// search again in the same pane.
    pub fn edit_search_mode(&mut self)
        requires
            app_ok(*old(self)),
            shown_query(*old(self)).len() < usize::MAX,
        ensures
            app_ok(*final(self)),
            edit_search_post(*old(self), *final(self)),
    {
        let ti = self.active_tab_idx;
        let pi = self.tabs[ti].active_pane_idx;
        let input = match &self.tabs[ti].panes[pi].content {
            PaneContent::SearchResults { query, .. } => SearchInput::editing(query.as_str()),
            _ => SearchInput::new(),
        };
        self.input_mode = InputMode::Search;
        self.search_opens_new_tab = false;
        self.search = input;
    }

    /// Closes the search box (`Esc`), forgetting what was typed.
    pub fn exit_search_mode(&mut self)
        requires
            app_ok(*old(self)),
        ensures
            app_ok(*final(self)),
            exit_search_post(*old(self), *final(self)),
    {
        self.input_mode = InputMode::Normal;
        self.search = SearchInput::new();
    }

    /// An edit of the search box; it only acts while the box is open.
    fn edit_search(&mut self, cmd: KeyCommand)
        requires
            app_ok(*old(self)),
            old(self).search.text@.len() + 1 < usize::MAX,
            search_step(cmd, old(self).search.text@, old(self).search.cursor as int) is Some,
        ensures
            app_ok(*final(self)),
            old(self).input_mode != InputMode::Search ==> *final(self) == *old(self),
            old(self).input_mode == InputMode::Search ==> {
                &&& search_step(cmd, old(self).search.text@, old(self).search.cursor as int) == Some(
                    (final(self).search.text@, final(self).search.cursor as int),
                )
                &&& *final(self) == (App { search: final(self).search, ..*old(self) })
            },
    {
        if self.input_mode != InputMode::Search {
            return;
        }
        match cmd {
            KeyCommand::SearchChar(c) => self.search.type_char(c),
            KeyCommand::SearchBackspace => self.search.backspace(),
            KeyCommand::SearchDelete => self.search.delete_char(),
            KeyCommand::SearchDeleteWord => self.search.delete_word_left(),
            KeyCommand::SearchCursorLeft => self.search.move_left(),
            KeyCommand::SearchCursorRight => self.search.move_right(),
            KeyCommand::SearchCursorHome => self.search.move_home(),
            _ => self.search.move_end(),
        }
        proof {
            super::search::edits_keep_cursor_in_text(old(self).search.text@, old(self).search.cursor as int, 'a');
            match cmd {
                KeyCommand::SearchChar(c) => {
                    super::search::edits_keep_cursor_in_text(old(self).search.text@, old(self).search.cursor as int, c);
                },
                _ => {},
            }
        }
    }
}

/// `a` with zen mode switched.
pub open spec fn zen_toggled(a: App) -> App {
    App { zen_mode: !a.zen_mode, ..a }
}

/// `a` with the help opened, or closed back to normal mode.
pub open spec fn help_toggled(a: App) -> App {
    App { input_mode: if a.input_mode == InputMode::Help { InputMode::Normal } else { InputMode::Help }, ..a }
}

/// Switching zen mode twice leaves the reader as it was; so does toggling
/// the help twice from normal mode or from the help.
pub proof fn toggles_undo_themselves(a: App)
    ensures
        zen_toggled(zen_toggled(a)) == a,
        a.input_mode == InputMode::Normal || a.input_mode == InputMode::Help ==> help_toggled(help_toggled(a)) == a,
{
}

impl App {
    /// Shows or hides everything but the text (`z`).
    pub fn toggle_zen_mode(&mut self)
        ensures
            *final(self) == zen_toggled(*old(self)),
    {
        self.zen_mode = !self.zen_mode;
    }

    /// Opens the help, or closes it back to normal mode (`?`).
    pub fn toggle_help_popup(&mut self)
        ensures
            *final(self) == help_toggled(*old(self)),
    {
        self.input_mode = if self.input_mode == InputMode::Help {
            InputMode::Normal
        } else {
            InputMode::Help
        };
    }
}

/// `b` is `a` once `title` was opened in its active pane: the request for
/// it queued last, numbered with the next request number.
pub open spec fn opened_in(a: App, b: App, title: Seq<char>) -> bool {
    &&& b.outbox@ == a.outbox@.push(b.outbox@.last())
    &&& b.next_request_id == a.next_request_id + 1
    &&& fetch_request(b.outbox@.last(), active_pane(a).id, a.next_request_id, title)
    &&& opened(active_pane(a), active_pane(b), title, a.next_request_id)
    &&& with_active_pane(App { outbox: b.outbox, next_request_id: b.next_request_id, ..a }, b, active_pane(b))
}

/// The index a digit key picks (`1` to `9` the first nine, `0` the tenth).
pub open spec fn digit_index(digit: char) -> int {
    if digit == '0' {
        9
    } else {
        digit as int - '1' as int
    }
}

/// The search result of pane `p` that `digit` picks, if there is one.
pub open spec fn digit_pick(p: Pane, digit: char) -> Option<int> {
    match p.content {
        PaneContent::SearchResults { items, .. } => if 0 <= digit_index(digit) < items@.len() {
            Some(digit_index(digit))
        } else {
            None
        },
        _ => None,
    }
}

/// The title of search result `i` of pane `p`.
pub open spec fn result_title(p: Pane, i: int) -> Seq<char> {
    match p.content {
        PaneContent::SearchResults { items, .. } => items@[i].title@,
        _ => Seq::empty(),
    }
}

/// `b` is `a` after the search-box edit `cmd`: the box changed as
/// `search_step` says while it is open, and nothing changed while it is shut.
pub open spec fn search_edited(a: App, b: App, cmd: KeyCommand) -> bool {
    &&& a.input_mode != InputMode::Search ==> b == a
    &&& a.input_mode == InputMode::Search ==> {
        &&& search_step(cmd, a.search.text@, a.search.cursor as int) == Some((b.search.text@, b.search.cursor as int))
        &&& b == (App { search: b.search, ..a })
    }
}

impl App {
    /// Types `c` at the cursor of the search box.
    pub fn type_search_char(&mut self, c: char)
        requires
            app_ok(*old(self)),
            old(self).search.text@.len() + 1 < usize::MAX,
        ensures
            app_ok(*final(self)),
            search_edited(*old(self), *final(self), KeyCommand::SearchChar(c)),
    {
        self.edit_search(KeyCommand::SearchChar(c));
    }

    /// Deletes the character before the cursor of the search box.
    pub fn backspace_search_char(&mut self)
        requires
            app_ok(*old(self)),
            old(self).search.text@.len() + 1 < usize::MAX,
        ensures
            app_ok(*final(self)),
            search_edited(*old(self), *final(self), KeyCommand::SearchBackspace),
    {
        self.edit_search(KeyCommand::SearchBackspace);
    }

    /// Deletes the character at the cursor of the search box.
    pub fn delete_search_char(&mut self)
        requires
            app_ok(*old(self)),
            old(self).search.text@.len() + 1 < usize::MAX,
        ensures
            app_ok(*final(self)),
            search_edited(*old(self), *final(self), KeyCommand::SearchDelete),
    {
        self.edit_search(KeyCommand::SearchDelete);
    }

    /// Deletes the word before the cursor of the search box, with the
    /// blanks between it and the cursor.
    pub fn delete_word_left(&mut self)
        requires
            app_ok(*old(self)),
            old(self).search.text@.len() + 1 < usize::MAX,
        ensures
            app_ok(*final(self)),
            search_edited(*old(self), *final(self), KeyCommand::SearchDeleteWord),
    {
        self.edit_search(KeyCommand::SearchDeleteWord);
    }

    /// Moves the cursor of the search box one character left.
    pub fn move_search_cursor_left(&mut self)
        requires
            app_ok(*old(self)),
            old(self).search.text@.len() + 1 < usize::MAX,
        ensures
            app_ok(*final(self)),
            search_edited(*old(self), *final(self), KeyCommand::SearchCursorLeft),
    {
        self.edit_search(KeyCommand::SearchCursorLeft);
    }

    /// Moves the cursor of the search box one character right.
    pub fn move_search_cursor_right(&mut self)
        requires
            app_ok(*old(self)),
            old(self).search.text@.len() + 1 < usize::MAX,
        ensures
            app_ok(*final(self)),
            search_edited(*old(self), *final(self), KeyCommand::SearchCursorRight),
    {
        self.edit_search(KeyCommand::SearchCursorRight);
    }

    /// Moves the cursor of the search box to its start.
    pub fn move_search_cursor_home(&mut self)
        requires
            app_ok(*old(self)),
            old(self).search.text@.len() + 1 < usize::MAX,
        ensures
            app_ok(*final(self)),
            search_edited(*old(self), *final(self), KeyCommand::SearchCursorHome),
    {
        self.edit_search(KeyCommand::SearchCursorHome);
    }

    /// Moves the cursor of the search box to its end.
    pub fn move_search_cursor_end(&mut self)
        requires
            app_ok(*old(self)),
            old(self).search.text@.len() + 1 < usize::MAX,
        ensures
            app_ok(*final(self)),
            search_edited(*old(self), *final(self), KeyCommand::SearchCursorEnd),
    {
        self.edit_search(KeyCommand::SearchCursorEnd);
    }
}

/// The pane once search `request_id` for it was sent: loading, back at the
/// top.
pub open spec fn searching(p: Pane, request_id: u64) -> Pane {
    Pane { is_loading: true, selected_idx: 0, scroll_offset: 0, current_request_id: request_id, ..p }
}

/// The last request queued is search `request_id` for `query` in pane
/// `pane_id`, after those queued before.
pub open spec fn queued_search(
    before: Seq<NetworkCommand>,
    after: Seq<NetworkCommand>,
    pane_id: usize,
    request_id: u64,
    query: Seq<char>,
) -> bool {
    &&& after.len() == before.len() + 1
    &&& after.take(before.len() as int) == before
    &&& after.last() matches NetworkCommand::Search { pane_id: id, request_id: rid, query: q } && id == pane_id
        && rid == request_id && q@ == query
}

impl App {
    /// Submits the search box (`Enter`): a non-blank query is searched for
    /// in the active pane, or in a new tab when the box was opened for a new
    /// search and the pane is not empty.
    pub fn submit_search(&mut self)
        requires
            app_ok(*old(self)),
            old(self).tabs@.len() + 1 < usize::MAX,
            old(self).next_pane_id + 1 < usize::MAX,
            old(self).next_request_id < u64::MAX,
        ensures
            app_ok(*final(self)),
            submit_post(*old(self), *final(self)),
    {
        let query = self.search.submitted_query();
        let opens_new = self.search_opens_new_tab;
        self.exit_search_mode();
        if query.as_str().is_empty() {
            return;
        }
        let ti = self.active_tab_idx;
        let pi = self.tabs[ti].active_pane_idx;
        let is_empty = match &self.tabs[ti].panes[pi].content {
            PaneContent::Empty => true,
            _ => false,
        };
        if opens_new && !is_empty {
            self.new_tab();
        }
        let ghost before = *self;
        let ti = self.active_tab_idx;
        let pi = self.tabs[ti].active_pane_idx;
        let (tab, mut pane) = self.take_pane_at(ti, pi);
        pane.is_loading = true;
        pane.selected_idx = 0;
        pane.scroll_offset = 0;
        let request_id = self.next_request_id;
        pane.current_request_id = request_id;
        let pane_id = pane.id;
        self.put_pane_at(ti, pi, tab, pane, Ghost(before));
        self.next_request_id = request_id + 1;
        let ghost mid = self.outbox@;
        self.outbox.push(NetworkCommand::Search { pane_id, request_id, query });
        assert(self.outbox@.take(mid.len() as int) =~= mid);
    }
}

/// The pane with its in-page query set to `query` and nothing found yet.
pub open spec fn fresh_local_search(p: Pane, b: Pane) -> bool {
    &&& b.local_search_query@ == Seq::<char>::empty()
    &&& b.local_matches@ == Seq::<super::pane::LocalMatch>::empty()
    &&& b == Pane {
        local_search_query: b.local_search_query,
        local_matches: b.local_matches,
        selected_match_idx: None,
        ..p
    }
}

impl App {
    /// Starts an in-page search (`/`) with an empty query.
    pub fn enter_local_search_mode(&mut self)
        requires
            app_ok(*old(self)),
        ensures
            app_ok(*final(self)),
            local_enter_post(*old(self), *final(self)),
    {
        self.input_mode = InputMode::LocalSearch;
        let ghost before = *self;
        let ti = self.active_tab_idx;
        let pi = self.tabs[ti].active_pane_idx;
        let (tab, mut pane) = self.take_pane_at(ti, pi);
        pane.local_search_query = String::new();
        pane.local_matches = Vec::new();
        pane.selected_match_idx = None;
        self.put_pane_at(ti, pi, tab, pane, Ghost(before));
    }

    /// Types into the in-page search (`c`) or deletes its last character
    /// (`None`), and searches again.
    pub fn edit_local_search(&mut self, c: Option<char>, term_height: u16)
        requires
            app_ok(*old(self)),
        ensures
            app_ok(*final(self)),
            local_edit_post(*old(self), *final(self), c, term_height),
    {
        let ghost before = *self;
        let ti = self.active_tab_idx;
        let pi = self.tabs[ti].active_pane_idx;
        let (tab, mut pane) = self.take_pane_at(ti, pi);
        let mut q = crate::text::to_chars(pane.local_search_query.as_str());
        match c {
            Some(ch) => q.push(ch),
            None => {
                if q.len() > 0 {
                    q.pop();
                }
            },
        }
        pane.local_search_query = crate::text::string_from_chars(&q);
        let ghost mid = pane;
        pane.update_local_search(term_height);
        self.put_pane_at(ti, pi, tab, pane, Ghost(before));
    }

    /// Opens `title` in the active pane and queues the request for it.
    pub fn open_article(&mut self, title: &str)
        requires
            app_ok(*old(self)),
            old(self).next_request_id < u64::MAX,
        ensures
            app_ok(*final(self)),
            opened_in(*old(self), *final(self), title@),
    {
        let ghost before = *self;
        let ti = self.active_tab_idx;
        let pi = self.tabs[ti].active_pane_idx;
        let (tab, mut pane) = self.take_pane_at(ti, pi);
        let request_id = self.next_request_id;
        let cmd = pane.open_article(title, request_id);
        self.put_pane_at(ti, pi, tab, pane, Ghost(before));
        self.next_request_id = request_id + 1;
        let ghost mid = self.outbox@;
        self.outbox.push(cmd);
        assert(self.outbox@ =~= mid.push(self.outbox@.last()));
    }

    /// Opens search result number `digit` of the active pane (`1` to `9`
    /// the first nine, `0` the tenth), selecting it first; a digit past the
    /// results, or a pane without results, changes nothing.
    pub fn activate_search_result_digit(&mut self, digit: char)
        requires
            app_ok(*old(self)),
            digit == '0' || digit as u32 >= '1' as u32,
            old(self).next_request_id < u64::MAX,
        ensures
            app_ok(*final(self)),
            digit_pick(active_pane(*old(self)), digit) is None ==> *final(self) == *old(self),
            digit_pick(active_pane(*old(self)), digit) matches Some(i) ==> {
                let p = active_pane(*old(self));
                let title = result_title(p, i);
                &&& final(self).outbox@ == old(self).outbox@.push(final(self).outbox@.last())
                &&& final(self).next_request_id == old(self).next_request_id + 1
                &&& fetch_request(final(self).outbox@.last(), p.id, old(self).next_request_id, title)
                &&& opened(Pane { selected_idx: i as usize, ..p }, active_pane(*final(self)), title, old(self).next_request_id)
                &&& with_active_pane(
                    App { outbox: final(self).outbox, next_request_id: final(self).next_request_id, ..*old(self) },
                    *final(self),
                    active_pane(*final(self)),
                )
            },
    {
        let idx: usize = if digit == '0' {
            9
        } else {
            (digit as u32 - '1' as u32) as usize
        };
        let ghost before = *self;
        let ti = self.active_tab_idx;
        let pi = self.tabs[ti].active_pane_idx;
        let title = match &self.tabs[ti].panes[pi].content {
            PaneContent::SearchResults { items, .. } => {
                if idx < items.len() {
                    Some(string_of(items[idx].title.as_str()))
                } else {
                    None
                }
            },
            _ => None,
        };
        match title {
            Some(t) => {
                let (tab, mut pane) = self.take_pane_at(ti, pi);
                pane.selected_idx = idx;
                self.put_pane_at(ti, pi, tab, pane, Ghost(before));
                let ghost mid = *self;
                self.open_article(t.as_str());
                assert(self.outbox@ =~= mid.outbox@.push(self.outbox@.last()));
            },
            None => {},
        }
    }

    /// Opens the page the selection leads to in a new tab (`t`); returns
    /// whether there was one (see `followed_target`).
    pub fn activate_selected_in_new_tab(&mut self) -> (r: bool)
        requires
            app_ok(*old(self)),
            old(self).tabs@.len() + 1 < usize::MAX,
            old(self).next_pane_id + 1 < usize::MAX,
            old(self).next_request_id < u64::MAX,
        ensures
            app_ok(*final(self)),
            followed_target(active_pane(*old(self))) is None ==> !r && *final(self) == *old(self),
            followed_target(active_pane(*old(self))) matches Some(t) ==> r && exists|mid: App|
                #[trigger] new_tab_post(*old(self), mid) && opened_in(mid, *final(self), t),
    {
        let ti = self.active_tab_idx;
        let pi = self.tabs[ti].active_pane_idx;
        match self.tabs[ti].panes[pi].followed_target() {
            Some(t) => {
                self.new_tab();
                let ghost mid = *self;
                self.open_article(t.as_str());
                assert(self.outbox@ =~= mid.outbox@.push(self.outbox@.last()));
                assert(new_tab_post(*old(self), mid) && opened_in(mid, *self, t@));
                true
            },
            None => false,
        }
    }

    /// Opens the page the selection leads to in a new pane split off the
    /// active one in direction `direction` (`s`, `v`); returns whether there
    /// was one.
    pub fn activate_selected_in_split(&mut self, direction: SplitDirection) -> (r: bool)
        requires
            app_ok(*old(self)),
            old(self).next_pane_id + 1 < usize::MAX,
            active_tab(*old(self)).panes@.len() + 1 < usize::MAX,
            old(self).next_request_id < u64::MAX,
        ensures
            app_ok(*final(self)),
            followed_target(active_pane(*old(self))) is None ==> !r && *final(self) == *old(self),
            followed_target(active_pane(*old(self))) matches Some(t) ==> r && exists|mid: App|
                #[trigger] split_post(*old(self), mid, direction) && opened_in(mid, *final(self), t),
    {
        let ti = self.active_tab_idx;
        let pi = self.tabs[ti].active_pane_idx;
        match self.tabs[ti].panes[pi].followed_target() {
            Some(t) => {
                self.split_active_pane(direction);
                let ghost mid = *self;
                self.open_article(t.as_str());
                assert(self.outbox@ =~= mid.outbox@.push(self.outbox@.last()));
                assert(split_post(*old(self), mid, direction) && opened_in(mid, *self, t@));
                true
            },
            None => false,
        }
    }

    /// Asks for a random article (`r`), shown in the active pane if it is
    /// empty, else in a new tab; nothing happens while the pane is loading.
    pub fn fetch_random_article(&mut self)
        requires
            app_ok(*old(self)),
            old(self).tabs@.len() + 1 < usize::MAX,
            old(self).next_pane_id + 1 < usize::MAX,
            old(self).next_request_id < u64::MAX,
        ensures
            app_ok(*final(self)),
            random_post(*old(self), *final(self)),
    {
        let ti = self.active_tab_idx;
        let pi = self.tabs[ti].active_pane_idx;
        if self.tabs[ti].panes[pi].is_loading {
            return;
        }
        let is_empty = match &self.tabs[ti].panes[pi].content {
            PaneContent::Empty => true,
            _ => false,
        };
        if !is_empty {
            let id = self.next_pane_id;
            self.next_pane_id = self.next_pane_id + 1;
            self.tabs.push(super::state::Tab::new(string_of("loading..."), id));
            self.active_tab_idx = self.tabs.len() - 1;
            proof {
                assert forall|k: int| 0 <= k < self.tabs@.len() implies super::state::tab_ok(#[trigger] self.tabs@[k]) by {
                    if k < old(self).tabs@.len() {
                        assert(self.tabs@[k] == old(self).tabs@[k]);
                    }
                }
            }
        }
        let ghost before = *self;
        let ti = self.active_tab_idx;
        let pi = self.tabs[ti].active_pane_idx;
        let (tab, mut pane) = self.take_pane_at(ti, pi);
        pane.is_loading = true;
        let request_id = self.next_request_id;
        pane.current_request_id = request_id;
        let pane_id = pane.id;
        self.put_pane_at(ti, pi, tab, pane, Ghost(before));
        self.next_request_id = request_id + 1;
        self.outbox.push(NetworkCommand::FetchRandomArticle { pane_id, request_id });
    }
}

/// Commands the reader leaves to its caller: the discovery feed, the list
/// dialogs, category choice, moving between split panes, and opening the
/// selection elsewhere (those need state or checks kept outside).
pub open spec fn left_to_caller(cmd: KeyCommand) -> bool {
    match cmd {
        KeyCommand::Nothing | KeyCommand::OnboardingNext | KeyCommand::OnboardingPrev
        | KeyCommand::OnboardingToggle | KeyCommand::OnboardingSubmit | KeyCommand::OnboardingCancel
        | KeyCommand::SaveListNext | KeyCommand::SaveListPrev | KeyCommand::SaveListActivate
        | KeyCommand::SaveListNew | KeyCommand::NewListChar(_) | KeyCommand::NewListBackspace
        | KeyCommand::NewListSubmit | KeyCommand::NewListCancel | KeyCommand::ViewerFocusLists
        | KeyCommand::ViewerFocusArticles | KeyCommand::ViewerDown | KeyCommand::ViewerUp
        | KeyCommand::ViewerEnter | KeyCommand::ViewerDelete | KeyCommand::ViewerNewList
        | KeyCommand::ConfirmYes | KeyCommand::ConfirmNo | KeyCommand::FeedClose | KeyCommand::FeedNext
        | KeyCommand::FeedPrev | KeyCommand::FeedToggleLike | KeyCommand::FeedOpen
        | KeyCommand::FeedOpenInNewTab | KeyCommand::ToggleFeed | KeyCommand::OpenSaveToList
        | KeyCommand::OpenSavedLists | KeyCommand::OpenInSplit(_) | KeyCommand::NavigatePane(_)
        | KeyCommand::OpenInNewTab => true,
        _ => false,
    }
}

/// `b` is what `a` becomes after a key press that asked for `cmd`.
pub open spec fn key_effect(a: App, b: App, cmd: KeyCommand, act: Option<Activation>, term_height: u16) -> bool {
    &&& pane_step(cmd, active_pane(a), term_height) matches Some(p) ==> with_active_pane(a, b, p)
    &&& mode_step(cmd, a) matches Some(m) ==> b == m
    &&& search_step(cmd, a.search.text@, a.search.cursor as int) matches Some((t, c)) ==> (b.search.text@ == t
        && b.search.cursor == c && b == (App { search: b.search, ..a }))
    &&& cmd == KeyCommand::Activate ==> (act matches Some(x) && activated(active_pane(a), active_pane(b), x, term_height)
        && with_active_pane(a, b, active_pane(b)))
    &&& cmd != KeyCommand::Activate ==> act is None
    &&& cmd == KeyCommand::EnterSearch ==> enter_search_post(a, b)
    &&& cmd == KeyCommand::EditSearch ==> edit_search_post(a, b)
    &&& cmd == KeyCommand::SearchExit ==> exit_search_post(a, b)
    &&& cmd == KeyCommand::SearchSubmit ==> submit_post(a, b)
    &&& cmd == KeyCommand::EnterLocalSearch ==> local_enter_post(a, b)
    &&& cmd matches KeyCommand::LocalSearchChar(c) ==> local_edit_post(a, b, Some(c), term_height)
    &&& cmd == KeyCommand::LocalSearchBackspace ==> local_edit_post(a, b, None, term_height)
    &&& cmd == KeyCommand::RandomArticle ==> random_post(a, b)
    &&& cmd == KeyCommand::NewTab ==> new_tab_post(a, b)
    &&& cmd == KeyCommand::NextTab ==> b == (App {
        active_tab_idx: ((a.active_tab_idx + 1) % (a.tabs@.len() as int)) as usize,
        ..a
    })
    &&& cmd == KeyCommand::PrevTab ==> b == (App {
        active_tab_idx: (if a.active_tab_idx == 0 { a.tabs@.len() - 1 } else { a.active_tab_idx - 1 }) as usize,
        ..a
    })
    &&& cmd == KeyCommand::ClosePane ==> if active_tab(a).panes@.len() <= 1 {
        close_tab_post(a, b)
    } else {
        close_pane_post(a, b)
    }
    &&& cmd matches KeyCommand::Split(d) ==> split_post(App { waiting_for_split_cmd: false, ..a }, b, d)
    &&& left_to_caller(cmd) ==> b == a
}

impl App {
    /// A key press: the command it stands for in the reader's state, carried
    /// out. What the reader leaves to its caller (see `left_to_caller`) is
    /// only returned.
    pub fn handle_key_event(&mut self, key: KeyEvent, term_height: u16) -> (r: KeyOutcome)
        requires
            app_ok(*old(self)),
            old(self).tabs@.len() + 1 < usize::MAX,
            old(self).next_pane_id + 1 < usize::MAX,
            active_tab(*old(self)).panes@.len() + 1 < usize::MAX,
            old(self).search.text@.len() + 1 < usize::MAX,
            shown_query(*old(self)).len() < usize::MAX,
            focus_in_bounds(active_pane(*old(self))),
            old(self).next_request_id < u64::MAX,
        ensures
            r.command == key_binding(key_context(*old(self)), key),
            app_ok(*final(self)),
            key_effect(*old(self), *final(self), r.command, r.activation, term_height),
    {
        let ti = self.active_tab_idx;
        let pi = self.tabs[ti].active_pane_idx;
        let ctx = KeyContext {
            mode: self.input_mode,
            feed_active: self.feed_active,
            toc_focused: self.tabs[ti].panes[pi].toc_focused,
            waiting_for_split: self.waiting_for_split_cmd,
        };
        let cmd = key_command(ctx, key);
        let mut activation: Option<Activation> = None;
        match cmd {
            KeyCommand::SelectNext | KeyCommand::SelectPrev | KeyCommand::PageDown | KeyCommand::PageUp
            | KeyCommand::Top | KeyCommand::Bottom | KeyCommand::FocusNextLink | KeyCommand::FocusPrevLink
            | KeyCommand::NextHeading | KeyCommand::PrevHeading | KeyCommand::TocToggle | KeyCommand::TocNext
            | KeyCommand::TocPrev | KeyCommand::TocActivate | KeyCommand::NextMatch | KeyCommand::PrevMatch => {
                self.on_active_pane(cmd, term_height);
            },
            KeyCommand::Activate => {
                activation = self.on_active_pane(cmd, term_height);
            },
            KeyCommand::Quit => self.quit(),
            KeyCommand::ToggleZen => self.toggle_zen_mode(),
            KeyCommand::ToggleHelp => self.toggle_help_popup(),
            KeyCommand::BackToNormal => {
                self.input_mode = InputMode::Normal;
            },
            KeyCommand::AwaitSplit => {
                self.waiting_for_split_cmd = true;
            },
            KeyCommand::SplitCancel => {
                self.waiting_for_split_cmd = false;
            },
            KeyCommand::Split(d) => {
                self.waiting_for_split_cmd = false;
                self.split_active_pane(d);
            },
            KeyCommand::NewTab => self.new_tab(),
            KeyCommand::NextTab => self.next_tab(),
            KeyCommand::PrevTab => self.prev_tab(),
            KeyCommand::ClosePane => self.close_active_pane(),
            KeyCommand::EnterSearch => self.enter_search_mode(),
            KeyCommand::EditSearch => self.edit_search_mode(),
            KeyCommand::SearchExit => self.exit_search_mode(),
            KeyCommand::SearchSubmit => self.submit_search(),
            KeyCommand::SearchChar(_) | KeyCommand::SearchBackspace | KeyCommand::SearchDelete
            | KeyCommand::SearchDeleteWord | KeyCommand::SearchCursorLeft | KeyCommand::SearchCursorRight
            | KeyCommand::SearchCursorHome | KeyCommand::SearchCursorEnd => self.edit_search(cmd),
            KeyCommand::EnterLocalSearch => self.enter_local_search_mode(),
            KeyCommand::LocalSearchChar(c) => self.edit_local_search(Some(c), term_height),
            KeyCommand::LocalSearchBackspace => self.edit_local_search(None, term_height),
            KeyCommand::RandomArticle => self.fetch_random_article(),
            _ => {},
        }
        KeyOutcome { command: cmd, activation }
    }
}

/// The modes in which a list dialog is open and takes the keys.
pub open spec fn in_lists_dialog(m: InputMode) -> bool {
    ||| m == InputMode::SaveToList
    ||| m == InputMode::CreateNewList
    ||| m == InputMode::SavedListsViewer
    ||| m == InputMode::ConfirmDelete
}

impl App {
    /// A key press in any mode. While a list dialog is open the dialog takes
    /// the key (see `ListsDialog::handle_lists_key`, with `now` as the time
    /// of anything saved), and an article the viewer picks opens in the
    /// active pane; otherwise the reader takes it (see `handle_key_event`).
    pub fn handle_key_event_with_lists(
        &mut self,
        dialog: &mut ListsDialog,
        store: &mut SavedListsStore,
        key: KeyEvent,
        term_height: u16,
        now: String,
        liked_readonly: bool,
    ) -> (r: KeyOutcome)
        requires
            app_ok(*old(self)),
            old(self).tabs@.len() + 1 < usize::MAX,
            old(self).next_pane_id + 1 < usize::MAX,
            active_tab(*old(self)).panes@.len() + 1 < usize::MAX,
            old(self).search.text@.len() + 1 < usize::MAX,
            shown_query(*old(self)).len() < usize::MAX,
            focus_in_bounds(active_pane(*old(self))),
            old(self).next_request_id < u64::MAX,
            old(dialog).modal.save_cursor_idx < usize::MAX,
            old(dialog).modal.viewer_list_idx < usize::MAX,
            old(dialog).modal.viewer_article_idx < usize::MAX,
            old(store)@.len() < usize::MAX,
        ensures
            app_ok(*final(self)),
            in_lists_dialog(old(self).input_mode) ==> {
                &&& r.command == key_binding(dialog_context(old(self).input_mode), key)
                &&& r.activation is None
                &&& exists|mode: InputMode, opened: Option<String>|
                    #[trigger] lists_key_post(
                        *old(dialog),
                        *final(dialog),
                        old(self).input_mode,
                        mode,
                        old(store)@,
                        final(store)@,
                        key,
                        now@,
                        liked_readonly,
                        opened,
                    ) && match opened {
                        None => *final(self) == (App { input_mode: mode, ..*old(self) }),
                        Some(t) => opened_in(App { input_mode: mode, ..*old(self) }, *final(self), t@),
                    }
            },
            !in_lists_dialog(old(self).input_mode) ==> {
                &&& r.command == key_binding(key_context(*old(self)), key)
                &&& key_effect(*old(self), *final(self), r.command, r.activation, term_height)
                &&& *final(dialog) == *old(dialog)
                &&& final(store)@ == old(store)@
            },
    {
        let m = self.input_mode;
        if m == InputMode::SaveToList || m == InputMode::CreateNewList || m == InputMode::SavedListsViewer || m
            == InputMode::ConfirmDelete {
            let mut mode = m;
            let command = key_command(KeyContext { mode: m, feed_active: false, toc_focused: false, waiting_for_split: false }, key);
            let opened = dialog.handle_lists_key(&mut mode, store, key, now, liked_readonly);
            self.input_mode = mode;
            let ghost mid = *self;
            match &opened {
                Some(t) => {
                    self.open_article(t.as_str());
                },
                None => {},
            }
            assert(lists_key_post(
                *old(dialog),
                *dialog,
                old(self).input_mode,
                mode,
                old(store)@,
                store@,
                key,
                now@,
                liked_readonly,
                opened,
            ));
            assert(mid == App { input_mode: mode, ..*old(self) });
            KeyOutcome { command, activation: None }
        } else {
            self.handle_key_event(key, term_height)
        }
    }
}

} // verus!
