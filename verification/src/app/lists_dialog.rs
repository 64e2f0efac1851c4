//! The saved-lists dialogs: saving the article shown to a list, naming a
//! new list, browsing the lists, and confirming a deletion. Each command
//! acts on the dialog state, the input mode and the store of lists;
//! loading and writing the store is the caller's.
use vstd::prelude::*;
use super::lists_modal::{wrap_next, wrap_prev, ListsModalState};
use super::pane::{Pane, PaneContent};
use super::InputMode;
use crate::keybinds::{key_binding, key_command, KeyCode, KeyCommand, KeyContext, KeyEvent};
use crate::saved_lists::{in_list, toggled, created, ListView, SavedListsStore};
use crate::text::{chars_eq_str, is_all_whitespace, push_char, string_from_chars, string_of, to_chars, trim_chars, trim_seq, all_ws};

verus! {

/// A deletion waiting for confirmation.
#[derive(Debug)]
pub enum ConfirmAction {
    DeleteList { list_id: String, title: String },
    DeleteArticle { list_id: String, title: String },
}

/// The state of the list dialogs.
#[derive(Debug)]
pub struct ListsDialog {
    pub modal: ListsModalState,
    /// The article "save to list" is about.
    pub target_title: String,
    pub target_snippet: Option<String>,
    /// The name being typed for a new list.
    pub create_input: String,
    /// The dialog naming a new list returns to.
    pub create_return_mode: InputMode,
    pub confirm_action: Option<ConfirmAction>,
}

/// The ids of the lists one can save to: all but "liked", in order.
pub open spec fn custom_ids(lists: Seq<ListView>) -> Seq<Seq<char>>
    decreases lists.len(),
{
    if lists.len() == 0 {
        seq![]
    } else if lists.last().id == "liked"@ {
        custom_ids(lists.drop_last())
    } else {
        custom_ids(lists.drop_last()).push(lists.last().id)
    }
}


fn custom_list_ids(store: &SavedListsStore) -> (r: Vec<String>)
    ensures
        r@.len() == custom_ids(store@).len(),
        forall|i: int| 0 <= i < r@.len() ==> (#[trigger] r@[i])@ == custom_ids(store@)[i],
{
    let mut out: Vec<String> = Vec::new();
    let mut i: usize = 0;
    while i < store.lists.len()
        invariant
            i <= store.lists.len(),
            store@.len() == store.lists@.len(),
            out@.len() == custom_ids(store@.take(i as int)).len(),
            forall|k: int| 0 <= k < out@.len() ==> (#[trigger] out@[k])@ == custom_ids(store@.take(i as int))[k],
        decreases store.lists.len() - i,
    {
        let ghost before = store@.take(i as int);
        assert(store@.take(i + 1).drop_last() =~= before);
        assert(store@[i as int] == store.lists@[i as int]@);
        let id = to_chars(store.lists[i].id.as_str());
        if !chars_eq_str(&id, "liked") {
            out.push(string_of(store.lists[i].id.as_str()));
        }
        i += 1;
    }
    assert(store@.take(i as int) =~= store@);
    out
}

/// The rows of "save to list": the lists one can save to, then "new list".
pub open spec fn save_rows(lists: Seq<ListView>) -> int {
    custom_ids(lists).len() + 1int
}

/// `b` is `a` with the dialog naming a new list opened, to return to `back`.
pub open spec fn naming_opened(a: ListsDialog, b: ListsDialog, back: InputMode) -> bool {
    &&& b.create_input@ == Seq::<char>::empty()
    &&& b == ListsDialog { create_input: b.create_input, create_return_mode: back, ..a }
}

/// What saving the target to list `id` gives: the store toggled.
pub open spec fn saved_to(d: ListsDialog, lists: Seq<ListView>, id: Seq<char>, now: Seq<char>) -> Seq<ListView> {
    toggled(
        lists,
        id,
        d.target_title@,
        match d.target_snippet {
            Some(s) => Some(s@),
            None => None,
        },
        now,
    ).1
}

/// The article the active pane offers to save: the article shown, or the
/// selected search result with its snippet.
pub open spec fn save_target(p: Pane) -> Option<(Seq<char>, Option<Seq<char>>)> {
    match p.content {
        PaneContent::ArticleText { title, .. } => Some((title@, None)),
        PaneContent::SearchResults { items, .. } => if p.selected_idx < items@.len() {
            Some((items@[p.selected_idx as int].title@, Some(items@[p.selected_idx as int].snippet@)))
        } else {
            None
        },
        _ => None,
    }
}

/// `b`, `mb`, `sb` are the dialog, mode and lists after the key `cmd` in
/// "save to list" (from `a`, `ma`, `sa`).
pub open spec fn save_list_post(a: ListsDialog, b: ListsDialog, ma: InputMode, mb: InputMode, sa: Seq<ListView>, sb: Seq<ListView>, cmd: KeyCommand, now: Seq<char>) -> bool {
    ({
        let rows = save_rows(sa);
        let c = a.modal.save_cursor_idx as int;
        let ids = custom_ids(sa);
        match cmd {
            KeyCommand::SaveListNext => b == ListsDialog {
                modal: ListsModalState { save_cursor_idx: wrap_next(c, rows) as usize, ..a.modal },
                ..a
            } && mb == ma && sb == sa,
            KeyCommand::SaveListPrev => b == ListsDialog {
                modal: ListsModalState { save_cursor_idx: wrap_prev(c, rows) as usize, ..a.modal },
                ..a
            } && mb == ma && sb == sa,
            KeyCommand::SaveListActivate => if c < ids.len() {
                b == a && mb == ma && sb == saved_to(
                    a,
                    sa,
                    ids[c],
                    now,
                )
            } else {
                naming_opened(a, b, InputMode::SaveToList) && mb
                    == InputMode::CreateNewList && sb == sa
            },
            KeyCommand::SaveListNew => naming_opened(a, b, InputMode::SaveToList)
                && mb == InputMode::CreateNewList && sb == sa,
            KeyCommand::BackToNormal => b == a && mb == InputMode::Normal
                && sb == sa,
            _ => b == a && mb == ma && sb == sa,
        }
    })
}

/// The same after a key while naming a new list.
pub open spec fn create_list_post(a: ListsDialog, b: ListsDialog, ma: InputMode, mb: InputMode, sa: Seq<ListView>, sb: Seq<ListView>, cmd: KeyCommand, now: Seq<char>) -> bool {
    match cmd {
        KeyCommand::NewListChar(c) => b.create_input@ == a.create_input@.push(c)
            && b == ListsDialog { create_input: b.create_input, ..a }
            && mb == ma && sb == sa,
        KeyCommand::NewListBackspace => b.create_input@ == (if a.create_input@.len() > 0 {
            a.create_input@.drop_last()
        } else {
            a.create_input@
        }) && b == ListsDialog { create_input: b.create_input, ..a }
            && mb == ma && sb == sa,
        KeyCommand::NewListSubmit => b.create_input@ == Seq::<char>::empty()
            && b == ListsDialog { create_input: b.create_input, ..a }
            && mb == a.create_return_mode
            && sb == submitted(a, sa, now),
        KeyCommand::NewListCancel => b == a && mb == a.create_return_mode
            && sb == sa,
        _ => b == a && mb == ma && sb == sa,
    }
}

/// The same after a key in the saved-lists viewer, which returns `r`.
pub open spec fn viewer_post(a: ListsDialog, b: ListsDialog, ma: InputMode, mb: InputMode, s: Seq<ListView>, cmd: KeyCommand, liked_readonly: bool, r: Option<String>) -> bool {
    ({
        let lists = s;
        let m = a.modal;
        let arts = articles_in(lists, m.viewer_list_idx as int);
        match cmd {
            KeyCommand::ViewerFocusLists => r is None && mb == ma && b == ListsDialog {
                modal: ListsModalState { viewer_focus_right: false, ..m },
                ..a
            },
            KeyCommand::ViewerFocusArticles => r is None && mb == ma && b
                == ListsDialog { modal: ListsModalState { viewer_focus_right: m.viewer_focus_right || arts > 0, ..m }, ..a },
            KeyCommand::ViewerDown => r is None && mb == ma && b == ListsDialog {
                modal: b.modal,
                ..a
            } && b.modal == (if m.viewer_focus_right {
                if arts > 0 {
                    ListsModalState { viewer_article_idx: wrap_next(m.viewer_article_idx as int, arts) as usize, ..m }
                } else {
                    m
                }
            } else if lists.len() > 0 {
                ListsModalState {
                    viewer_list_idx: wrap_next(m.viewer_list_idx as int, lists.len() as int) as usize,
                    viewer_article_idx: 0,
                    ..m
                }
            } else {
                m
            }),
            KeyCommand::ViewerUp => r is None && mb == ma && b == ListsDialog {
                modal: b.modal,
                ..a
            } && b.modal == (if m.viewer_focus_right {
                if arts > 0 {
                    ListsModalState { viewer_article_idx: wrap_prev(m.viewer_article_idx as int, arts) as usize, ..m }
                } else {
                    m
                }
            } else if lists.len() > 0 {
                ListsModalState {
                    viewer_list_idx: wrap_prev(m.viewer_list_idx as int, lists.len() as int) as usize,
                    viewer_article_idx: 0,
                    ..m
                }
            } else {
                m
            }),
            KeyCommand::ViewerEnter => b == a && if m.viewer_focus_right && (
            m.viewer_article_idx as int) < arts {
                r matches Some(t) && t@ == lists[m.viewer_list_idx as int].articles[m.viewer_article_idx as int].title
                    && mb == InputMode::Normal
            } else {
                r is None && mb == ma
            },
            KeyCommand::ViewerDelete => r is None && match deletion_asked(m, lists, liked_readonly) {
                Some(d) => b.confirm_action matches Some(act) && action_view(act) == d
                    && b == ListsDialog { confirm_action: b.confirm_action, ..a }
                    && mb == InputMode::ConfirmDelete,
                None => b == a && mb == ma,
            },
            KeyCommand::ViewerNewList => r is None && b.target_title@ == Seq::<char>::empty()
                && naming_opened(
                ListsDialog { target_title: b.target_title, ..a },
                b,
                InputMode::SavedListsViewer,
            ) && mb == InputMode::CreateNewList,
            KeyCommand::BackToNormal => r is None && b == a && mb == InputMode::Normal,
            _ => r is None && b == a && mb == ma,
        }
    })
}

/// The same after a key while a deletion waits for confirmation.
pub open spec fn confirm_post(a: ListsDialog, b: ListsDialog, ma: InputMode, mb: InputMode, sa: Seq<ListView>, sb: Seq<ListView>, cmd: KeyCommand, now: Seq<char>) -> bool {
    ({
        let m = a.modal;
        match cmd {
            KeyCommand::ConfirmYes => match a.confirm_action {
                Some(act) => {
                    let after = deleted_by(act, sa, now);
                    &&& sb == after
                    &&& mb == InputMode::SavedListsViewer
                    &&& b.confirm_action is None
                    &&& b.modal == (match act {
                        ConfirmAction::DeleteList { .. } => ListsModalState {
                            viewer_list_idx: clamp_below(m.viewer_list_idx as int, after.len() as int) as usize,
                            viewer_article_idx: 0,
                            ..m
                        },
                        ConfirmAction::DeleteArticle { .. } => ListsModalState {
                            viewer_article_idx: clamp_below(
                                m.viewer_article_idx as int,
                                articles_in(after, m.viewer_list_idx as int),
                            ) as usize,
                            ..m
                        },
                    })
                    &&& b == ListsDialog {
                        modal: b.modal,
                        confirm_action: None,
                        ..a
                    }
                },
                None => sb == sa && mb == InputMode::Normal && b
                    == a,
            },
            KeyCommand::ConfirmNo => sb == sa && mb == InputMode::SavedListsViewer
                && b == ListsDialog { confirm_action: None, ..a },
            _ => sb == sa && mb == ma && b == a,
        }
    })
}

impl ListsDialog {
    /// The dialogs closed, every cursor at the start.
    pub fn new() -> (r: Self)
        ensures
            r.modal == (ListsModalState { save_cursor_idx: 0, viewer_list_idx: 0, viewer_article_idx: 0, viewer_focus_right: false }),
            r.target_title@ == Seq::<char>::empty(),
            r.target_snippet is None,
            r.create_input@ == Seq::<char>::empty(),
            r.create_return_mode == InputMode::Normal,
            r.confirm_action is None,
    {
        ListsDialog {
            modal: ListsModalState::new(),
            target_title: String::new(),
            target_snippet: None,
            create_input: String::new(),
            create_return_mode: InputMode::Normal,
            confirm_action: None,
        }
    }

    /// `m`: offers to save what `pane` shows (see `save_target`) unless its
    /// title is blank; returns whether the dialog opened.
    pub fn open_save_to_list_modal(&mut self, mode: &mut InputMode, pane: &Pane) -> (r: bool)
        ensures
            r == (save_target(*pane) matches Some(t) && !all_ws(t.0)),
            r ==> {
                &&& final(self).target_title@ == save_target(*pane).unwrap().0
                &&& (match final(self).target_snippet {
                    Some(s) => Some(s@),
                    None => None,
                }) == save_target(*pane).unwrap().1
                &&& final(self).modal == ListsModalState { save_cursor_idx: 0, ..old(self).modal }
                &&& *final(mode) == InputMode::SaveToList
                &&& *final(self) == ListsDialog {
                    target_title: final(self).target_title,
                    target_snippet: final(self).target_snippet,
                    modal: final(self).modal,
                    ..*old(self)
                }
            },
            !r ==> *final(self) == *old(self) && *final(mode) == *old(mode),
    {
        let (title, snippet) = match &pane.content {
            PaneContent::ArticleText { title, .. } => (string_of(title.as_str()), None),
            PaneContent::SearchResults { items, .. } => if pane.selected_idx < items.len() {
                (
                    string_of(items[pane.selected_idx].title.as_str()),
                    Some(string_of(items[pane.selected_idx].snippet.as_str())),
                )
            } else {
                return false;
            },
            _ => return false,
        };
        let tc = to_chars(title.as_str());
        if is_all_whitespace(&tc) {
            return false;
        }
        self.target_title = title;
        self.target_snippet = snippet;
        self.modal.save_cursor_idx = 0;
        *mode = InputMode::SaveToList;
        true
    }

    /// `M`: opens the viewer on the first list, the lists focused.
    pub fn open_saved_lists_viewer(&mut self, mode: &mut InputMode)
        ensures
            *final(mode) == InputMode::SavedListsViewer,
            *final(self) == (ListsDialog {
                modal: ListsModalState {
                    viewer_list_idx: 0,
                    viewer_article_idx: 0,
                    viewer_focus_right: false,
                    ..old(self).modal
                },
                ..*old(self)
            }),
    {
        self.modal.viewer_list_idx = 0;
        self.modal.viewer_article_idx = 0;
        self.modal.viewer_focus_right = false;
        *mode = InputMode::SavedListsViewer;
    }

    /// A key in "save to list": move through the rows, toggle the target
    /// in the list under the cursor (the last row, and `n`, name a new
    /// list), or leave.
    pub fn save_list_step(&mut self, mode: &mut InputMode, store: &mut SavedListsStore, cmd: KeyCommand, now: String)
        requires
            old(self).modal.save_cursor_idx < usize::MAX,
            old(store)@.len() < usize::MAX,
        ensures
            save_list_post(*old(self), *final(self), *old(mode), *final(mode), old(store)@, final(store)@, cmd, now@),

    {
        let ids = custom_list_ids(store);
        proof {
            lemma_custom_ids_len(store@);
        }
        let rows = ids.len() + 1;
        match cmd {
            KeyCommand::SaveListNext => self.modal.save_next(rows),
            KeyCommand::SaveListPrev => self.modal.save_prev(rows),
            KeyCommand::SaveListActivate => {
                let c = self.modal.save_cursor_idx;
                if c < ids.len() {
                    let snippet = match &self.target_snippet {
                        Some(s) => Some(s.as_str()),
                        None => None,
                    };
                    store.toggle_article_in_list(ids[c].as_str(), self.target_title.as_str(), snippet, now);
                } else {
                    self.create_input = String::new();
                    self.create_return_mode = InputMode::SaveToList;
                    *mode = InputMode::CreateNewList;
                }
            },
            KeyCommand::SaveListNew => {
                self.create_input = String::new();
                self.create_return_mode = InputMode::SaveToList;
                *mode = InputMode::CreateNewList;
            },
            KeyCommand::BackToNormal => {
                *mode = InputMode::Normal;
            },
            _ => {},
        }
    }
}

/// The store once the name typed in `d` was submitted: a list of that
/// name is made (unless the name is blank), and the target, if any, is
/// saved to it.
pub open spec fn submitted(d: ListsDialog, lists: Seq<ListView>, now: Seq<char>) -> Seq<ListView> {
    let name = trim_seq(d.create_input@);
    if name.len() == 0 {
        lists
    } else {
        let (id, made) = created(lists, name, ""@, now);
        if d.target_title@.len() > 0 {
            saved_to(d, made, id, now)
        } else {
            made
        }
    }
}

/// The number of articles of list `i`, if there is such a list.
pub open spec fn articles_in(lists: Seq<ListView>, i: int) -> int {
    if 0 <= i < lists.len() {
        lists[i].articles.len() as int
    } else {
        0
    }
}

/// `i` kept within `n` positions (at 0 when there are none).
pub open spec fn clamp_below(i: int, n: int) -> int {
    if n == 0 {
        0
    } else if i < n - 1 {
        i
    } else {
        n - 1
    }
}

/// The deletion that `Delete` asks to confirm in the viewer, if any: the
/// article under the cursor when the articles have the focus (not in the
/// "liked" list when that list is read-only), else the list under the
/// cursor unless it is "liked".
pub open spec fn deletion_asked(m: ListsModalState, lists: Seq<ListView>, liked_readonly: bool) -> Option<
    (bool, Seq<char>, Seq<char>),
> {
    let li = m.viewer_list_idx as int;
    if li >= lists.len() {
        None
    } else if m.viewer_focus_right {
        let l = lists[li];
        if (!liked_readonly || l.id != "liked"@) && (m.viewer_article_idx as int) < l.articles.len() {
            Some((true, l.id, l.articles[m.viewer_article_idx as int].title))
        } else {
            None
        }
    } else if lists[li].id != "liked"@ {
        Some((false, lists[li].id, lists[li].name))
    } else {
        None
    }
}

/// The view of a waiting deletion: whether it is of an article, the list,
/// and the article's title or the list's name.
pub open spec fn action_view(a: ConfirmAction) -> (bool, Seq<char>, Seq<char>) {
    match a {
        ConfirmAction::DeleteList { list_id, title } => (false, list_id@, title@),
        ConfirmAction::DeleteArticle { list_id, title } => (true, list_id@, title@),
    }
}

impl ListsDialog {
    /// A key while naming a new list: type, erase, submit (see
    /// `submitted`; the dialog goes back where it came from), or cancel.
    pub fn create_list_step(&mut self, mode: &mut InputMode, store: &mut SavedListsStore, cmd: KeyCommand, now: String)
        ensures
            create_list_post(*old(self), *final(self), *old(mode), *final(mode), old(store)@, final(store)@, cmd, now@),

    {
        match cmd {
            KeyCommand::NewListChar(c) => {
                let mut t = string_of(self.create_input.as_str());
                push_char(&mut t, c);
                self.create_input = t;
            },
            KeyCommand::NewListBackspace => {
                let mut cs = to_chars(self.create_input.as_str());
                if cs.len() > 0 {
                    cs.pop();
                    self.create_input = string_from_chars(&cs);
                }
            },
            KeyCommand::NewListSubmit => {
                let name_chars = trim_chars(&to_chars(self.create_input.as_str()));
                let name = string_from_chars(&name_chars);
                if name_chars.len() > 0 {
                    let id = store.create_list(name.as_str(), "", now.clone());
                    let tc = to_chars(self.target_title.as_str());
                    if tc.len() > 0 {
                        let snippet = match &self.target_snippet {
                            Some(s) => Some(s.as_str()),
                            None => None,
                        };
                        store.toggle_article_in_list(id.as_str(), self.target_title.as_str(), snippet, now);
                    }
                }
                self.create_input = String::new();
                *mode = self.create_return_mode;
            },
            KeyCommand::NewListCancel => {
                *mode = self.create_return_mode;
            },
            _ => {},
        }
    }
}

impl ListsDialog {
    /// A key in the saved-lists viewer: switch columns, move, open the
    /// article under the cursor (returned; the viewer closes), ask to
    /// delete (see `deletion_asked`), name a new list, or leave.
    pub fn viewer_step(&mut self, mode: &mut InputMode, store: &SavedListsStore, cmd: KeyCommand, liked_readonly: bool) -> (r:
        Option<String>)
        requires
            old(self).modal.viewer_list_idx < usize::MAX,
            old(self).modal.viewer_article_idx < usize::MAX,
        ensures
            viewer_post(*old(self), *final(self), *old(mode), *final(mode), store@, cmd, liked_readonly, r),

    {
        let n = store.lists.len();
        let li = self.modal.viewer_list_idx;
        let arts: usize = if li < n {
            assert(store@[li as int] == store.lists@[li as int]@);
            store.lists[li].articles.len()
        } else {
            0
        };
        match cmd {
            KeyCommand::ViewerFocusLists => {
                self.modal.viewer_focus_right = false;
                None
            },
            KeyCommand::ViewerFocusArticles => {
                if arts > 0 {
                    self.modal.viewer_focus_right = true;
                }
                None
            },
            KeyCommand::ViewerDown => {
                self.modal.viewer_down(n, arts);
                None
            },
            KeyCommand::ViewerUp => {
                self.modal.viewer_up(n, arts);
                None
            },
            KeyCommand::ViewerEnter => {
                let ai = self.modal.viewer_article_idx;
                if self.modal.viewer_focus_right && ai < arts {
                    assert(store@[li as int].articles[ai as int] == store.lists@[li as int].articles@[ai as int]@);
                    let t = string_of(store.lists[li].articles[ai].title.as_str());
                    *mode = InputMode::Normal;
                    Some(t)
                } else {
                    None
                }
            },
            KeyCommand::ViewerDelete => {
                if li >= n {
                    return None;
                }
                let list = &store.lists[li];
                assert(store@[li as int] == list@);
                let id = to_chars(list.id.as_str());
                let liked = chars_eq_str(&id, "liked");
                if self.modal.viewer_focus_right {
                    let ai = self.modal.viewer_article_idx;
                    if (!liked_readonly || !liked) && ai < list.articles.len() {
                        assert(list@.articles[ai as int] == list.articles@[ai as int]@);
                        self.confirm_action = Some(
                            ConfirmAction::DeleteArticle {
                                list_id: string_of(list.id.as_str()),
                                title: string_of(list.articles[ai].title.as_str()),
                            },
                        );
                        *mode = InputMode::ConfirmDelete;
                    }
                } else if !liked {
                    self.confirm_action = Some(
                        ConfirmAction::DeleteList {
                            list_id: string_of(list.id.as_str()),
                            title: string_of(list.name.as_str()),
                        },
                    );
                    *mode = InputMode::ConfirmDelete;
                }
                None
            },
            KeyCommand::ViewerNewList => {
                self.target_title = String::new();
                self.create_input = String::new();
                self.create_return_mode = InputMode::SavedListsViewer;
                *mode = InputMode::CreateNewList;
                None
            },
            KeyCommand::BackToNormal => {
                *mode = InputMode::Normal;
                None
            },
            _ => None,
        }
    }
}

/// The store once the waiting deletion `a` is confirmed: the list is
/// dropped, or the article taken out of its list.
pub open spec fn deleted_by(a: ConfirmAction, lists: Seq<ListView>, now: Seq<char>) -> Seq<ListView> {
    match a {
        ConfirmAction::DeleteList { list_id, .. } => lists.filter(crate::saved_lists::other_id(list_id@)),
        ConfirmAction::DeleteArticle { list_id, title } => if in_list(lists, list_id@, title@) {
            toggled(lists, list_id@, title@, None, now).1
        } else {
            lists
        },
    }
}

impl ListsDialog {
    /// `y` or `Enter` carries out the waiting deletion and goes back to the
    /// viewer, its cursors kept within what is left; `n` or `Esc` drops it.
    pub fn confirm_step(&mut self, mode: &mut InputMode, store: &mut SavedListsStore, cmd: KeyCommand, now: String)
        ensures
            confirm_post(*old(self), *final(self), *old(mode), *final(mode), old(store)@, final(store)@, cmd, now@),

    {
        match cmd {
            KeyCommand::ConfirmYes => {
                let action = self.confirm_action.take();
                match action {
                    Some(ConfirmAction::DeleteList { list_id, title }) => {
                        store.delete_list(list_id.as_str());
                        let n = store.lists.len();
                        let li = self.modal.viewer_list_idx;
                        self.modal.viewer_list_idx = if n == 0 { 0 } else if li < n - 1 { li } else { n - 1 };
                        self.modal.viewer_article_idx = 0;
                        *mode = InputMode::SavedListsViewer;
                    },
                    Some(ConfirmAction::DeleteArticle { list_id, title }) => {
                        if store.is_article_in_list(list_id.as_str(), title.as_str()) {
                            store.toggle_article_in_list(list_id.as_str(), title.as_str(), None, now);
                        }
                        let li = self.modal.viewer_list_idx;
                        let count: usize = if li < store.lists.len() {
                            assert(store@[li as int] == store.lists@[li as int]@);
                            store.lists[li].articles.len()
                        } else {
                            0
                        };
                        let ai = self.modal.viewer_article_idx;
                        self.modal.viewer_article_idx = if count == 0 { 0 } else if ai < count - 1 { ai } else { count - 1 };
                        *mode = InputMode::SavedListsViewer;
                    },
                    None => {
                        *mode = InputMode::Normal;
                    },
                }
            },
            KeyCommand::ConfirmNo => {
                self.confirm_action = None;
                *mode = InputMode::SavedListsViewer;
            },
            _ => {},
        }
    }
}

/// How keys are read while a dialog is in `mode`.
pub open spec fn dialog_context(mode: InputMode) -> KeyContext {
    KeyContext { mode, feed_active: false, toc_focused: false, waiting_for_split: false }
}

/// What a key does in the list dialog `a` in mode `ma` over the lists `sa`:
/// the dialog, mode and lists after it, and the article the viewer opens.
/// In modes without a list dialog nothing happens.
pub open spec fn lists_key_post(
    a: ListsDialog,
    b: ListsDialog,
    ma: InputMode,
    mb: InputMode,
    sa: Seq<ListView>,
    sb: Seq<ListView>,
    key: KeyEvent,
    now: Seq<char>,
    liked_readonly: bool,
    r: Option<String>,
) -> bool {
    let cmd = key_binding(dialog_context(ma), key);
    match ma {
        InputMode::SaveToList => r is None && save_list_post(a, b, ma, mb, sa, sb, cmd, now),
        InputMode::CreateNewList => r is None && create_list_post(a, b, ma, mb, sa, sb, cmd, now),
        InputMode::SavedListsViewer => sb == sa && viewer_post(a, b, ma, mb, sa, cmd, liked_readonly, r),
        InputMode::ConfirmDelete => r is None && confirm_post(a, b, ma, mb, sa, sb, cmd, now),
        _ => r is None && b == a && mb == ma && sb == sa,
    }
}

impl ListsDialog {
    /// A key press while a list dialog is open: the key is read with the
    /// dialog's bindings (see `key_binding`) and the dialog in `mode` acts
    /// on it, with `now` as the time of anything saved; returns the article
    /// the viewer opens, if any. In other modes nothing happens.
    pub fn handle_lists_key(
        &mut self,
        mode: &mut InputMode,
        store: &mut SavedListsStore,
        key: KeyEvent,
        now: String,
        liked_readonly: bool,
    ) -> (r: Option<String>)
        requires
            old(self).modal.save_cursor_idx < usize::MAX,
            old(self).modal.viewer_list_idx < usize::MAX,
            old(self).modal.viewer_article_idx < usize::MAX,
            old(store)@.len() < usize::MAX,
        ensures
            lists_key_post(
                *old(self),
                *final(self),
                *old(mode),
                *final(mode),
                old(store)@,
                final(store)@,
                key,
                now@,
                liked_readonly,
                r,
            ),
    {
        let m = *mode;
        let cmd = key_command(KeyContext { mode: m, feed_active: false, toc_focused: false, waiting_for_split: false }, key);
        match m {
            InputMode::SaveToList => {
                self.save_list_step(mode, store, cmd, now);
                None
            },
            InputMode::CreateNewList => {
                self.create_list_step(mode, store, cmd, now);
                None
            },
            InputMode::SavedListsViewer => self.viewer_step(mode, store, cmd, liked_readonly),
            InputMode::ConfirmDelete => {
                self.confirm_step(mode, store, cmd, now);
                None
            },
            _ => None,
        }
    }
}


proof fn lemma_custom_ids_len(lists: Seq<ListView>)
    ensures
        custom_ids(lists).len() <= lists.len(),
        (forall|i: int| 0 <= i < lists.len() ==> #[trigger] lists[i].id != "liked"@)
            ==> custom_ids(lists).len() == lists.len(),
    decreases lists.len(),
{
    if lists.len() > 0 {
        lemma_custom_ids_len(lists.drop_last());
        if forall|i: int| 0 <= i < lists.len() ==> #[trigger] lists[i].id != "liked"@ {
            assert forall|i: int| 0 <= i < lists.drop_last().len() implies #[trigger] lists.drop_last()[i].id
                != "liked"@ by {
                assert(lists.drop_last()[i] == lists[i]);
            }
            assert(lists.last() == lists[lists.len() - 1]);
        }
    }
}

/// Moving in the "save to list" dialog wraps around its rows: one row for
/// each of the `n` lists other than the liked one, and one to make a new
/// list. With the cursor `c` on a row, Down, `j` or Tab puts it on
/// `(c + 1) % (n + 1)` and Up, `k` or BackTab on `(c + n) % (n + 1)`; the
/// lists and the mode stay (and, through `App::handle_key_event_with_lists`,
/// the rest of the reader too). Where no list is the liked one, `n` is the
/// number of lists.
pub proof fn save_cursor_wraps(
    a: ListsDialog,
    b: ListsDialog,
    mb: InputMode,
    sa: Seq<ListView>,
    sb: Seq<ListView>,
    key: KeyEvent,
    now: Seq<char>,
    liked_readonly: bool,
    opened: Option<String>,
)
    requires
        sa.len() < usize::MAX,
        a.modal.save_cursor_idx <= custom_ids(sa).len(),
        lists_key_post(a, b, InputMode::SaveToList, mb, sa, sb, key, now, liked_readonly, opened),
    ensures
        ({
            let n = custom_ids(sa).len() as int;
            let c = a.modal.save_cursor_idx as int;
            &&& (key.code == KeyCode::Down || key.code == KeyCode::Char('j') || key.code == KeyCode::Tab)
                ==> b.modal.save_cursor_idx == (c + 1) % (n + 1) && sb == sa && mb == InputMode::SaveToList
            &&& (key.code == KeyCode::Up || key.code == KeyCode::Char('k') || key.code == KeyCode::BackTab)
                ==> b.modal.save_cursor_idx == (c + n) % (n + 1) && sb == sa && mb == InputMode::SaveToList
        }),
        (forall|i: int| 0 <= i < sa.len() ==> #[trigger] sa[i].id != "liked"@) ==> custom_ids(sa).len() == sa.len(),
{
    lemma_custom_ids_len(sa);
    let n = custom_ids(sa).len() as int;
    let c = a.modal.save_cursor_idx as int;
    assert(0 <= (c + 1) % (n + 1) <= n);
    if c == 0 {
        assert((c + n) % (n + 1) == n) by {
            vstd::arithmetic::div_mod::lemma_small_mod(n as nat, (n + 1) as nat);
        }
    } else {
        assert((c + n) % (n + 1) == c - 1) by {
            assert(c + n == (n + 1) + (c - 1));
            vstd::arithmetic::div_mod::lemma_mod_multiples_vanish(1, c - 1, n + 1);
            vstd::arithmetic::div_mod::lemma_small_mod((c - 1) as nat, (n + 1) as nat);
        }
    }
}

} // verus!
