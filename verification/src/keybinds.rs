//! What each key does, mode by mode: the decision behind the reader's key
//! handling, from a key press and the state it lands in to the command to
//! carry out.
use vstd::prelude::*;
use crate::app::InputMode;

verus! {

/// A key, as the terminal reports it.
#[derive(Debug, Clone, Copy, PartialEq, Eq, Structural)]
pub enum KeyCode {
    Char(char),
    Enter,
    Esc,
    Backspace,
    Delete,
    Left,
    Right,
    Up,
    Down,
    Home,
    End,
    Tab,
    BackTab,
    Other,
}

/// A key press with the modifiers that matter.
#[derive(Debug, Clone, Copy, PartialEq, Eq, Structural)]
pub struct KeyEvent {
    pub code: KeyCode,
    pub ctrl: bool,
    pub alt: bool,
}

/// The way a new pane is split off.
#[derive(Debug, Clone, Copy, PartialEq, Eq, Structural)]
pub enum SplitDirection {
    Horizontal,
    Vertical,
}

/// The state a key press lands in.
#[derive(Debug, Clone, Copy, PartialEq, Eq, Structural)]
pub struct KeyContext {
    pub mode: InputMode,
    /// The discovery feed covers the reader.
    pub feed_active: bool,
    /// The table of contents of the active pane takes the keys.
    pub toc_focused: bool,
    /// `Ctrl-W` was pressed and the next key says how to split.
    pub waiting_for_split: bool,
}

/// What a key press asks for.
#[derive(Debug, Clone, Copy, PartialEq, Eq, Structural)]
pub enum KeyCommand {
    Nothing,
    // choosing feed categories
    OnboardingNext,
    OnboardingPrev,
    OnboardingToggle,
    OnboardingSubmit,
    OnboardingCancel,
    // "save to list"
    SaveListNext,
    SaveListPrev,
    SaveListActivate,
    SaveListNew,
    // naming a new list
    NewListChar(char),
    NewListBackspace,
    NewListSubmit,
    NewListCancel,
    // the saved-lists viewer
    ViewerFocusLists,
    ViewerFocusArticles,
    ViewerDown,
    ViewerUp,
    ViewerEnter,
    ViewerDelete,
    ViewerNewList,
    // confirming a deletion
    ConfirmYes,
    ConfirmNo,
    // in-page search
    LocalSearchChar(char),
    LocalSearchBackspace,
    // the search box
    SearchDeleteWord,
    SearchChar(char),
    SearchBackspace,
    SearchDelete,
    SearchCursorLeft,
    SearchCursorRight,
    SearchCursorHome,
    SearchCursorEnd,
    SearchSubmit,
    SearchExit,
    // the discovery feed
    FeedClose,
    FeedNext,
    FeedPrev,
    FeedToggleLike,
    FeedOpen,
    FeedOpenInNewTab,
    // the table of contents
    TocToggle,
    TocNext,
    TocPrev,
    TocActivate,
    // after Ctrl-W
    Split(SplitDirection),
    SplitCancel,
    // reading
    BackToNormal,
    Quit,
    ToggleZen,
    ToggleFeed,
    RandomArticle,
    OpenSaveToList,
    OpenSavedLists,
    ToggleHelp,
    EnterLocalSearch,
    NextMatch,
    PrevMatch,
    NextHeading,
    PrevHeading,
    PageDown,
    PageUp,
    Top,
    Bottom,
    EnterSearch,
    EditSearch,
    OpenInSplit(SplitDirection),
    NewTab,
    AwaitSplit,
    PrevTab,
    NextTab,
    ClosePane,
    NavigatePane(char),
    FocusNextLink,
    FocusPrevLink,
    SelectNext,
    SelectPrev,
    OpenInNewTab,
    Activate,
}

pub open spec fn is_char(k: KeyCode, c: char) -> bool {
    k == KeyCode::Char(c)
}

/// Keys while choosing feed categories.
pub open spec fn onboarding_binding(k: KeyCode) -> KeyCommand {
    if k == KeyCode::Down || is_char(k, 'j') || k == KeyCode::Tab {
        KeyCommand::OnboardingNext
    } else if k == KeyCode::Up || is_char(k, 'k') || k == KeyCode::BackTab {
        KeyCommand::OnboardingPrev
    } else if is_char(k, ' ') {
        KeyCommand::OnboardingToggle
    } else if k == KeyCode::Enter {
        KeyCommand::OnboardingSubmit
    } else if k == KeyCode::Esc {
        KeyCommand::OnboardingCancel
    } else {
        KeyCommand::Nothing
    }
}

/// Keys in the "save to list" dialog.
pub open spec fn save_list_binding(k: KeyCode) -> KeyCommand {
    if k == KeyCode::Down || is_char(k, 'j') || k == KeyCode::Tab {
        KeyCommand::SaveListNext
    } else if k == KeyCode::Up || is_char(k, 'k') || k == KeyCode::BackTab {
        KeyCommand::SaveListPrev
    } else if is_char(k, ' ') || k == KeyCode::Enter {
        KeyCommand::SaveListActivate
    } else if is_char(k, 'n') {
        KeyCommand::SaveListNew
    } else if k == KeyCode::Esc {
        KeyCommand::BackToNormal
    } else {
        KeyCommand::Nothing
    }
}

/// Keys while naming a new list.
pub open spec fn new_list_binding(k: KeyCode) -> KeyCommand {
    match k {
        KeyCode::Char(c) => KeyCommand::NewListChar(c),
        KeyCode::Backspace => KeyCommand::NewListBackspace,
        KeyCode::Enter => KeyCommand::NewListSubmit,
        KeyCode::Esc => KeyCommand::NewListCancel,
        _ => KeyCommand::Nothing,
    }
}

/// Keys in the saved-lists viewer.
pub open spec fn viewer_binding(k: KeyCode) -> KeyCommand {
    if k == KeyCode::Left || is_char(k, 'h') {
        KeyCommand::ViewerFocusLists
    } else if k == KeyCode::Right || is_char(k, 'l') {
        KeyCommand::ViewerFocusArticles
    } else if k == KeyCode::Down || is_char(k, 'j') {
        KeyCommand::ViewerDown
    } else if k == KeyCode::Up || is_char(k, 'k') {
        KeyCommand::ViewerUp
    } else if k == KeyCode::Enter {
        KeyCommand::ViewerEnter
    } else if is_char(k, 'd') || k == KeyCode::Delete {
        KeyCommand::ViewerDelete
    } else if is_char(k, 'n') {
        KeyCommand::ViewerNewList
    } else if is_char(k, 'M') || k == KeyCode::Esc || is_char(k, 'q') {
        KeyCommand::BackToNormal
    } else {
        KeyCommand::Nothing
    }
}

/// Keys in the search box.
pub open spec fn search_binding(key: KeyEvent) -> KeyCommand {
    let k = key.code;
    if key.ctrl && (is_char(k, 'w') || is_char(k, 'h') || k == KeyCode::Backspace) {
        KeyCommand::SearchDeleteWord
    } else {
        match k {
            KeyCode::Char(c) => KeyCommand::SearchChar(c),
            KeyCode::Backspace => KeyCommand::SearchBackspace,
            KeyCode::Delete => KeyCommand::SearchDelete,
            KeyCode::Left => KeyCommand::SearchCursorLeft,
            KeyCode::Right => KeyCommand::SearchCursorRight,
            KeyCode::Home => KeyCommand::SearchCursorHome,
            KeyCode::End => KeyCommand::SearchCursorEnd,
            KeyCode::Enter => KeyCommand::SearchSubmit,
            KeyCode::Esc => KeyCommand::SearchExit,
            _ => KeyCommand::Nothing,
        }
    }
}

/// Keys while the discovery feed is shown.
pub open spec fn feed_binding(k: KeyCode) -> KeyCommand {
    if k == KeyCode::Esc || is_char(k, 'F') || is_char(k, 'q') {
        KeyCommand::FeedClose
    } else if is_char(k, 'j') || k == KeyCode::Down {
        KeyCommand::FeedNext
    } else if is_char(k, 'k') || k == KeyCode::Up {
        KeyCommand::FeedPrev
    } else if is_char(k, 'l') {
        KeyCommand::FeedToggleLike
    } else if k == KeyCode::Enter {
        KeyCommand::FeedOpen
    } else if is_char(k, 't') {
        KeyCommand::FeedOpenInNewTab
    } else {
        KeyCommand::Nothing
    }
}

/// Keys while the table of contents has the focus.
pub open spec fn toc_binding(k: KeyCode) -> KeyCommand {
    if k == KeyCode::Esc || is_char(k, 'o') {
        KeyCommand::TocToggle
    } else if is_char(k, 'j') || k == KeyCode::Down {
        KeyCommand::TocNext
    } else if is_char(k, 'k') || k == KeyCode::Up {
        KeyCommand::TocPrev
    } else if k == KeyCode::Enter {
        KeyCommand::TocActivate
    } else {
        KeyCommand::Nothing
    }
}

/// The key after `Ctrl-W`.
pub open spec fn split_binding(k: KeyCode) -> KeyCommand {
    if is_char(k, 'v') {
        KeyCommand::Split(SplitDirection::Vertical)
    } else if is_char(k, 's') {
        KeyCommand::Split(SplitDirection::Horizontal)
    } else {
        KeyCommand::SplitCancel
    }
}

/// Keys while reading; the first rule that fits wins.
pub open spec fn reading_binding(key: KeyEvent) -> KeyCommand {
    let k = key.code;
    if is_char(k, 'q') {
        KeyCommand::Quit
    } else if is_char(k, 'z') {
        KeyCommand::ToggleZen
    } else if is_char(k, 'F') {
        KeyCommand::ToggleFeed
    } else if is_char(k, 'r') {
        KeyCommand::RandomArticle
    } else if is_char(k, 'o') {
        KeyCommand::TocToggle
    } else if is_char(k, 'm') {
        KeyCommand::OpenSaveToList
    } else if is_char(k, 'M') {
        KeyCommand::OpenSavedLists
    } else if is_char(k, '?') {
        KeyCommand::ToggleHelp
    } else if is_char(k, '/') {
        KeyCommand::EnterLocalSearch
    } else if is_char(k, 'n') {
        KeyCommand::NextMatch
    } else if is_char(k, 'N') {
        KeyCommand::PrevMatch
    } else if is_char(k, ']') {
        KeyCommand::NextHeading
    } else if is_char(k, '[') {
        KeyCommand::PrevHeading
    } else if is_char(k, 'f') {
        KeyCommand::PageDown
    } else if is_char(k, 'b') {
        KeyCommand::PageUp
    } else if is_char(k, 'g') {
        KeyCommand::Top
    } else if is_char(k, 'G') {
        KeyCommand::Bottom
    } else if is_char(k, 's') && key.ctrl {
        KeyCommand::EnterSearch
    } else if is_char(k, 'i') {
        KeyCommand::EditSearch
    } else if is_char(k, 's') {
        KeyCommand::OpenInSplit(SplitDirection::Horizontal)
    } else if is_char(k, 'v') {
        KeyCommand::OpenInSplit(SplitDirection::Vertical)
    } else if is_char(k, 't') && key.alt {
        KeyCommand::NewTab
    } else if is_char(k, 'w') && key.ctrl {
        KeyCommand::AwaitSplit
    } else if is_char(k, 'h') && key.alt {
        KeyCommand::PrevTab
    } else if is_char(k, 'l') && key.alt {
        KeyCommand::NextTab
    } else if is_char(k, 'c') && key.alt {
        KeyCommand::ClosePane
    } else if (is_char(k, 'h') || is_char(k, 'l') || is_char(k, 'j') || is_char(k, 'k')) && key.ctrl {
        match k {
            KeyCode::Char(c) => KeyCommand::NavigatePane(c),
            _ => KeyCommand::Nothing,
        }
    } else if k == KeyCode::Tab {
        KeyCommand::FocusNextLink
    } else if k == KeyCode::BackTab {
        KeyCommand::FocusPrevLink
    } else if is_char(k, 'j') || k == KeyCode::Down {
        KeyCommand::SelectNext
    } else if is_char(k, 'k') || k == KeyCode::Up {
        KeyCommand::SelectPrev
    } else if is_char(k, 't') {
        KeyCommand::OpenInNewTab
    } else if k == KeyCode::Enter && key.alt {
        KeyCommand::OpenInNewTab
    } else if k == KeyCode::Enter {
        KeyCommand::Activate
    } else {
        KeyCommand::Nothing
    }
}

/// The command for a key press in a given state.
pub open spec fn key_binding(ctx: KeyContext, key: KeyEvent) -> KeyCommand {
    let k = key.code;
    match ctx.mode {
        InputMode::CategoryOnboarding => onboarding_binding(k),
        InputMode::SaveToList => save_list_binding(k),
        InputMode::CreateNewList => new_list_binding(k),
        InputMode::SavedListsViewer => viewer_binding(k),
        InputMode::ConfirmDelete => if is_char(k, 'y') || k == KeyCode::Enter {
            KeyCommand::ConfirmYes
        } else if is_char(k, 'n') || k == KeyCode::Esc {
            KeyCommand::ConfirmNo
        } else {
            KeyCommand::Nothing
        },
        InputMode::Help => if is_char(k, '?') || k == KeyCode::Esc || is_char(k, 'q') {
            KeyCommand::BackToNormal
        } else {
            KeyCommand::Nothing
        },
        InputMode::LocalSearch => match k {
            KeyCode::Char(c) => KeyCommand::LocalSearchChar(c),
            KeyCode::Backspace => KeyCommand::LocalSearchBackspace,
            KeyCode::Enter | KeyCode::Esc => KeyCommand::BackToNormal,
            _ => KeyCommand::Nothing,
        },
        InputMode::Search => search_binding(key),
        InputMode::Normal => if ctx.feed_active {
            feed_binding(k)
        } else if ctx.toc_focused {
            toc_binding(k)
        } else if ctx.waiting_for_split {
            split_binding(k)
        } else {
            reading_binding(key)
        },
    }
}

fn reading_command(key: KeyEvent) -> (r: KeyCommand)
    ensures
        r == reading_binding(key),
{
    match key.code {
        KeyCode::Char('q') => KeyCommand::Quit,
        KeyCode::Char('z') => KeyCommand::ToggleZen,
        KeyCode::Char('F') => KeyCommand::ToggleFeed,
        KeyCode::Char('r') => KeyCommand::RandomArticle,
        KeyCode::Char('o') => KeyCommand::TocToggle,
        KeyCode::Char('m') => KeyCommand::OpenSaveToList,
        KeyCode::Char('M') => KeyCommand::OpenSavedLists,
        KeyCode::Char('?') => KeyCommand::ToggleHelp,
        KeyCode::Char('/') => KeyCommand::EnterLocalSearch,
        KeyCode::Char('n') => KeyCommand::NextMatch,
        KeyCode::Char('N') => KeyCommand::PrevMatch,
        KeyCode::Char(']') => KeyCommand::NextHeading,
        KeyCode::Char('[') => KeyCommand::PrevHeading,
        KeyCode::Char('f') => KeyCommand::PageDown,
        KeyCode::Char('b') => KeyCommand::PageUp,
        KeyCode::Char('g') => KeyCommand::Top,
        KeyCode::Char('G') => KeyCommand::Bottom,
        KeyCode::Char('s') if key.ctrl => KeyCommand::EnterSearch,
        KeyCode::Char('i') => KeyCommand::EditSearch,
        KeyCode::Char('s') => KeyCommand::OpenInSplit(SplitDirection::Horizontal),
        KeyCode::Char('v') => KeyCommand::OpenInSplit(SplitDirection::Vertical),
        KeyCode::Char('t') if key.alt => KeyCommand::NewTab,
        KeyCode::Char('w') if key.ctrl => KeyCommand::AwaitSplit,
        KeyCode::Char('h') if key.alt => KeyCommand::PrevTab,
        KeyCode::Char('l') if key.alt => KeyCommand::NextTab,
        KeyCode::Char('c') if key.alt => KeyCommand::ClosePane,
        KeyCode::Char('h') if key.ctrl => KeyCommand::NavigatePane('h'),
        KeyCode::Char('l') if key.ctrl => KeyCommand::NavigatePane('l'),
        KeyCode::Char('j') if key.ctrl => KeyCommand::NavigatePane('j'),
        KeyCode::Char('k') if key.ctrl => KeyCommand::NavigatePane('k'),
        KeyCode::Tab => KeyCommand::FocusNextLink,
        KeyCode::BackTab => KeyCommand::FocusPrevLink,
        KeyCode::Char('j') | KeyCode::Down => KeyCommand::SelectNext,
        KeyCode::Char('k') | KeyCode::Up => KeyCommand::SelectPrev,
        KeyCode::Char('t') => KeyCommand::OpenInNewTab,
        KeyCode::Enter if key.alt => KeyCommand::OpenInNewTab,
        KeyCode::Enter => KeyCommand::Activate,
        _ => KeyCommand::Nothing,
    }
}

fn search_command(key: KeyEvent) -> (r: KeyCommand)
    ensures
        r == search_binding(key),
{
    if key.ctrl {
        match key.code {
            KeyCode::Char('w') | KeyCode::Char('h') | KeyCode::Backspace => {
                return KeyCommand::SearchDeleteWord;
            },
            _ => {},
        }
    }
    match key.code {
        KeyCode::Char(c) => KeyCommand::SearchChar(c),
        KeyCode::Backspace => KeyCommand::SearchBackspace,
        KeyCode::Delete => KeyCommand::SearchDelete,
        KeyCode::Left => KeyCommand::SearchCursorLeft,
        KeyCode::Right => KeyCommand::SearchCursorRight,
        KeyCode::Home => KeyCommand::SearchCursorHome,
        KeyCode::End => KeyCommand::SearchCursorEnd,
        KeyCode::Enter => KeyCommand::SearchSubmit,
        KeyCode::Esc => KeyCommand::SearchExit,
        _ => KeyCommand::Nothing,
    }
}

/// The command a key press asks for in the state `ctx`.
pub fn key_command(ctx: KeyContext, key: KeyEvent) -> (r: KeyCommand)
    ensures
        r == key_binding(ctx, key),
{
    match ctx.mode {
        InputMode::CategoryOnboarding => match key.code {
            KeyCode::Down | KeyCode::Char('j') | KeyCode::Tab => KeyCommand::OnboardingNext,
            KeyCode::Up | KeyCode::Char('k') | KeyCode::BackTab => KeyCommand::OnboardingPrev,
            KeyCode::Char(' ') => KeyCommand::OnboardingToggle,
            KeyCode::Enter => KeyCommand::OnboardingSubmit,
            KeyCode::Esc => KeyCommand::OnboardingCancel,
            _ => KeyCommand::Nothing,
        },
        InputMode::SaveToList => match key.code {
            KeyCode::Down | KeyCode::Char('j') | KeyCode::Tab => KeyCommand::SaveListNext,
            KeyCode::Up | KeyCode::Char('k') | KeyCode::BackTab => KeyCommand::SaveListPrev,
            KeyCode::Char(' ') | KeyCode::Enter => KeyCommand::SaveListActivate,
            KeyCode::Char('n') => KeyCommand::SaveListNew,
            KeyCode::Esc => KeyCommand::BackToNormal,
            _ => KeyCommand::Nothing,
        },
        InputMode::CreateNewList => match key.code {
            KeyCode::Char(c) => KeyCommand::NewListChar(c),
            KeyCode::Backspace => KeyCommand::NewListBackspace,
            KeyCode::Enter => KeyCommand::NewListSubmit,
            KeyCode::Esc => KeyCommand::NewListCancel,
            _ => KeyCommand::Nothing,
        },
        InputMode::SavedListsViewer => match key.code {
            KeyCode::Left | KeyCode::Char('h') => KeyCommand::ViewerFocusLists,
            KeyCode::Right | KeyCode::Char('l') => KeyCommand::ViewerFocusArticles,
            KeyCode::Down | KeyCode::Char('j') => KeyCommand::ViewerDown,
            KeyCode::Up | KeyCode::Char('k') => KeyCommand::ViewerUp,
            KeyCode::Enter => KeyCommand::ViewerEnter,
            KeyCode::Char('d') | KeyCode::Delete => KeyCommand::ViewerDelete,
            KeyCode::Char('n') => KeyCommand::ViewerNewList,
            KeyCode::Char('M') | KeyCode::Esc | KeyCode::Char('q') => KeyCommand::BackToNormal,
            _ => KeyCommand::Nothing,
        },
        InputMode::ConfirmDelete => match key.code {
            KeyCode::Char('y') | KeyCode::Enter => KeyCommand::ConfirmYes,
            KeyCode::Char('n') | KeyCode::Esc => KeyCommand::ConfirmNo,
            _ => KeyCommand::Nothing,
        },
        InputMode::Help => match key.code {
            KeyCode::Char('?') | KeyCode::Esc | KeyCode::Char('q') => KeyCommand::BackToNormal,
            _ => KeyCommand::Nothing,
        },
        InputMode::LocalSearch => match key.code {
            KeyCode::Char(c) => KeyCommand::LocalSearchChar(c),
            KeyCode::Backspace => KeyCommand::LocalSearchBackspace,
            KeyCode::Enter | KeyCode::Esc => KeyCommand::BackToNormal,
            _ => KeyCommand::Nothing,
        },
        InputMode::Search => search_command(key),
        InputMode::Normal => {
            if ctx.feed_active {
                match key.code {
                    KeyCode::Esc | KeyCode::Char('F') | KeyCode::Char('q') => KeyCommand::FeedClose,
                    KeyCode::Char('j') | KeyCode::Down => KeyCommand::FeedNext,
                    KeyCode::Char('k') | KeyCode::Up => KeyCommand::FeedPrev,
                    KeyCode::Char('l') => KeyCommand::FeedToggleLike,
                    KeyCode::Enter => KeyCommand::FeedOpen,
                    KeyCode::Char('t') => KeyCommand::FeedOpenInNewTab,
                    _ => KeyCommand::Nothing,
                }
            } else if ctx.toc_focused {
                match key.code {
                    KeyCode::Esc | KeyCode::Char('o') => KeyCommand::TocToggle,
                    KeyCode::Char('j') | KeyCode::Down => KeyCommand::TocNext,
                    KeyCode::Char('k') | KeyCode::Up => KeyCommand::TocPrev,
                    KeyCode::Enter => KeyCommand::TocActivate,
                    _ => KeyCommand::Nothing,
                }
            } else if ctx.waiting_for_split {
                match key.code {
                    KeyCode::Char('v') => KeyCommand::Split(SplitDirection::Vertical),
                    KeyCode::Char('s') => KeyCommand::Split(SplitDirection::Horizontal),
                    _ => KeyCommand::SplitCancel,
                }
            } else {
                reading_command(key)
            }
        },
    }
}

/// While reading, the arrow keys move as the vim keys do: Down and `j`
/// select the next line or result, Up and `k` the previous one (the arrows
/// whatever the modifiers; `j` and `k` without Ctrl, which moves between
/// panes).
pub proof fn arrows_move_like_vim_keys(ctx: KeyContext, ctrl: bool, alt: bool)
    requires
        ctx.mode == InputMode::Normal,
        !ctx.feed_active,
        !ctx.toc_focused,
        !ctx.waiting_for_split,
    ensures
        key_binding(ctx, KeyEvent { code: KeyCode::Down, ctrl, alt }) == KeyCommand::SelectNext,
        key_binding(ctx, KeyEvent { code: KeyCode::Up, ctrl, alt }) == KeyCommand::SelectPrev,
        key_binding(ctx, KeyEvent { code: KeyCode::Char('j'), ctrl: false, alt }) == KeyCommand::SelectNext,
        key_binding(ctx, KeyEvent { code: KeyCode::Char('k'), ctrl: false, alt }) == KeyCommand::SelectPrev,
{
}

} // verus!
