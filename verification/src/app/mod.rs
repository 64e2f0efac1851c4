//! The reader's state: tabs of panes, the input modes, and what each reader
//! action does to them.
use vstd::prelude::*;

pub mod daily_feed;
pub mod events;
pub mod history;
pub mod keys;
pub mod layout;
pub mod links;
pub mod lists_dialog;
pub mod lists_modal;
pub mod navigation;
pub mod pane;
pub mod recent;
pub mod search;
pub mod state;

pub use pane::{LocalMatch, Pane, PaneContent, ParsedDocument, TextSelection};

verus! {

/// Where key presses go.
#[derive(Debug, Clone, Copy, PartialEq, Eq, Structural)]
pub enum InputMode {
    Normal,
    Search,
    LocalSearch,
    Help,
    SaveToList,
    CreateNewList,
    SavedListsViewer,
    ConfirmDelete,
    CategoryOnboarding,
}

} // verus!
