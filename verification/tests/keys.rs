use wikid::app::daily_feed::{daily_feed_step, DailyFeedAction, DailyFeedCursor};
use wikid::app::keys::KeyOutcome;
use wikid::app::layout::LayoutNode;
use wikid::app::pane::{PaneContent, ParsedDocument};
use wikid::app::state::App;
use wikid::app::InputMode;
use wikid::api::{NetworkCommand, SearchResultItem};
use wikid::keybinds::{key_command, KeyCode, KeyCommand, KeyContext, KeyEvent, SplitDirection};
use wikid::parser::document::ReadOptions;
use wikid::parser::types::Link;

fn key(c: char) -> KeyEvent {
    KeyEvent { code: KeyCode::Char(c), ctrl: false, alt: false }
}
fn ctrl(c: char) -> KeyEvent {
    KeyEvent { code: KeyCode::Char(c), ctrl: true, alt: false }
}
fn alt(c: char) -> KeyEvent {
    KeyEvent { code: KeyCode::Char(c), ctrl: false, alt: true }
}
fn code(k: KeyCode) -> KeyEvent {
    KeyEvent { code: k, ctrl: false, alt: false }
}
fn reading() -> KeyContext {
    KeyContext { mode: InputMode::Normal, feed_active: false, toc_focused: false, waiting_for_split: false }
}

#[test]
fn readme_keybindings() {
    let r = reading();
    assert_eq!(key_command(r, key('j')), KeyCommand::SelectNext);
    assert_eq!(key_command(r, key('k')), KeyCommand::SelectPrev);
    assert_eq!(key_command(r, key('f')), KeyCommand::PageDown);
    assert_eq!(key_command(r, key('b')), KeyCommand::PageUp);
    assert_eq!(key_command(r, key('g')), KeyCommand::Top);
    assert_eq!(key_command(r, key('G')), KeyCommand::Bottom);
    assert_eq!(key_command(r, ctrl('s')), KeyCommand::EnterSearch);
    assert_eq!(key_command(r, key('i')), KeyCommand::EditSearch);
    assert_eq!(key_command(r, key('/')), KeyCommand::EnterLocalSearch);
    assert_eq!(key_command(r, key('n')), KeyCommand::NextMatch);
    assert_eq!(key_command(r, key('N')), KeyCommand::PrevMatch);
    assert_eq!(key_command(r, key('o')), KeyCommand::TocToggle);
    assert_eq!(key_command(r, key('z')), KeyCommand::ToggleZen);
    assert_eq!(key_command(r, key('r')), KeyCommand::RandomArticle);
    assert_eq!(key_command(r, key(']')), KeyCommand::NextHeading);
    assert_eq!(key_command(r, key('[')), KeyCommand::PrevHeading);
    assert_eq!(key_command(r, code(KeyCode::Tab)), KeyCommand::FocusNextLink);
    assert_eq!(key_command(r, code(KeyCode::BackTab)), KeyCommand::FocusPrevLink);
    assert_eq!(key_command(r, code(KeyCode::Enter)), KeyCommand::Activate);
    assert_eq!(key_command(r, key('t')), KeyCommand::OpenInNewTab);
    assert_eq!(key_command(r, KeyEvent { code: KeyCode::Enter, ctrl: false, alt: true }), KeyCommand::OpenInNewTab);
    assert_eq!(key_command(r, key('s')), KeyCommand::OpenInSplit(SplitDirection::Horizontal));
    assert_eq!(key_command(r, key('v')), KeyCommand::OpenInSplit(SplitDirection::Vertical));
    assert_eq!(key_command(r, ctrl('w')), KeyCommand::AwaitSplit);
    assert_eq!(key_command(r, ctrl('h')), KeyCommand::NavigatePane('h'));
    assert_eq!(key_command(r, ctrl('j')), KeyCommand::NavigatePane('j'));
    assert_eq!(key_command(r, alt('c')), KeyCommand::ClosePane);
    assert_eq!(key_command(r, alt('t')), KeyCommand::NewTab);
    assert_eq!(key_command(r, alt('h')), KeyCommand::PrevTab);
    assert_eq!(key_command(r, alt('l')), KeyCommand::NextTab);
    assert_eq!(key_command(r, key('?')), KeyCommand::ToggleHelp);
    assert_eq!(key_command(r, key('q')), KeyCommand::Quit);
    assert_eq!(key_command(r, code(KeyCode::Down)), KeyCommand::SelectNext);
    assert_eq!(key_command(r, key('x')), KeyCommand::Nothing);
}

#[test]
fn keys_in_other_states() {
    let split = KeyContext { waiting_for_split: true, ..reading() };
    assert_eq!(key_command(split, key('s')), KeyCommand::Split(SplitDirection::Horizontal));
    assert_eq!(key_command(split, key('v')), KeyCommand::Split(SplitDirection::Vertical));
    assert_eq!(key_command(split, key('j')), KeyCommand::SplitCancel);
    let toc = KeyContext { toc_focused: true, ..reading() };
    assert_eq!(key_command(toc, key('j')), KeyCommand::TocNext);
    assert_eq!(key_command(toc, code(KeyCode::Esc)), KeyCommand::TocToggle);
    assert_eq!(key_command(toc, code(KeyCode::Enter)), KeyCommand::TocActivate);
    let feed = KeyContext { feed_active: true, ..reading() };
    assert_eq!(key_command(feed, key('q')), KeyCommand::FeedClose);
    assert_eq!(key_command(feed, key('l')), KeyCommand::FeedToggleLike);
    assert_eq!(key_command(feed, key('t')), KeyCommand::FeedOpenInNewTab);
    let search = KeyContext { mode: InputMode::Search, ..reading() };
    assert_eq!(key_command(search, key('q')), KeyCommand::SearchChar('q'));
    assert_eq!(key_command(search, ctrl('w')), KeyCommand::SearchDeleteWord);
    assert_eq!(key_command(search, KeyEvent { code: KeyCode::Backspace, ctrl: true, alt: false }), KeyCommand::SearchDeleteWord);
    assert_eq!(key_command(search, code(KeyCode::Home)), KeyCommand::SearchCursorHome);
    assert_eq!(key_command(search, code(KeyCode::Esc)), KeyCommand::SearchExit);
    let help = KeyContext { mode: InputMode::Help, ..reading() };
    assert_eq!(key_command(help, key('?')), KeyCommand::BackToNormal);
    assert_eq!(key_command(help, key('j')), KeyCommand::Nothing);
    let local = KeyContext { mode: InputMode::LocalSearch, ..reading() };
    assert_eq!(key_command(local, key('a')), KeyCommand::LocalSearchChar('a'));
    assert_eq!(key_command(local, code(KeyCode::Enter)), KeyCommand::BackToNormal);
    let viewer = KeyContext { mode: InputMode::SavedListsViewer, ..reading() };
    assert_eq!(key_command(viewer, key('d')), KeyCommand::ViewerDelete);
    assert_eq!(key_command(viewer, key('M')), KeyCommand::BackToNormal);
    let confirm = KeyContext { mode: InputMode::ConfirmDelete, ..reading() };
    assert_eq!(key_command(confirm, key('y')), KeyCommand::ConfirmYes);
    assert_eq!(key_command(confirm, code(KeyCode::Esc)), KeyCommand::ConfirmNo);
    let save = KeyContext { mode: InputMode::SaveToList, ..reading() };
    assert_eq!(key_command(save, key(' ')), KeyCommand::SaveListActivate);
    let newlist = KeyContext { mode: InputMode::CreateNewList, ..reading() };
    assert_eq!(key_command(newlist, key('x')), KeyCommand::NewListChar('x'));
    let onboard = KeyContext { mode: InputMode::CategoryOnboarding, ..reading() };
    assert_eq!(key_command(onboard, code(KeyCode::Tab)), KeyCommand::OnboardingNext);
}

fn press(app: &mut App, k: KeyEvent) -> KeyOutcome {
    app.handle_key_event(k, 40)
}

#[test]
fn searching_from_the_keyboard() {
    let mut app = App::new();
    assert_eq!(press(&mut app, ctrl('s')).command, KeyCommand::EnterSearch);
    assert_eq!(app.input_mode, InputMode::Search);
    for c in " rust ".chars() {
        press(&mut app, key(c));
    }
    press(&mut app, code(KeyCode::Left));
    press(&mut app, code(KeyCode::Backspace));
    assert_eq!(app.search.text, " rus ");
    press(&mut app, code(KeyCode::Enter));
    assert_eq!(app.input_mode, InputMode::Normal);
    assert_eq!(app.tabs.len(), 1);
    assert!(matches!(app.outbox.last(), Some(NetworkCommand::Search { pane_id: 0, query, .. }) if query == "rus"));
    assert!(app.tabs[0].panes[0].is_loading);

    app.show_search_results(0, "rus".to_string(), vec![SearchResultItem { title: "Rust".to_string(), snippet: String::new() }]);
    assert!(!app.tabs[0].panes[0].is_loading);
    press(&mut app, ctrl('s'));
    for c in "cats".chars() {
        press(&mut app, key(c));
    }
    press(&mut app, code(KeyCode::Enter));
    assert_eq!(app.tabs.len(), 2);
    assert_eq!(app.active_tab_idx, 1);
    assert!(matches!(app.outbox.last(), Some(NetworkCommand::Search { pane_id: 1, query, .. }) if query == "cats"));

    app.prev_tab();
    press(&mut app, key('i'));
    assert_eq!(app.search.text, "rus");
    assert_eq!(app.search.cursor, 3);
    press(&mut app, code(KeyCode::Esc));
    assert_eq!(app.input_mode, InputMode::Normal);
    assert_eq!(app.search.text, "");
}

#[test]
fn tabs_panes_and_modes() {
    let mut app = App::new();
    press(&mut app, alt('t'));
    assert_eq!(app.tabs.len(), 2);
    assert_eq!(app.tabs[1].name, "new tab");
    assert_eq!(app.tabs[1].panes[0].id, 1);
    press(&mut app, alt('l'));
    assert_eq!(app.active_tab_idx, 0);
    press(&mut app, alt('h'));
    assert_eq!(app.active_tab_idx, 1);
    press(&mut app, ctrl('w'));
    assert!(app.waiting_for_split_cmd);
    assert_eq!(press(&mut app, key('v')).command, KeyCommand::Split(SplitDirection::Vertical));
    assert!(!app.waiting_for_split_cmd);
    assert_eq!(app.tabs[1].panes.len(), 2);
    assert_eq!(app.tabs[1].active_pane_idx, 1);
    assert!(is_split(&app.tabs[1].layout_root, SplitDirection::Vertical, 0, 1));
    press(&mut app, alt('c'));
    assert_eq!(app.tabs[1].panes.len(), 1);
    assert!(matches!(app.tabs[1].layout_root, LayoutNode::Leaf(0)));
    press(&mut app, alt('c'));
    assert_eq!(app.tabs.len(), 1);
    press(&mut app, alt('c'));
    assert_eq!(app.tabs.len(), 1);
    assert_eq!(app.tabs[0].name, "home");
    press(&mut app, key('?'));
    assert_eq!(app.input_mode, InputMode::Help);
    press(&mut app, key('q'));
    assert_eq!(app.input_mode, InputMode::Normal);
    assert!(app.running);
    press(&mut app, key('z'));
    assert!(app.zen_mode);
    assert_eq!(press(&mut app, key('M')).command, KeyCommand::OpenSavedLists);
    press(&mut app, key('q'));
    assert!(!app.running);
}

#[test]
fn reading_an_article_from_the_keyboard() {
    let mut app = App::new();
    let doc = ParsedDocument {
        lines: (0..50).map(|i| vec![format!("row {}", i)]).collect(),
        links: vec![Link { title: "Dog".to_string(), text: "dog".to_string(), span_indices: vec![(30, 0)] }],
        headings: vec![],
        reference_targets: vec![],
        plain_text_lower: vec![],
    };
    let o = ReadOptions { max_width: 80, show_footnotes: false, heading_marker: false, code_line_numbers: false };
    app.show_article(0, "Cat".to_string(), "<p>cat</p>".to_string(), doc, o);
    assert_eq!(app.tabs[0].panes[0].selected_link_idx, Some(0));
    app.tabs[0].panes[0].viewport_height = 10;
    press(&mut app, key('j'));
    assert_eq!(app.tabs[0].panes[0].scroll_offset, 1);
    press(&mut app, key('/'));
    assert_eq!(app.input_mode, InputMode::LocalSearch);
    for c in "row 3".chars() {
        press(&mut app, key(c));
    }
    assert_eq!(app.tabs[0].panes[0].local_matches.len(), 11);
    press(&mut app, code(KeyCode::Backspace));
    assert_eq!(app.tabs[0].panes[0].local_search_query, "row ");
    press(&mut app, code(KeyCode::Enter));
    assert_eq!(app.input_mode, InputMode::Normal);
    app.tabs[0].panes[0].selected_link_idx = Some(0);
    let out = press(&mut app, code(KeyCode::Enter));
    assert!(matches!(out.activation, Some(wikid::app::links::Activation::Follow(ref t)) if t == "Dog"));
    app.open_article("Dog");
    assert!(matches!(app.outbox.last(), Some(NetworkCommand::FetchArticle { pane_id: 0, title, .. }) if title == "Dog"));
    assert_eq!(app.tabs[0].panes[0].history_back, vec!["Cat".to_string()]);
    app.show_error(0, "boom".to_string());
    assert!(matches!(app.tabs[0].panes[0].content, PaneContent::Error(ref m) if m == "boom"));
    app.show_error(99, "ignored".to_string());
    press(&mut app, key('r'));
    assert_eq!(app.tabs.len(), 2);
    assert_eq!(app.tabs[1].name, "loading...");
    assert!(matches!(app.outbox.last(), Some(NetworkCommand::FetchRandomArticle { pane_id: 1, .. })));
    let n = app.outbox.len();
    press(&mut app, key('r'));
    assert_eq!(app.outbox.len(), n);
}

#[test]
fn daily_feed_cursor_moves_and_opens() {
    let entries: Vec<String> = vec!["Alpha".to_string(), "Beta".to_string(), String::new()];
    let none: Vec<String> = Vec::new();
    let mut m = DailyFeedCursor { cursor_idx: 0, link_idx: 2 };
    // down moves and resets the link cursor; it stops at the last entry
    assert_eq!(daily_feed_step(&mut m, false, &entries, &none, key('j')), DailyFeedAction::Stay);
    assert_eq!(m, DailyFeedCursor { cursor_idx: 1, link_idx: 0 });
    daily_feed_step(&mut m, false, &entries, &none, code(KeyCode::Down));
    daily_feed_step(&mut m, false, &entries, &none, key('j'));
    assert_eq!(m.cursor_idx, 2);
    daily_feed_step(&mut m, false, &entries, &none, key('g'));
    assert_eq!(m.cursor_idx, 0);
    daily_feed_step(&mut m, false, &entries, &none, code(KeyCode::Up));
    assert_eq!(m.cursor_idx, 0);
    daily_feed_step(&mut m, false, &entries, &none, key('G'));
    assert_eq!(m.cursor_idx, 2);
    // an entry without an article opens nothing
    assert_eq!(daily_feed_step(&mut m, false, &entries, &none, code(KeyCode::Enter)), DailyFeedAction::Stay);
    daily_feed_step(&mut m, false, &entries, &none, key('k'));
    assert_eq!(
        daily_feed_step(&mut m, false, &entries, &none, code(KeyCode::Enter)),
        DailyFeedAction::Open("Beta".to_string())
    );
    assert_eq!(
        daily_feed_step(&mut m, false, &entries, &none, key('t')),
        DailyFeedAction::OpenInNewTab("Beta".to_string())
    );
    // links only move in the news
    daily_feed_step(&mut m, false, &entries, &none, code(KeyCode::Tab));
    assert_eq!(m.link_idx, 0);
    assert_eq!(daily_feed_step(&mut m, false, &entries, &none, key('q')), DailyFeedAction::Close);
    let mut empty = DailyFeedCursor { cursor_idx: 0, link_idx: 0 };
    daily_feed_step(&mut empty, false, &none, &none, key('G'));
    assert_eq!(empty, DailyFeedCursor { cursor_idx: 0, link_idx: 0 });
}

#[test]
fn daily_feed_news_links_wrap() {
    let entries: Vec<String> = vec!["Story".to_string()];
    let links: Vec<String> = vec!["First".to_string(), "Second".to_string(), "Third".to_string()];
    let mut m = DailyFeedCursor { cursor_idx: 0, link_idx: 0 };
    daily_feed_step(&mut m, true, &entries, &links, code(KeyCode::BackTab));
    assert_eq!(m.link_idx, 2);
    daily_feed_step(&mut m, true, &entries, &links, key('l'));
    assert_eq!(m.link_idx, 0);
    daily_feed_step(&mut m, true, &entries, &links, code(KeyCode::Right));
    assert_eq!(
        daily_feed_step(&mut m, true, &entries, &links, code(KeyCode::Enter)),
        DailyFeedAction::Open("Second".to_string())
    );
    // a link cursor past the end falls back to the first link
    let mut past = DailyFeedCursor { cursor_idx: 0, link_idx: 7 };
    assert_eq!(
        daily_feed_step(&mut past, true, &entries, &links, code(KeyCode::Enter)),
        DailyFeedAction::Open("First".to_string())
    );
    // a story without links opens the entry's article
    let none: Vec<String> = Vec::new();
    assert_eq!(
        daily_feed_step(&mut past, true, &entries, &none, key('t')),
        DailyFeedAction::OpenInNewTab("Story".to_string())
    );
}

fn is_split(n: &LayoutNode, d: SplitDirection, a: usize, b: usize) -> bool {
    match n {
        LayoutNode::Split { direction, first, second } => {
            *direction == d
                && matches!(**first, LayoutNode::Leaf(x) if x == a)
                && matches!(**second, LayoutNode::Leaf(y) if y == b)
        },
        _ => false,
    }
}

#[test]
fn splits_keep_their_direction() {
    let mut app = App::new();
    press(&mut app, ctrl('w'));
    press(&mut app, key('s'));
    assert!(is_split(&app.tabs[0].layout_root, SplitDirection::Horizontal, 0, 1));
    press(&mut app, ctrl('w'));
    press(&mut app, key('v'));
    match &app.tabs[0].layout_root {
        LayoutNode::Split { direction, first, second } => {
            assert_eq!(*direction, SplitDirection::Horizontal);
            assert!(matches!(**first, LayoutNode::Leaf(0)));
            assert!(is_split(second, SplitDirection::Vertical, 1, 2));
        },
        _ => panic!("no split"),
    }
    // closing the middle pane moves the last one down into its place
    app.tabs[0].active_pane_idx = 1;
    press(&mut app, alt('c'));
    assert_eq!(app.tabs[0].panes.len(), 2);
    assert_eq!(app.tabs[0].active_pane_idx, 1);
    assert_eq!(app.tabs[0].panes[1].id, 2);
    assert!(is_split(&app.tabs[0].layout_root, SplitDirection::Horizontal, 0, 1));
}
