use wikid::app::lists_dialog::{ConfirmAction, ListsDialog};
use wikid::app::pane::{Pane, PaneContent, ParsedDocument};
use wikid::api::NetworkCommand;
use wikid::app::state::App;
use wikid::app::InputMode;
use wikid::keybinds::{KeyCode, KeyCommand, KeyEvent};
use wikid::saved_lists::SavedListsStore;

fn article(title: &str) -> Pane {
    let mut p = Pane::new(1);
    p.content = PaneContent::ArticleText {
        title: title.to_string(),
        raw_html: String::new(),
        parsed_doc: ParsedDocument { lines: vec![], links: vec![], headings: vec![], reference_targets: vec![], plain_text_lower: vec![] },
        last_width: 80,
        last_show_footnotes: false,
        last_heading_marker: false,
        last_code_line_numbers: false,
    };
    p
}

fn now() -> String {
    "2024-01-01 10:00".to_string()
}

#[test]
fn saving_an_article_to_lists() {
    let mut store = SavedListsStore::with_default_list(now());
    let mut d = ListsDialog::new();
    let mut mode = InputMode::Normal;
    assert!(!d.open_save_to_list_modal(&mut mode, &Pane::new(3)));
    assert_eq!(mode, InputMode::Normal);
    assert!(d.open_save_to_list_modal(&mut mode, &article("Cat")));
    assert_eq!(mode, InputMode::SaveToList);
    // the first row is "Read Later"
    d.save_list_step(&mut mode, &mut store, KeyCommand::SaveListActivate, now());
    assert_eq!(store.lists[0].articles.len(), 1);
    assert_eq!(store.lists[0].articles[0].title, "Cat");
    // again: taken out
    d.save_list_step(&mut mode, &mut store, KeyCommand::SaveListActivate, now());
    assert!(store.lists[0].articles.is_empty());
    // the last row names a new list
    d.save_list_step(&mut mode, &mut store, KeyCommand::SaveListNext, now());
    assert_eq!(d.modal.save_cursor_idx, 1);
    d.save_list_step(&mut mode, &mut store, KeyCommand::SaveListNext, now());
    assert_eq!(d.modal.save_cursor_idx, 0);
    d.save_list_step(&mut mode, &mut store, KeyCommand::SaveListPrev, now());
    assert_eq!(d.modal.save_cursor_idx, 1);
    d.save_list_step(&mut mode, &mut store, KeyCommand::SaveListActivate, now());
    assert_eq!(mode, InputMode::CreateNewList);
    for c in " Big Cats".chars() {
        d.create_list_step(&mut mode, &mut store, KeyCommand::NewListChar(c), now());
    }
    d.create_list_step(&mut mode, &mut store, KeyCommand::NewListChar('x'), now());
    d.create_list_step(&mut mode, &mut store, KeyCommand::NewListBackspace, now());
    assert_eq!(d.create_input, " Big Cats");
    d.create_list_step(&mut mode, &mut store, KeyCommand::NewListSubmit, now());
    assert_eq!(mode, InputMode::SaveToList);
    assert_eq!(d.create_input, "");
    assert_eq!(store.lists.len(), 2);
    assert_eq!(store.lists[1].id, "big_cats");
    assert_eq!(store.lists[1].name, "Big Cats");
    assert_eq!(store.lists[1].articles[0].title, "Cat");
    d.save_list_step(&mut mode, &mut store, KeyCommand::BackToNormal, now());
    assert_eq!(mode, InputMode::Normal);
}

#[test]
fn browsing_and_deleting() {
    let mut store = SavedListsStore::with_default_list(now());
    store.create_list("liked", "", now());
    store.toggle_article_in_list("read_later", "Cat", None, now());
    store.toggle_article_in_list("read_later", "Dog", None, now());
    store.toggle_article_in_list("liked", "Owl", None, now());
    let mut d = ListsDialog::new();
    let mut mode = InputMode::Normal;
    d.open_saved_lists_viewer(&mut mode);
    assert_eq!(mode, InputMode::SavedListsViewer);
    d.viewer_step(&mut mode, &store, KeyCommand::ViewerFocusArticles, true);
    assert!(d.modal.viewer_focus_right);
    d.viewer_step(&mut mode, &store, KeyCommand::ViewerDown, true);
    assert_eq!(d.modal.viewer_article_idx, 1);
    d.viewer_step(&mut mode, &store, KeyCommand::ViewerDelete, true);
    assert_eq!(mode, InputMode::ConfirmDelete);
    assert!(matches!(&d.confirm_action, Some(ConfirmAction::DeleteArticle { title, .. }) if title == "Dog"));
    d.confirm_step(&mut mode, &mut store, KeyCommand::ConfirmYes, now());
    assert_eq!(mode, InputMode::SavedListsViewer);
    assert_eq!(store.lists[0].articles.len(), 1);
    assert_eq!(d.modal.viewer_article_idx, 0);
    assert_eq!(d.viewer_step(&mut mode, &store, KeyCommand::ViewerEnter, true), Some("Cat".to_string()));
    assert_eq!(mode, InputMode::Normal);
    // the read-only "liked" list keeps its articles
    d.open_saved_lists_viewer(&mut mode);
    d.viewer_step(&mut mode, &store, KeyCommand::ViewerDown, true);
    assert_eq!(d.modal.viewer_list_idx, 1);
    d.viewer_step(&mut mode, &store, KeyCommand::ViewerDelete, true);
    assert_eq!(mode, InputMode::SavedListsViewer);
    d.viewer_step(&mut mode, &store, KeyCommand::ViewerFocusArticles, true);
    d.viewer_step(&mut mode, &store, KeyCommand::ViewerDelete, true);
    assert!(d.confirm_action.is_none());
    // deleting a list, then dropping a second request
    d.viewer_step(&mut mode, &store, KeyCommand::ViewerFocusLists, true);
    d.viewer_step(&mut mode, &store, KeyCommand::ViewerUp, true);
    assert_eq!(d.modal.viewer_list_idx, 0);
    d.viewer_step(&mut mode, &store, KeyCommand::ViewerDelete, true);
    d.confirm_step(&mut mode, &mut store, KeyCommand::ConfirmYes, now());
    assert_eq!(store.lists.len(), 1);
    assert_eq!(store.lists[0].id, "liked");
    d.viewer_step(&mut mode, &store, KeyCommand::ViewerNewList, true);
    assert_eq!(mode, InputMode::CreateNewList);
    d.create_list_step(&mut mode, &mut store, KeyCommand::NewListCancel, now());
    assert_eq!(mode, InputMode::SavedListsViewer);
}

fn press(code: KeyCode) -> KeyEvent {
    KeyEvent { code, ctrl: false, alt: false }
}

#[test]
fn keys_in_the_list_dialogs() {
    let mut store = SavedListsStore::with_default_list(now());
    store.create_list("Cats", "", now());
    let mut d = ListsDialog::new();
    let mut mode = InputMode::Normal;
    // in normal mode the dialog takes no keys
    assert_eq!(d.handle_lists_key(&mut mode, &mut store, press(KeyCode::Char('j')), now(), true), None);
    assert_eq!(d.modal.save_cursor_idx, 0);
    d.open_save_to_list_modal(&mut mode, &article("Owl"));
    // two lists and "new list": three rows
    d.handle_lists_key(&mut mode, &mut store, press(KeyCode::Down), now(), true);
    d.handle_lists_key(&mut mode, &mut store, press(KeyCode::Char('j')), now(), true);
    assert_eq!(d.modal.save_cursor_idx, 2);
    d.handle_lists_key(&mut mode, &mut store, press(KeyCode::Tab), now(), true);
    assert_eq!(d.modal.save_cursor_idx, 0);
    d.handle_lists_key(&mut mode, &mut store, press(KeyCode::Up), now(), true);
    assert_eq!(d.modal.save_cursor_idx, 2);
    d.handle_lists_key(&mut mode, &mut store, press(KeyCode::Char('k')), now(), true);
    assert_eq!(d.modal.save_cursor_idx, 1);
    d.handle_lists_key(&mut mode, &mut store, press(KeyCode::Enter), now(), true);
    assert_eq!(store.lists[1].articles[0].title, "Owl");
    assert_eq!(mode, InputMode::SaveToList);
    d.handle_lists_key(&mut mode, &mut store, press(KeyCode::Esc), now(), true);
    assert_eq!(mode, InputMode::Normal);
    d.open_saved_lists_viewer(&mut mode);
    d.handle_lists_key(&mut mode, &mut store, press(KeyCode::Char('j')), now(), true);
    d.handle_lists_key(&mut mode, &mut store, press(KeyCode::Char('l')), now(), true);
    let opened = d.handle_lists_key(&mut mode, &mut store, press(KeyCode::Enter), now(), true);
    assert_eq!(opened, Some("Owl".to_string()));
    assert_eq!(mode, InputMode::Normal);
}

#[test]
fn toggling_twice_keeps_the_titles() {
    let mut store = SavedListsStore::with_default_list(now());
    store.toggle_article_in_list("read_later", "Cat", None, now());
    store.toggle_article_in_list("read_later", "Dog", None, now());
    assert!(!store.toggle_article_in_list("read_later", " Cat ", None, now()));
    assert!(store.toggle_article_in_list("read_later", "Cat", None, now()));
    let titles: Vec<&str> = store.lists[0].articles.iter().map(|a| a.title.as_str()).collect();
    assert_eq!(titles, vec!["Dog", "Cat"]);
    assert!(!store.toggle_article_in_list("nowhere", "Cat", None, now()));
    assert!(!store.toggle_article_in_list("read_later", "  ", None, now()));
    assert_eq!(store.lists[0].articles.len(), 2);
}

#[test]
fn the_reader_hands_keys_to_open_dialogs() {
    let mut app = App::new();
    let mut store = SavedListsStore::with_default_list(now());
    store.create_list("Cats", "", now());
    let mut d = ListsDialog::new();
    // no dialog open: the reader takes the key
    let out = app.handle_key_event_with_lists(&mut d, &mut store, press(KeyCode::Char('z')), 40, now(), true);
    assert_eq!(out.command, KeyCommand::ToggleZen);
    assert!(app.zen_mode);
    d.open_save_to_list_modal(&mut app.input_mode, &article("Owl"));
    assert_eq!(app.input_mode, InputMode::SaveToList);
    // two lists and "new list": the cursor wraps over three rows
    for k in [KeyCode::Down, KeyCode::Char('j'), KeyCode::Tab] {
        let out = app.handle_key_event_with_lists(&mut d, &mut store, press(k), 40, now(), true);
        assert_eq!(out.command, KeyCommand::SaveListNext);
    }
    assert_eq!(d.modal.save_cursor_idx, 0);
    app.handle_key_event_with_lists(&mut d, &mut store, press(KeyCode::BackTab), 40, now(), true);
    assert_eq!(d.modal.save_cursor_idx, 2);
    assert_eq!(app.input_mode, InputMode::SaveToList);
    assert!(app.zen_mode);
    app.handle_key_event_with_lists(&mut d, &mut store, press(KeyCode::Char('k')), 40, now(), true);
    app.handle_key_event_with_lists(&mut d, &mut store, press(KeyCode::Enter), 40, now(), true);
    assert_eq!(store.lists[1].articles[0].title, "Owl");
    app.handle_key_event_with_lists(&mut d, &mut store, press(KeyCode::Esc), 40, now(), true);
    assert_eq!(app.input_mode, InputMode::Normal);
    // an article picked in the viewer opens in the active pane
    d.open_saved_lists_viewer(&mut app.input_mode);
    app.handle_key_event_with_lists(&mut d, &mut store, press(KeyCode::Char('j')), 40, now(), true);
    app.handle_key_event_with_lists(&mut d, &mut store, press(KeyCode::Char('l')), 40, now(), true);
    app.handle_key_event_with_lists(&mut d, &mut store, press(KeyCode::Enter), 40, now(), true);
    assert_eq!(app.input_mode, InputMode::Normal);
    match app.outbox.last() {
        Some(NetworkCommand::FetchArticle { title, .. }) => assert_eq!(title, "Owl"),
        _ => panic!("nothing opened"),
    }
}
