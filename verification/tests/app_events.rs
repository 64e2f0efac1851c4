use wikid::api::{NetworkCommand, NetworkEvent, SearchResultItem};
use wikid::app::pane::{Pane, PaneContent, ParsedDocument};
use wikid::app::state::App;
use wikid::app::layout::LayoutNode;
use wikid::app::InputMode;
use wikid::keybinds::SplitDirection;
use wikid::clipboard::{copy_to_clipboard, ClipboardStep};
use wikid::feed::algorithm::FeedItem;
use wikid::graphics::cache::{get_cached_image_path, image_cache_path};
use wikid::mouse::Rect;
use wikid::parser::document::ReadOptions;

fn options(width: usize) -> ReadOptions {
    ReadOptions { max_width: width, show_footnotes: false, heading_marker: false, code_line_numbers: false }
}

fn words(n: usize) -> String {
    let mut s = String::from("<p>");
    for i in 0..n {
        s.push_str(&format!("word{} ", i));
    }
    s.push_str("</p>");
    s
}

fn article_pane(html: &str, width: usize) -> Pane {
    let mut p = Pane::new(4);
    p.viewport_height = 10;
    let doc = wikid::parser::document::parse_wikipedia_html(html, options(width));
    p.content = PaneContent::ArticleText {
        title: "Cat".to_string(),
        raw_html: html.to_string(),
        parsed_doc: doc,
        last_width: width,
        last_show_footnotes: false,
        last_heading_marker: false,
        last_code_line_numbers: false,
    };
    p
}

fn line_count(p: &Pane) -> usize {
    match &p.content {
        PaneContent::ArticleText { parsed_doc, .. } => parsed_doc.lines.len(),
        _ => 0,
    }
}

fn active(app: &App) -> &Pane {
    let t = &app.tabs[app.active_tab_idx];
    &t.panes[t.active_pane_idx]
}

#[test]
fn search_results_arrive_in_their_pane() {
    let mut app = App::new();
    let mut recent: Vec<String> = Vec::new();
    let items = vec![
        SearchResultItem { title: "Cat".to_string(), snippet: "a cat".to_string() },
        SearchResultItem { title: "Catfish".to_string(), snippet: String::new() },
    ];
    let r = app.handle_network_event(
        NetworkEvent::SearchResult { request_id: 0, pane_id: 0, query: "cat".to_string(), results: items },
        options(80),
        &mut recent,
    );
    assert!(r.is_none());
    assert!(recent.is_empty());
    match &active(&app).content {
        PaneContent::SearchResults { query, items } => {
            assert_eq!(query, "cat");
            assert_eq!(items.len(), 2);
            assert_eq!(items[1].title, "Catfish");
        },
        _ => panic!("no results shown"),
    }
    assert!(!active(&app).is_loading);
    // results for a pane that is gone change nothing
    let r = app.handle_network_event(
        NetworkEvent::SearchResult { request_id: 0, pane_id: 99, query: "dog".to_string(), results: vec![] },
        options(80),
        &mut recent,
    );
    assert!(r.is_none());
    match &active(&app).content {
        PaneContent::SearchResults { query, .. } => assert_eq!(query, "cat"),
        _ => panic!("results lost"),
    }
}

#[test]
fn an_article_arrives_laid_out_and_is_recorded() {
    let mut app = App::new();
    let mut recent: Vec<String> = vec!["Dog".to_string()];
    let r = app.handle_network_event(
        NetworkEvent::ArticleResult { request_id: 0, pane_id: 0, title: "Cat".to_string(), content: "<p>The cat sat.</p>".to_string() },
        options(120),
        &mut recent,
    );
    assert!(r.is_none());
    assert_eq!(recent, vec!["Cat".to_string(), "Dog".to_string()]);
    match &active(&app).content {
        PaneContent::ArticleText { title, parsed_doc, last_width, .. } => {
            assert_eq!(title, "Cat");
            // an article is first laid out 80 columns wide
            assert_eq!(*last_width, 80);
            assert_eq!(parsed_doc.lines[0].concat(), "The cat sat.");
        },
        _ => panic!("no article shown"),
    }
}

#[test]
fn errors_and_feed_batches() {
    let mut app = App::new();
    let mut recent: Vec<String> = Vec::new();
    let r = app.handle_network_event(
        NetworkEvent::Error { request_id: 0, pane_id: 0, message: "offline".to_string() },
        options(80),
        &mut recent,
    );
    assert!(r.is_none());
    assert!(!active(&app).is_loading);
    let batch = vec![FeedItem {
        title: "Cat".to_string(),
        short_description: None,
        snippet: "s".to_string(),
        categories: vec![],
        is_liked: false,
    }];
    let r = app.handle_network_event(NetworkEvent::FeedBatchLoaded { items: batch }, options(80), &mut recent);
    assert_eq!(r.map(|v| v.len()), Some(1));
}

#[test]
fn relayout_when_the_width_changes() {
    let html = words(30);
    let mut p = article_pane(&html, 80);
    let wide = line_count(&p);
    p.selected_link_idx = Some(3);
    p.ensure_parsed_width(options(80));
    assert_eq!(line_count(&p), wide);
    assert_eq!(p.selected_link_idx, Some(3));
    p.ensure_parsed_width(options(20));
    assert!(line_count(&p) > wide);
    match &p.content {
        PaneContent::ArticleText { last_width, .. } => assert_eq!(*last_width, 20),
        _ => panic!("article lost"),
    }
    // there are no links, so no focus survives
    assert_eq!(p.selected_link_idx, None);
    // the same settings a second time change nothing
    let narrow = line_count(&p);
    p.ensure_parsed_width(options(20));
    assert_eq!(line_count(&p), narrow);
    assert_eq!(p.selected_link_idx, None);
}

#[test]
fn matches_are_found_again_after_relayout() {
    let html = words(30);
    let mut p = article_pane(&html, 80);
    p.local_search_query = "WORD2".to_string();
    p.selected_match_idx = Some(50);
    p.recompute_local_matches();
    // word2 and word20 to word29
    assert_eq!(p.local_matches.len(), 11);
    assert_eq!(p.selected_match_idx, Some(10));
    p.local_search_query = "   ".to_string();
    p.recompute_local_matches();
    assert!(p.local_matches.is_empty());
    assert_eq!(p.selected_match_idx, None);
}

#[test]
fn search_box_methods() {
    let mut app = App::new();
    app.type_search_char('x');
    assert_eq!(app.search.text, "");
    app.input_mode = InputMode::Search;
    for c in "big cat".chars() {
        app.type_search_char(c);
    }
    assert_eq!(app.search.text, "big cat");
    app.move_search_cursor_left();
    app.move_search_cursor_left();
    app.backspace_search_char();
    assert_eq!(app.search.text, "big at");
    assert_eq!(app.search.cursor, 4);
    app.delete_search_char();
    assert_eq!(app.search.text, "big t");
    app.move_search_cursor_home();
    assert_eq!(app.search.cursor, 0);
    app.move_search_cursor_right();
    assert_eq!(app.search.cursor, 1);
    app.move_search_cursor_end();
    assert_eq!(app.search.cursor, 5);
    app.type_search_char(' ');
    app.type_search_char('x');
    app.delete_word_left();
    assert_eq!(app.search.text, "big t ");
    assert_eq!(app.search.cursor, 6);
}

#[test]
fn zen_and_help_toggle() {
    let mut app = App::new();
    app.toggle_zen_mode();
    assert!(app.zen_mode);
    app.toggle_zen_mode();
    assert!(!app.zen_mode);
    app.toggle_help_popup();
    assert_eq!(app.input_mode, InputMode::Help);
    app.toggle_help_popup();
    assert_eq!(app.input_mode, InputMode::Normal);
}

#[test]
fn digit_keys_open_search_results() {
    let mut app = App::new();
    let mut recent: Vec<String> = Vec::new();
    let items = (0..10)
        .map(|i| SearchResultItem { title: format!("R{}", i), snippet: String::new() })
        .collect();
    app.handle_network_event(
        NetworkEvent::SearchResult { request_id: 0, pane_id: 0, query: "r".to_string(), results: items },
        options(80),
        &mut recent,
    );
    app.activate_search_result_digit('3');
    assert_eq!(active(&app).selected_idx, 2);
    assert!(active(&app).is_loading);
    match app.outbox.last() {
        Some(NetworkCommand::FetchArticle { pane_id, title, .. }) => {
            assert_eq!(*pane_id, 0);
            assert_eq!(title, "R2");
        },
        _ => panic!("nothing requested"),
    }
    app.activate_search_result_digit('0');
    match app.outbox.last() {
        Some(NetworkCommand::FetchArticle { title, .. }) => assert_eq!(title, "R9"),
        _ => panic!("nothing requested"),
    }
    let sent = app.outbox.len();
    let mut short = App::new();
    short.activate_search_result_digit('5');
    assert_eq!(short.outbox.len(), 0);
    assert!(sent >= 2);
}

#[test]
fn clipboard_programs_are_tried_in_turn() {
    let mut programs: Vec<(String, Vec<String>)> = Vec::new();
    let mut tried = 0;
    loop {
        match copy_to_clipboard(tried, false) {
            ClipboardStep::Run(c) => {
                programs.push((c.program, c.args));
                tried += 1;
            },
            ClipboardStep::Done(ok) => {
                assert!(!ok);
                break;
            },
        }
    }
    assert_eq!(programs.len(), 5);
    assert_eq!(programs[0].0, "wl-copy");
    assert_eq!(programs[1], ("xclip".to_string(), vec!["-selection".to_string(), "clipboard".to_string()]));
    assert_eq!(programs[2], ("xsel".to_string(), vec!["--clipboard".to_string(), "--input".to_string()]));
    assert_eq!(programs[3].0, "pbcopy");
    assert_eq!(programs[4].0, "clip.exe");
    assert!(matches!(copy_to_clipboard(2, true), ClipboardStep::Done(true)));
}

#[test]
fn cached_image_only_when_present() {
    let url = "https://upload.example.org/a/b/Cat.png";
    assert_eq!(get_cached_image_path("/tmp/img", url, false), None);
    let p = get_cached_image_path("/tmp/img", url, true).unwrap();
    assert_eq!(p, image_cache_path("/tmp/img", url));
    assert!(p.starts_with("/tmp/img/"));
    assert!(p.ends_with(".png"));
}

#[test]
fn recording_the_same_article_twice() {
    let mut recent: Vec<String> = (0..10).map(|i| format!("A{}", i)).collect();
    wikid::app::recent::record_recent_article(&mut recent, "A5");
    let once = recent.clone();
    wikid::app::recent::record_recent_article(&mut recent, "A5");
    assert_eq!(recent, once);
    assert_eq!(recent[0], "A5");
    assert_eq!(recent.len(), 10);
    assert_eq!(recent.iter().filter(|t| *t == "A5").count(), 1);
    wikid::app::recent::record_recent_article(&mut recent, "New");
    assert_eq!(recent.len(), 10);
    assert_eq!(recent[0], "New");
    assert_eq!(recent[9], "A8");
}

#[test]
fn wrapped_lines_stay_within_the_width() {
    let html = "<p>a few words and then averyveryverylongwordthatcannotfit and more words after it</p>";
    let doc = wikid::parser::document::parse_wikipedia_html(html, options(20));
    assert!(doc.lines.len() > 3);
    for line in &doc.lines {
        let text = line.concat();
        let width = text.chars().count();
        assert!(width <= 20 || line.len() == 1, "{:?}", line);
    }
}

#[test]
fn selecting_text_with_the_mouse() {
    let mut app = App::new();
    let mut recent: Vec<String> = Vec::new();
    app.handle_network_event(
        NetworkEvent::ArticleResult { request_id: 0, pane_id: 0, title: "Cat".to_string(), content: "<p>The cat sat on the mat.</p>".to_string() },
        options(80),
        &mut recent,
    );
    let rects = vec![(0usize, Rect { x: 0, y: 1, width: 80, height: 20 })];
    // the tab bar and the status line take no presses
    assert!(!app.handle_selection_down(2, 0, 24, &rects));
    assert!(!app.handle_selection_down(2, 23, 24, &rects));
    // text starts one row down and two columns in
    assert!(app.handle_selection_down(6, 2, 24, &rects));
    assert!(active(&app).is_mouse_selecting);
    assert_eq!(active(&app).selection_anchor, Some((0, 4)));
    assert!(app.handle_selection_drag(9, 2, &rects));
    assert_eq!(app.handle_selection_up(), Some("cat".to_string()));
    assert!(!active(&app).is_mouse_selecting);
    // releasing again copies nothing
    assert_eq!(app.handle_selection_up(), None);
    // a press outside every pane starts nothing
    assert!(!app.handle_selection_down(2, 22, 24, &rects));
    // in another mode presses are ignored
    app.toggle_help_popup();
    assert!(!app.handle_selection_down(6, 2, 24, &rects));
    assert!(!app.handle_selection_drag(9, 2, &rects));
}

#[test]
fn opening_the_selection_elsewhere() {
    let mut app = App::new();
    let mut recent: Vec<String> = Vec::new();
    let items = (0..3).map(|i| SearchResultItem { title: format!("R{}", i), snippet: String::new() }).collect();
    app.handle_network_event(
        NetworkEvent::SearchResult { request_id: 0, pane_id: 0, query: "r".to_string(), results: items },
        options(80),
        &mut recent,
    );
    app.tabs[0].panes[0].selected_idx = 1;
    assert!(app.activate_selected_in_new_tab());
    assert_eq!(app.tabs.len(), 2);
    assert_eq!(app.active_tab_idx, 1);
    assert!(active(&app).is_loading);
    match app.outbox.last() {
        Some(NetworkCommand::FetchArticle { pane_id, title, .. }) => {
            assert_eq!(*pane_id, 1);
            assert_eq!(title, "R1");
        },
        _ => panic!("nothing requested"),
    }
    // the new tab shows nothing to open yet
    assert!(!app.activate_selected_in_new_tab());
    app.active_tab_idx = 0;
    assert!(app.activate_selected_in_split(SplitDirection::Horizontal));
    assert_eq!(app.tabs[0].panes.len(), 2);
    match &app.tabs[0].layout_root {
        LayoutNode::Split { direction, .. } => assert_eq!(*direction, SplitDirection::Horizontal),
        _ => panic!("no split"),
    }
    assert_eq!(app.tabs[0].active_pane_idx, 1);
    match app.outbox.last() {
        Some(NetworkCommand::FetchArticle { pane_id, title, .. }) => {
            assert_eq!(*pane_id, 2);
            assert_eq!(title, "R1");
        },
        _ => panic!("nothing requested"),
    }
}

#[test]
fn stale_replies_are_dropped() {
    let mut app = App::new();
    let mut recent: Vec<String> = Vec::new();
    app.open_article("Cat");
    app.open_article("Dog");
    let ids: Vec<u64> = app
        .outbox
        .iter()
        .map(|c| match c {
            NetworkCommand::FetchArticle { request_id, .. } => *request_id,
            _ => panic!("an article request"),
        })
        .collect();
    assert_eq!(ids, vec![1, 2]);
    assert_eq!(active(&app).current_request_id, 2);
    assert_eq!(app.next_request_id, 3);
    // the reply to the first request comes late and is dropped
    app.handle_network_event(
        NetworkEvent::ArticleResult { request_id: 1, pane_id: 0, title: "Cat".to_string(), content: "<p>cat</p>".to_string() },
        options(80),
        &mut recent,
    );
    assert!(active(&app).is_loading);
    assert!(matches!(active(&app).content, PaneContent::Empty));
    assert!(recent.is_empty());
    app.handle_network_event(
        NetworkEvent::Error { request_id: 1, pane_id: 0, message: "late".to_string() },
        options(80),
        &mut recent,
    );
    assert!(matches!(active(&app).content, PaneContent::Empty));
    app.handle_network_event(
        NetworkEvent::SearchResult { request_id: 0, pane_id: 0, query: "x".to_string(), results: vec![] },
        options(80),
        &mut recent,
    );
    assert!(matches!(active(&app).content, PaneContent::Empty));
    // the current one is taken
    app.handle_network_event(
        NetworkEvent::ArticleResult { request_id: 2, pane_id: 0, title: "Dog".to_string(), content: "<p>dog</p>".to_string() },
        options(80),
        &mut recent,
    );
    assert!(!active(&app).is_loading);
    assert_eq!(recent, vec!["Dog".to_string()]);
}
