use wikid::api::SearchResultItem;
use wikid::app::links::Activation;
use wikid::app::navigation::{calc_max_scroll, search_result_line_range};
use wikid::app::pane::{Pane, PaneContent, ParsedDocument, TextSelection};
use wikid::app::search::{find_local_matches, SearchInput};
use wikid::mouse::{extract_selected_text, get_char_coord_in_article_pane, Rect};
use wikid::parser::types::{Heading, Link};

fn line(parts: &[&str]) -> Vec<String> {
    parts.iter().map(|s| s.to_string()).collect()
}

fn link(title: &str, line: usize) -> Link {
    Link { title: title.to_string(), text: title.to_string(), span_indices: vec![(line, 0)] }
}

fn heading(t: &str, line: usize) -> Heading {
    Heading { title: t.to_string(), level: 2, line_idx: line }
}

fn article(lines: usize, links: Vec<Link>, headings: Vec<Heading>) -> Pane {
    let mut p = Pane::new(7);
    p.viewport_height = 10;
    p.content = PaneContent::ArticleText {
        title: "Cat".to_string(),
        raw_html: String::new(),
        parsed_doc: ParsedDocument {
            lines: (0..lines).map(|i| line(&[&format!("line {}", i)])).collect(),
            links,
            headings,
            reference_targets: vec![("cite_note-1".to_string(), 40)],
            plain_text_lower: vec![],
        },
        last_width: 80,
        last_show_footnotes: false,
        last_heading_marker: false,
        last_code_line_numbers: false,
    };
    p
}

fn results(n: usize) -> Pane {
    let mut p = Pane::new(3);
    p.viewport_height = 6;
    p.content = PaneContent::SearchResults {
        query: "big cats".to_string(),
        items: (0..n)
            .map(|i| SearchResultItem { title: format!("R{}", i), snippet: if i % 2 == 0 { "s".to_string() } else { String::new() } })
            .collect(),
    };
    p
}

#[test]
fn selections_normalize() {
    let s = TextSelection { start: (5, 2), end: (3, 9) };
    assert_eq!(s.normalized(), ((3, 9), (5, 2)));
    assert!(s.contains_line(4));
    assert!(!s.contains_line(6));
    let t = TextSelection { start: (1, 1), end: (1, 4) };
    assert_eq!(t.normalized(), ((1, 1), (1, 4)));
}

#[test]
fn scroll_limits() {
    assert_eq!(calc_max_scroll(100, 40), 80);
    assert_eq!(calc_max_scroll(10, 40), 0);
    assert_eq!(calc_max_scroll(10, 1), 9);
    let p = article(100, vec![], vec![]);
    assert_eq!(p.effective_viewport_height(40), 10);
    assert_eq!(p.page_scroll_step(40), 7);
    assert_eq!(p.max_scroll(40), 90);
    let q = Pane::new(1);
    assert_eq!(q.effective_viewport_height(40), 36);
    assert_eq!(q.effective_viewport_height(3), 1);
}

#[test]
fn scrolling_an_article_keeps_a_visible_link_focused() {
    let mut p = article(100, vec![link("A", 2), link("B", 15), link("C", 60)], vec![]);
    p.selected_link_idx = Some(0);
    for _ in 0..5 {
        p.select_next_item(40);
    }
    assert_eq!(p.scroll_offset, 5);
    assert_eq!(p.selected_link_idx, Some(1));
    p.scroll_page_down(40);
    assert_eq!(p.scroll_offset, 35);
    assert_eq!(p.selected_link_idx, Some(2));
    p.jump_to_bottom(40);
    assert_eq!(p.scroll_offset, 80);
    assert_eq!(p.selected_link_idx, Some(2));
    p.scroll_page_up(40);
    assert_eq!(p.scroll_offset, 50);
    p.jump_to_top();
    assert_eq!((p.scroll_offset, p.selected_link_idx), (0, Some(0)));
    p.select_prev_item(40);
    assert_eq!(p.scroll_offset, 0);
}

#[test]
fn result_list_selection_scrolls_into_view() {
    assert_eq!(search_result_line_range(&vec![], 0), (0, 0));
    let p = results(5);
    if let PaneContent::SearchResults { items, .. } = &p.content {
        assert_eq!(search_result_line_range(items, 0), (0, 3));
        assert_eq!(search_result_line_range(items, 2), (5, 8));
        assert_eq!(search_result_line_range(items, 9), (13, 13));
    }
    let mut p = results(5);
    p.select_next_item(40);
    p.select_next_item(40);
    assert_eq!(p.selected_idx, 2);
    assert_eq!(p.scroll_offset, 2);
    p.jump_to_bottom(40);
    assert_eq!(p.selected_idx, 4);
    assert_eq!(p.scroll_offset, 7);
    p.scroll_page_up(40);
    assert_eq!(p.selected_idx, 0);
    assert_eq!(p.scroll_offset, 0);
}

#[test]
fn tab_and_shift_tab_cycle_links() {
    let mut p = article(100, vec![link("A", 2), link("B", 30), link("C", 60)], vec![]);
    p.focus_next_link();
    assert_eq!((p.selected_link_idx, p.scroll_offset), (Some(0), 0));
    p.focus_next_link();
    assert_eq!((p.selected_link_idx, p.scroll_offset), (Some(1), 25));
    p.focus_prev_link();
    assert_eq!((p.selected_link_idx, p.scroll_offset), (Some(0), 2));
    p.focus_prev_link();
    assert_eq!((p.selected_link_idx, p.scroll_offset), (Some(2), 55));
    p.focus_next_link();
    assert_eq!(p.selected_link_idx, Some(0));
}

#[test]
fn headings_and_contents() {
    let mut p = article(100, vec![], vec![heading("History", 10), heading("Biology", 40), heading("Culture", 70)]);
    p.jump_next_heading(40);
    assert_eq!(p.scroll_offset, 10);
    p.jump_next_heading(40);
    assert_eq!(p.scroll_offset, 40);
    p.jump_prev_heading(40);
    assert_eq!(p.scroll_offset, 10);
    p.scroll_offset = 50;
    p.toggle_toc();
    assert!(p.show_toc && p.toc_focused);
    assert_eq!(p.selected_toc_idx, Some(1));
    p.select_next_toc_item();
    p.select_next_toc_item();
    assert_eq!(p.selected_toc_idx, Some(2));
    p.select_prev_toc_item();
    assert_eq!(p.selected_toc_idx, Some(1));
    p.activate_toc_selection(40);
    assert_eq!(p.scroll_offset, 40);
    assert!(!p.show_toc && !p.toc_focused);
    let mut empty = Pane::new(1);
    empty.toggle_toc();
    assert!(!empty.show_toc);
}

#[test]
fn going_back_and_forth_through_history() {
    let mut p = article(10, vec![], vec![]);
    let cmd = p.open_article("Dog", 3);
    assert!(matches!(cmd, wikid::api::NetworkCommand::FetchArticle { pane_id: 7, request_id: 3, ref title } if title == "Dog"));
    assert_eq!(p.current_request_id, 3);
    assert_eq!(p.history_back, vec!["Cat".to_string()]);
    assert!(p.history_forward.is_empty());
    assert!(p.is_loading);
    if let PaneContent::ArticleText { title, .. } = &mut p.content {
        *title = "Dog".to_string();
    }
    let back = p.history_back(40, 4);
    assert!(matches!(back, Some(wikid::api::NetworkCommand::FetchArticle { request_id: 4, ref title, .. }) if title == "Cat"));
    assert!(p.history_back.is_empty());
    assert_eq!(p.history_forward, vec!["Dog".to_string()]);
    if let PaneContent::ArticleText { title, .. } = &mut p.content {
        *title = "Cat".to_string();
    }
    let fwd = p.history_forward(5);
    assert!(matches!(fwd, Some(wikid::api::NetworkCommand::FetchArticle { ref title, .. }) if title == "Dog"));
    assert_eq!(p.history_back, vec!["Cat".to_string()]);
    assert!(p.history_forward.is_empty());
    assert!(p.history_forward(5).is_none());
}

#[test]
fn enter_on_links() {
    let mut p = article(100, vec![link("#cite_note-1", 3), link("https://x.org", 4), link("Dog", 5), link("Ref", 40)], vec![]);
    p.selected_link_idx = Some(0);
    match p.activate_selected(40) {
        Activation::Jumped(m) => assert_eq!(m, "jumped to reference (press H to return)"),
        other => panic!("unexpected {:?}", other),
    }
    assert_eq!(p.scroll_offset, 40);
    assert_eq!(p.jump_stack, vec![0]);
    assert_eq!(p.selected_link_idx, Some(3));
    assert!(p.history_back(40, 4).is_none());
    assert_eq!(p.scroll_offset, 0);
    p.selected_link_idx = Some(1);
    assert!(matches!(p.activate_selected(40), Activation::CopyExternal(ref u) if u == "https://x.org"));
    p.selected_link_idx = Some(2);
    assert!(matches!(p.activate_selected(40), Activation::Follow(ref t) if t == "Dog"));
    assert_eq!(p.copy_focused_link(), Some("https://en.wikipedia.org/wiki/Dog".to_string()));
    p.selected_link_idx = Some(1);
    assert_eq!(p.copy_focused_link(), Some("https://x.org".to_string()));
    assert_eq!(p.copy_article_link(), Some("https://en.wikipedia.org/wiki/Cat".to_string()));
    let r = results(2);
    assert_eq!(r.copy_article_link(), Some("https://en.wikipedia.org/wiki/Special:Search?search=big_cats".to_string()));
    assert_eq!(r.copy_focused_link(), Some("https://en.wikipedia.org/wiki/R0".to_string()));
    assert!(Pane::new(1).copy_article_link().is_none());
}

#[test]
fn search_box_editing() {
    let mut s = SearchInput::new();
    for c in "big cat".chars() {
        s.type_char(c);
    }
    assert_eq!((s.text.as_str(), s.cursor), ("big cat", 7));
    s.move_left();
    s.move_left();
    s.type_char('x');
    assert_eq!((s.text.as_str(), s.cursor), ("big cxat", 6));
    s.backspace();
    assert_eq!((s.text.as_str(), s.cursor), ("big cat", 5));
    s.move_end();
    s.delete_word_left();
    assert_eq!((s.text.as_str(), s.cursor), ("big ", 4));
    s.delete_word_left();
    assert_eq!((s.text.as_str(), s.cursor), ("", 0));
    let mut e = SearchInput::editing("  rust  ");
    assert_eq!(e.cursor, 8);
    assert_eq!(e.submitted_query(), "rust");
    e.move_home();
    e.delete_char();
    assert_eq!(e.text, " rust  ");
    e.move_right();
    assert_eq!(e.cursor, 1);
}

#[test]
fn in_page_matches() {
    let lines = vec![line(&["The Cat", " and the cat"]), line(&["no match"]), line(&["Éclair cat"])];
    let m = find_local_matches(&lines, "CAT");
    assert_eq!(m.len(), 3);
    assert_eq!((m[0].line_idx, m[0].span_idx, m[0].char_offset), (0, 0, 4));
    assert_eq!((m[1].line_idx, m[1].span_idx, m[1].char_offset), (0, 1, 16));
    assert_eq!((m[2].line_idx, m[2].span_idx, m[2].char_offset), (2, 0, 8));
    assert!(find_local_matches(&lines, "  ").is_empty());
    assert_eq!(find_local_matches(&vec![line(&["aaaa"])], "aa").len(), 2);
}

#[test]
fn in_page_search_moves_between_matches() {
    let mut p = article(100, vec![], vec![]);
    p.local_search_query = "line 5".to_string();
    p.update_local_search(40);
    assert_eq!(p.local_matches.len(), 11);
    assert_eq!(p.selected_match_idx, Some(0));
    p.next_local_match(40);
    assert_eq!(p.selected_match_idx, Some(1));
    assert_eq!(p.local_matches[1].line_idx, 50);
    assert_eq!(p.scroll_offset, 45);
    p.prev_local_match(40);
    p.prev_local_match(40);
    assert_eq!(p.selected_match_idx, Some(10));
}

#[test]
fn mouse_selection_text() {
    let doc = ParsedDocument {
        lines: vec![line(&["Hello ", "world"]), line(&["second"]), line(&["third line"])],
        links: vec![],
        headings: vec![],
        reference_targets: vec![],
        plain_text_lower: vec![],
    };
    let sel = TextSelection { start: (2, 5), end: (0, 6) };
    assert_eq!(extract_selected_text(&doc, &sel), "world\nsecond\nthird");
    let one = TextSelection { start: (0, 0), end: (0, 5) };
    assert_eq!(extract_selected_text(&doc, &one), "Hello");
    let empty = TextSelection { start: (0, 3), end: (0, 3) };
    assert_eq!(extract_selected_text(&doc, &empty), "");
    let past = TextSelection { start: (1, 2), end: (9, 2) };
    assert_eq!(extract_selected_text(&doc, &past), "cond\nthird line");
    let gap = TextSelection { start: (0, 40), end: (1, 3) };
    assert_eq!(extract_selected_text(&doc, &gap), "\nsec");
}

#[test]
fn clicks_become_text_positions() {
    let mut p = article(20, vec![], vec![]);
    p.scroll_offset = 3;
    let r = Rect { x: 10, y: 5, width: 40, height: 10 };
    assert_eq!(get_char_coord_in_article_pane(&p, r, 15, 8), Some((5, 3)));
    assert_eq!(get_char_coord_in_article_pane(&p, r, 10, 5), Some((3, 0)));
    assert_eq!(get_char_coord_in_article_pane(&p, r, 9, 8), None);
    p.scroll_offset = 18;
    assert_eq!(get_char_coord_in_article_pane(&p, r, 15, 14), Some((19, 3)));
    assert_eq!(get_char_coord_in_article_pane(&Pane::new(1), r, 15, 8), None);
}
