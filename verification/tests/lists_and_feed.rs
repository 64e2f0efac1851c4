use wikid::api::feed::{
    categories_from_title, category_params, choose_feed_categories, feed_categories, feed_item_from,
    merge_feed_batches, random_pages_params, FeedPage,
};
use wikid::app::lists_modal::ListsModalState;
use wikid::app::recent::{get_continue_reading_articles, record_recent_article};
use wikid::feed::liked::mark_liked_items;
use wikid::feed::algorithm::{
    random_from_clock, select_best_item_with, shuffle_with_seed, strategy_from_random, FeedItem,
    SelectionStrategy,
};
use wikid::saved_lists::{SavedArticle, SavedList, SavedListsStore};

fn item(t: &str) -> FeedItem {
    FeedItem { title: t.to_string(), short_description: None, snippet: String::new(), categories: vec![], is_liked: false }
}

fn strings(v: &[&str]) -> Vec<String> {
    v.iter().map(|s| s.to_string()).collect()
}

#[test]
fn default_store_has_read_later() {
    let s = SavedListsStore::with_default_list("2024-01-01 10:00".to_string());
    assert_eq!(s.version, 1);
    assert_eq!(s.lists.len(), 1);
    assert_eq!(s.lists[0].id, "read_later");
    assert_eq!(s.lists[0].name, "Read Later");
}

#[test]
fn toggling_twice_restores_the_list() {
    let mut s = SavedListsStore::with_default_list("t0".to_string());
    assert!(s.toggle_article_in_list("read_later", "  Cat ", Some(" a pet "), "t1".to_string()));
    assert!(s.is_article_in_list("read_later", "Cat"));
    assert_eq!(s.lists[0].articles[0].title, "Cat");
    assert_eq!(s.lists[0].articles[0].snippet.as_deref(), Some("a pet"));
    assert_eq!(s.lists[0].articles[0].saved_at, "t1");
    assert!(!s.toggle_article_in_list("read_later", "Cat", None, "t2".to_string()));
    assert!(!s.is_article_in_list("read_later", "Cat"));
    assert!(s.lists[0].articles.is_empty());
    assert!(!s.toggle_article_in_list("missing", "Cat", None, "t3".to_string()));
    assert!(!s.toggle_article_in_list("read_later", "   ", None, "t3".to_string()));
}

#[test]
fn creating_lists() {
    let mut s = SavedListsStore::with_default_list("t0".to_string());
    let id = s.create_list("  My Reading List ", " for later ", "t1".to_string());
    assert_eq!(id, "my_reading_list");
    assert_eq!(s.lists.len(), 2);
    assert_eq!(s.lists[1].name, "My Reading List");
    assert_eq!(s.lists[1].description, "for later");
    let again = s.create_list("my reading list", "", "t2".to_string());
    assert_eq!(again, "my_reading_list");
    assert_eq!(s.lists.len(), 2);
    assert_eq!(s.create_list("   ", "", "t3".to_string()), "");
    s.delete_list("my_reading_list");
    assert_eq!(s.lists.len(), 1);
    assert!(!s.is_article_in_list("my_reading_list", "x"));
}

#[test]
fn recent_articles_keep_ten_newest_first() {
    let mut recent = Vec::new();
    for i in 0..12 {
        record_recent_article(&mut recent, &format!("A{}", i));
    }
    assert_eq!(recent.len(), 10);
    assert_eq!(recent[0], "A11");
    assert_eq!(recent[9], "A2");
    record_recent_article(&mut recent, "A5");
    assert_eq!(recent[0], "A5");
    assert_eq!(recent.iter().filter(|t| *t == "A5").count(), 1);
    assert_eq!(recent.len(), 10);
    record_recent_article(&mut recent, "Category:Cats");
    record_recent_article(&mut recent, "   ");
    assert_eq!(recent[0], "A5");
}

#[test]
fn continue_reading_falls_back_to_saved_lists() {
    let store = SavedListsStore {
        version: 1,
        lists: vec![
            SavedList {
                id: "a".to_string(),
                name: "A".to_string(),
                description: String::new(),
                created_at: String::new(),
                articles: vec![
                    SavedArticle { title: "One".to_string(), snippet: None, saved_at: String::new() },
                    SavedArticle { title: "Two".to_string(), snippet: None, saved_at: String::new() },
                ],
            },
            SavedList {
                id: "b".to_string(),
                name: "B".to_string(),
                description: String::new(),
                created_at: String::new(),
                articles: vec![
                    SavedArticle { title: "Category:X".to_string(), snippet: None, saved_at: String::new() },
                    SavedArticle { title: "One".to_string(), snippet: None, saved_at: String::new() },
                    SavedArticle { title: "Three".to_string(), snippet: None, saved_at: String::new() },
                ],
            },
        ],
    };
    assert_eq!(get_continue_reading_articles(&vec![], &store), strings(&["Two", "One", "Three"]));
    assert_eq!(
        get_continue_reading_articles(&strings(&["Category:Y", "Dog"]), &store),
        strings(&["Dog"])
    );
}

#[test]
fn modal_cursors_wrap() {
    let mut m = ListsModalState::new();
    m.save_prev(3);
    assert_eq!(m.save_cursor_idx, 2);
    m.save_next(3);
    assert_eq!(m.save_cursor_idx, 0);
    m.viewer_down(2, 5);
    assert_eq!((m.viewer_list_idx, m.viewer_article_idx), (1, 0));
    m.viewer_focus_right = true;
    m.viewer_up(2, 5);
    assert_eq!(m.viewer_article_idx, 4);
    m.viewer_down(2, 5);
    assert_eq!(m.viewer_article_idx, 0);
    m.viewer_down(2, 0);
    assert_eq!(m.viewer_article_idx, 0);
}

#[test]
fn clock_mixing_is_xorshift_star() {
    assert_eq!(random_from_clock(0), 17895014475081082083);
    assert_eq!(random_from_clock(1234567), 3668968459680020387);
}

#[test]
fn strategies_by_roll() {
    assert_eq!(strategy_from_random(39), SelectionStrategy::WeightedCategory);
    assert_eq!(strategy_from_random(139), SelectionStrategy::WeightedCategory);
    assert_eq!(strategy_from_random(140), SelectionStrategy::TopCategory);
    assert_eq!(strategy_from_random(40), SelectionStrategy::TopCategory);
    assert_eq!(strategy_from_random(81), SelectionStrategy::TopCategory);
    assert_eq!(strategy_from_random(82), SelectionStrategy::RandomExploration);
}

#[test]
fn seeded_shuffle_is_a_permutation() {
    let mut v: Vec<u32> = (0..20).collect();
    shuffle_with_seed(&mut v, 42);
    let mut sorted = v.clone();
    sorted.sort();
    assert_eq!(sorted, (0..20).collect::<Vec<u32>>());
    let mut w: Vec<u32> = (0..20).collect();
    shuffle_with_seed(&mut w, 42);
    assert_eq!(v, w);
    assert_ne!(v, (0..20).collect::<Vec<u32>>());
}

#[test]
fn best_item_selection() {
    let c = vec![item("a"), item("b"), item("c")];
    let r = select_best_item_with(c, &vec![false, false, false], &vec![1, 5, 5], SelectionStrategy::TopCategory, 0);
    assert_eq!(r.unwrap().title, "b");
    let c = vec![item("a"), item("b"), item("c")];
    let r = select_best_item_with(c, &vec![false, true, false], &vec![1, 5, 3], SelectionStrategy::WeightedCategory, 0);
    assert_eq!(r.unwrap().title, "c");
    let c = vec![item("a"), item("b"), item("c")];
    let r = select_best_item_with(c, &vec![true, true, true], &vec![1, 5, 3], SelectionStrategy::TopCategory, 0);
    assert_eq!(r.unwrap().title, "a");
    let c = vec![item("a"), item("b"), item("c")];
    let r = select_best_item_with(c, &vec![false, false, false], &vec![0, 0, 0], SelectionStrategy::RandomExploration, 7);
    assert_eq!(r.unwrap().title, "b");
    assert!(select_best_item_with(vec![], &vec![], &vec![], SelectionStrategy::TopCategory, 0).is_none());
}

#[test]
fn feed_categories_filter_and_fallback() {
    let raw = strings(&["Category:Cats", "Category:All stub articles", "Articles with short description", "CS1 errors", "Domestic cat breeds"]);
    assert_eq!(feed_categories("Cat", &raw), strings(&["Cats", "Domestic cat breeds"]));
    let maint = strings(&["Category:Wikipedia tracking categories", "Cat stubs"]);
    assert_eq!(feed_categories("The Great Gatsby (novel)", &maint), strings(&["great", "gatsby", "novel"]));
    assert_eq!(categories_from_title("Über-Café at Paris"), strings(&["über", "café", "paris"]));
    assert_eq!(categories_from_title("A b c"), Vec::<String>::new());
}

#[test]
fn feed_items_from_pages() {
    let page = FeedPage {
        title: Some("Cat".to_string()),
        description: Some("  ".to_string()),
        extract: Some("  A small mammal. ".to_string()),
        categories: Some(strings(&["Category:Felines"])),
    };
    let it = feed_item_from(page).unwrap();
    assert_eq!(it.title, "Cat");
    assert_eq!(it.short_description, None);
    assert_eq!(it.snippet, "A small mammal.");
    assert_eq!(it.categories, strings(&["Felines"]));
    assert!(!it.is_liked);
    let none = FeedPage { title: None, description: None, extract: None, categories: None };
    assert!(feed_item_from(none).is_none());
}

#[test]
fn feed_batch_requests() {
    let p = category_params("Physics");
    assert_eq!(p[2], ("gcmtitle".to_string(), "Category:Physics".to_string()));
    assert_eq!(p.len(), 11);
    assert_eq!(random_pages_params()[3], ("grnlimit".to_string(), "3".to_string()));
}

#[test]
fn batches_are_chosen_and_merged() {
    let chosen = choose_feed_categories(strings(&["a", "b", "c", "d", "e"]));
    assert_eq!(chosen.len(), 3);
    for c in &chosen {
        assert!(["a", "b", "c", "d", "e"].contains(&c.as_str()));
    }
    assert_eq!(choose_feed_categories(strings(&["x"])), strings(&["x"]));
    let merged = merge_feed_batches(vec![Some(vec![item("a"), item("b")]), None, Some(vec![item("c")])]);
    let mut titles: Vec<String> = merged.iter().map(|i| i.title.clone()).collect();
    titles.sort();
    assert_eq!(titles, strings(&["a", "b", "c"]));
}

#[test]
fn loaded_feed_items_are_marked_liked() {
    let mut store = SavedListsStore::with_default_list("2024-01-01 10:00".to_string());
    store.lists.push(SavedList {
        id: "liked".to_string(),
        name: "Liked".to_string(),
        description: String::new(),
        created_at: "2024-01-01 10:00".to_string(),
        articles: vec![],
    });
    store.toggle_article_in_list("liked", "Moon", None, "2024-01-01 10:00".to_string());
    store.toggle_article_in_list("read_later", "Mars", None, "2024-01-01 10:00".to_string());
    let liked_in_feed = strings(&["Sun"]);
    let mut already = item("Venus");
    already.is_liked = true;
    let out = mark_liked_items(vec![item("Moon"), item("Sun"), item("Mars"), already], &liked_in_feed, &store);
    let titles: Vec<&str> = out.iter().map(|i| i.title.as_str()).collect();
    assert_eq!(titles, vec!["Moon", "Sun", "Mars", "Venus"]);
    let marks: Vec<bool> = out.iter().map(|i| i.is_liked).collect();
    // in the liked list, liked in the feed, only saved for later, neither
    assert_eq!(marks, vec![true, true, false, false]);
}
