use wikid::api::article::{
    article_cache_file_name, article_html_from, article_params, article_query_title, cache_dir as article_cache_dir,
    cache_file_path,
};
use wikid::api::daily_feed::{
    daily_feed_url, feed_cache_path, feed_date_from_secs, feed_date_in_range, utc_today, MostReadArticle, PageSummary,
};
use wikid::api::random::{random_params, random_title_from};
use wikid::api::search::{search_params, search_results_from, SearchHit};
use wikid::api::{event_for, network_error, parse_error, FetchOutcome, NetworkCommand, NetworkEvent, SearchResultItem};
use wikid::paths::{audio_cache_dir, cache_dir, config_dir, env_path, join_path, DirEnv};

fn env(w: Option<&str>, xc: Option<&str>, xg: Option<&str>, h: Option<&str>) -> DirEnv {
    DirEnv {
        wikid_cache_dir: w.map(|s| s.to_string()),
        xdg_cache_home: xc.map(|s| s.to_string()),
        xdg_config_home: xg.map(|s| s.to_string()),
        home: h.map(|s| s.to_string()),
    }
}

#[test]
fn directories_from_the_environment() {
    assert_eq!(config_dir(&env(None, None, Some("/x/cfg"), Some("/home/u"))), "/x/cfg/wikid");
    assert_eq!(config_dir(&env(None, None, Some("  "), Some("/home/u"))), "/home/u/.config/wikid");
    assert_eq!(config_dir(&env(None, None, None, None)), ".");
    assert_eq!(cache_dir(&env(Some("/c"), Some("/x"), None, Some("/h"))), "/c");
    assert_eq!(cache_dir(&env(None, Some("/x/"), None, Some("/h"))), "/x/wikid");
    assert_eq!(cache_dir(&env(None, None, None, Some("/h"))), "/h/.cache/wikid");
    assert_eq!(cache_dir(&env(None, None, None, None)), "cache");
    assert_eq!(audio_cache_dir(&env(None, None, None, Some("/h"))), "/h/.cache/wikid/audio");
    assert_eq!(env_path(&Some("\t".to_string())), None);
    assert_eq!(env_path(&Some("/a".to_string())), Some("/a".to_string()));
    assert_eq!(join_path("", "x"), "x");
    assert_eq!(join_path("a/", "x"), "a/x");
}

#[test]
fn article_cache_names() {
    let name = article_cache_file_name("Rust (language)");
    assert!(name.starts_with("Rust__language__"));
    assert!(name.ends_with(".html"));
    assert_eq!(name.len(), "Rust__language__".len() + 16 + ".html".len());
    assert!(name["Rust__language__".len()..name.len() - 5].chars().all(|c| c.is_ascii_hexdigit()));
    assert_ne!(article_cache_file_name("Cat"), article_cache_file_name("Dog"));
    assert_eq!(cache_file_path("/c", "Cat"), format!("/c/{}", article_cache_file_name("Cat")));
    assert_eq!(article_cache_dir(&env(None, Some("/x"), None, Some("/h"))), "/x/wikid/articles");
    assert_eq!(article_cache_dir(&env(None, None, None, Some("/h"))), "/h/.cache/wikid/articles");
    assert_eq!(article_cache_dir(&env(None, None, None, None)), ".cache/wikid/articles");
}

#[test]
fn article_requests_and_replies() {
    assert_eq!(article_query_title("Albert_Einstein%27s"), "Albert Einstein's");
    let p = article_params("New_York");
    assert_eq!(p[1], ("page".to_string(), "New York".to_string()));
    assert_eq!(p[0], ("action".to_string(), "parse".to_string()));
    assert_eq!(p.len(), 7);
    assert_eq!(article_html_from(Some("<p>x</p>".to_string())), Ok("<p>x</p>".to_string()));
    assert_eq!(article_html_from(Some(" \n ".to_string())), Err("article HTML content not found".to_string()));
    assert_eq!(article_html_from(None), Err("article HTML content not found".to_string()));
    assert_eq!(network_error("timeout"), "network error: timeout");
    assert_eq!(parse_error("bad json"), "parse error: bad json");
}

#[test]
fn search_and_random_requests() {
    let p = search_params("rust lang");
    assert_eq!(p[2], ("srsearch".to_string(), "rust lang".to_string()));
    assert_eq!(p[5], ("srlimit".to_string(), "50".to_string()));
    let r = search_results_from(vec![SearchHit { title: "Rust".to_string(), snippet: "a <span class=\"searchmatch\">lang</span>".to_string() }]);
    assert_eq!(r[0].title, "Rust");
    assert_eq!(r[0].snippet, "a lang");
    assert_eq!(random_params()[1], ("list".to_string(), "random".to_string()));
    assert_eq!(random_title_from(vec!["A".to_string(), "B".to_string()]), Ok("A".to_string()));
    assert_eq!(random_title_from(vec![]), Err("no random article returned".to_string()));
}

#[test]
fn worker_events() {
    let ev = event_for(
        NetworkCommand::Search { pane_id: 3, request_id: 4, query: "q".to_string() },
        FetchOutcome::SearchResults(vec![SearchResultItem { title: "T".to_string(), snippet: String::new() }]),
    );
    match ev {
        Some(NetworkEvent::SearchResult { pane_id, request_id, query, results }) => {
            assert_eq!((pane_id, request_id, query.as_str(), results.len()), (3, 4, "q", 1));
        },
        _ => panic!("expected search results"),
    }
    let ev = event_for(NetworkCommand::FetchArticle { pane_id: 1, request_id: 2, title: "Cat".to_string() }, FetchOutcome::Article("<p/>".to_string()));
    assert!(matches!(ev, Some(NetworkEvent::ArticleResult { pane_id: 1, request_id: 2, ref title, ref content }) if title == "Cat" && content == "<p/>"));
    let ev = event_for(NetworkCommand::FetchRandomArticle { pane_id: 2, request_id: 5 }, FetchOutcome::RandomArticle("Dog".to_string(), "x".to_string()));
    assert!(matches!(ev, Some(NetworkEvent::ArticleResult { pane_id: 2, request_id: 5, ref title, .. }) if title == "Dog"));
    let ev = event_for(NetworkCommand::FetchArticle { pane_id: 1, request_id: 2, title: "Cat".to_string() }, FetchOutcome::Failed("boom".to_string()));
    assert!(matches!(ev, Some(NetworkEvent::Error { pane_id: 1, request_id: 2, ref message }) if message == "boom"));
    assert!(event_for(NetworkCommand::FetchFeedBatch, FetchOutcome::Failed("x".to_string())).is_none());
    assert!(matches!(event_for(NetworkCommand::FetchFeedBatch, FetchOutcome::FeedBatch(vec![])), Some(NetworkEvent::FeedBatchLoaded { .. })));
    assert!(event_for(NetworkCommand::FetchFeedBatch, FetchOutcome::Article("x".to_string())).is_none());
}

#[test]
fn feed_dates() {
    assert_eq!(feed_date_from_secs(1718452800), (2024, 6, 15));
    assert_eq!(feed_date_from_secs(43200), (1970, 1, 1));
    assert_eq!(feed_date_from_secs(1704024000), (2023, 12, 31));
    assert!(feed_date_in_range(1718452800));
    // 2025-02-27: the year's start lies after the day
    assert!(!feed_date_in_range(1740571200));
    let today = utc_today();
    if let Some((y, m, d)) = today {
        assert!(y >= 2024 && (1..=12).contains(&m) && (1..=31).contains(&d));
    }
}

#[test]
fn feed_paths_and_urls() {
    assert_eq!(feed_cache_path("/c", 2024, 6, 5), "/c/feed_2024_06_05.json");
    assert_eq!(daily_feed_url(2024, 6, 5), "https://en.wikipedia.org/api/rest_v1/feed/featured/2024/06/05");
    assert_eq!(daily_feed_url(987, 12, 25), "https://en.wikipedia.org/api/rest_v1/feed/featured/0987/12/25");
}

#[test]
fn display_titles() {
    let p = PageSummary { title: "A_b".to_string(), normalizedtitle: Some("A b".to_string()), description: None, extract: None };
    assert_eq!(p.display_title(), "A b");
    let m = MostReadArticle { title: "X".to_string(), normalizedtitle: None, description: None, extract: None, views: Some(3), rank: Some(1) };
    assert_eq!(m.display_title(), "X");
}
