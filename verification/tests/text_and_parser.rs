use wikid::api::search::clean_snippet;
use wikid::parser::banners::{classify_ambox_class, clean_ambox_text, BannerType};
use wikid::parser::images::{image_bounds, normalize_image_url};
use wikid::parser::types::Link;
use wikid::parser::utils::{extract_title_from_href, url_decode};
use wikid::text::{replace_str, to_chars, utf8_len_exceeds};

fn link(title: &str) -> Link {
    Link { title: title.to_string(), text: String::new(), span_indices: vec![] }
}

#[test]
fn url_decode_handles_escapes_and_plus() {
    assert_eq!(url_decode("Albert%20Einstein"), "Albert Einstein");
    assert_eq!(url_decode("a+b"), "a b");
    assert_eq!(url_decode("caf%C3%A9"), "café");
    assert_eq!(url_decode("100%"), "100%");
    assert_eq!(url_decode("%zz"), "%zz");
}

#[test]
fn url_decode_invalid_utf8_becomes_replacement() {
    assert_eq!(url_decode("%FF"), "\u{FFFD}");
}

#[test]
fn href_targets() {
    assert_eq!(extract_title_from_href("/wiki/Albert_Einstein"), Some("Albert Einstein".to_string()));
    assert_eq!(extract_title_from_href("./Rust_(programming_language)"), Some("Rust (programming language)".to_string()));
    assert_eq!(extract_title_from_href("https://en.wikipedia.org/wiki/Cat#Biology"), Some("Cat".to_string()));
    assert_eq!(extract_title_from_href("/w/index.php?title=Dog&action=edit"), Some("Dog".to_string()));
    assert_eq!(extract_title_from_href("/wiki/File:Cat.jpg"), None);
    assert_eq!(extract_title_from_href("/wiki/User_talk:Someone"), None);
    assert_eq!(extract_title_from_href("#cite_note-5"), Some("#cite_note-5".to_string()));
    assert_eq!(extract_title_from_href("#History"), None);
    assert_eq!(extract_title_from_href("//example.org/x"), Some("https://example.org/x".to_string()));
    assert_eq!(extract_title_from_href("https://example.org"), Some("https://example.org".to_string()));
    assert_eq!(extract_title_from_href("   "), None);
    assert_eq!(extract_title_from_href("mailto:x@y"), None);
}

#[test]
fn ambox_classes() {
    assert_eq!(classify_ambox_class("box-Unreferenced ambox ambox-content"), Some(BannerType::Content));
    assert_eq!(classify_ambox_class("ambox ambox-delete"), Some(BannerType::Delete));
    assert_eq!(classify_ambox_class("ambox ambox-Move"), Some(BannerType::Move));
    assert_eq!(classify_ambox_class("ambox ambox-protection"), Some(BannerType::Protection));
    assert_eq!(classify_ambox_class("ambox ambox-current"), Some(BannerType::Notice));
    assert_eq!(classify_ambox_class("ambox"), Some(BannerType::Style));
    assert_eq!(classify_ambox_class("navbox"), None);
    assert_eq!(BannerType::Delete.label(), "CRITICAL WARNING");
    assert_eq!(BannerType::Protection.label(), "PROTECTION NOTICE");
}

#[test]
fn ambox_text_is_tidied() {
    assert_eq!(clean_ambox_text("This  article needs  citations ."), "This article needs citations.");
    assert_eq!(
        clean_ambox_text("Please help improve it. ( Learn how and when to remove this message )"),
        "Please help improve it."
    );
    assert_eq!(clean_ambox_text("Tagged (June 2024)"), "Tagged");
    assert_eq!(clean_ambox_text("Keep (this)"), "Keep (this)");
}

#[test]
fn link_kinds() {
    assert!(link("https://x.org").is_external());
    assert!(link("//x.org").is_external());
    assert!(!link("Cat").is_external());
    assert!(link("#cite_note-1").is_citation());
    assert!(link("cite_ref-2").is_citation());
    assert!(!link("Cat").is_citation());
}

#[test]
fn image_sources() {
    assert_eq!(normalize_image_url("//upload.wikimedia.org/a.jpg"), Some("https://upload.wikimedia.org/a.jpg".to_string()));
    assert_eq!(normalize_image_url(" /static/images/icon.png "), None);
    assert_eq!(normalize_image_url("/w/a.png"), Some("https://en.wikipedia.org/w/a.png".to_string()));
    assert_eq!(normalize_image_url("https://x.org/a.png"), Some("https://x.org/a.png".to_string()));
    assert_eq!(normalize_image_url("https://x.org/a.svg"), None);
    assert_eq!(normalize_image_url("a.png"), None);
    assert_eq!(normalize_image_url("   "), None);
    assert_eq!(image_bounds(80, 20), (76, 20));
    assert_eq!(image_bounds(10, 2), (10, 5));
}

#[test]
fn snippets_lose_markup() {
    assert_eq!(
        clean_snippet("the <span class=\"searchmatch\">cat</span> &quot;sat&quot; &amp; slept"),
        "the cat \"sat\" & slept"
    );
}

#[test]
fn replace_and_utf8_length() {
    let s = to_chars("aaa");
    assert_eq!(replace_str(&s, "aa", "b").into_iter().collect::<String>(), "ba");
    assert!(utf8_len_exceeds(&to_chars("héll"), 4));
    assert!(!utf8_len_exceeds(&to_chars("héll"), 5));
}
