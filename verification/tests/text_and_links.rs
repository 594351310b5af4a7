use media_downloader::links::{discover_next_page, normalize_scraped_url, resolve_relative_url};
use media_downloader::page::extract_hashtags_from_text;

#[test]
fn hashtags_are_distinct_ignoring_case() {
    let tags = extract_hashtags_from_text("Sunset #Beach, #beach #sea! # #...");
    assert_eq!(tags, vec!["Beach".to_string(), "sea".to_string()]);
}

#[test]
fn scraped_url_escapes_are_undone() {
    assert_eq!(
        normalize_scraped_url("\"https:\\/\\/cdn.example.com\\/a.jpg?x=1&amp;y=2\""),
        "https://cdn.example.com/a.jpg?x=1&y=2"
    );
}

#[test]
fn relative_links_resolve_against_the_page() {
    assert_eq!(
        resolve_relative_url("https://example.com/gallery/page.html", "img/a.png"),
        "https://example.com/gallery/img/a.png"
    );
    assert_eq!(
        resolve_relative_url("http://example.com/", "//cdn.example.com/b.png"),
        "http://cdn.example.com/b.png"
    );
    assert_eq!(
        resolve_relative_url("https://example.com/", "https://other.org/c.png"),
        "https://other.org/c.png"
    );
}

#[test]
fn next_page_from_link_rel() {
    let html = r#"<head><link rel="next" href="/list?page=3"></head>"#;
    assert_eq!(
        discover_next_page("https://example.com/list?page=2", html),
        Some("https://example.com/list?page=3".to_string())
    );
}

#[test]
fn next_page_from_page_number() {
    let html = "<a href='?page=3'>3</a>";
    assert_eq!(
        discover_next_page("https://example.com/list?q=cats&page=2", html),
        Some("https://example.com/list?q=cats&page=3".to_string())
    );
    assert_eq!(discover_next_page("https://example.com/list?page=2", "no links"), None);
}
