use media_downloader::grouping::deduplicate_media;
use media_downloader::links::discover_post_links;
use media_downloader::media_utils::extract_video_posters;
use media_downloader::models::{MediaDimensions, MediaItem, MediaType};
use media_downloader::page::{extract_embedded_players, extract_post_text, extract_published_time, extract_tags};
use media_downloader::scrape::{
    assemble_scraped_page, check_response, scrape_candidates, ProbedImageMeta, ScrapeError,
};
use media_downloader::sniff::{assemble_sniffed_page, SniffError};

const PAGE: &str = "https://www.example.com/gallery";

const HTML: &str = r#"<html><head><title> My Gallery </title>
<meta name="description" content="A day at the beach">
<meta property="og:image" content="/img/cover.jpg">
<link rel="next" href="/gallery?page=2">
</head><body>
<time datetime="2024-05-01T10:00:00Z">May 1</time>
<video poster="/img/clip_poster.jpg" src="https://cdn.example.com/v/clip.mp4"></video>
<img src="/img/big.jpg">
<img data-src="https://cdn.example.com/img/small.png">
<a href="/tag/Beach">beach</a>
<a href="/post/123">post</a>
<a href="/post/123">again</a>
<a href="https://other.com/post/9">elsewhere</a>
<a href="/login">login</a>
<iframe src="https://www.youtube.com/embed/xyz"></iframe>
</body></html>"#;

fn probe(dims: Option<(usize, usize)>, mime: Option<&str>, size: Option<u64>) -> ProbedImageMeta {
    ProbedImageMeta {
        dimensions: dims.map(|(width, height)| MediaDimensions { width, height }),
        content_type: mime.map(|m| m.to_string()),
        file_size_bytes: size,
    }
}

#[test]
fn page_fields_from_markup() {
    assert_eq!(extract_post_text(HTML).as_deref(), Some("A day at the beach"));
    assert_eq!(extract_published_time(HTML).as_deref(), Some("2024-05-01T10:00:00Z"));
    assert_eq!(extract_tags(HTML), vec!["beach".to_string()]);
    assert_eq!(extract_embedded_players(PAGE, HTML), vec!["https://www.youtube.com/embed/xyz".to_string()]);
    assert_eq!(discover_post_links(PAGE, HTML), vec!["https://www.example.com/post/123".to_string()]);
    assert_eq!(
        extract_video_posters(PAGE, HTML),
        vec![
            "https://www.example.com/img/clip_poster.jpg".to_string(),
            "https://www.example.com/img/cover.jpg".to_string(),
        ]
    );
}

#[test]
fn candidates_of_a_page() {
    let c = scrape_candidates(PAGE, HTML);
    assert_eq!(c.title, "My Gallery");
    assert_eq!(c.videos, vec!["https://cdn.example.com/v/clip.mp4".to_string()]);
    assert_eq!(
        c.images,
        vec![
            "https://cdn.example.com/img/small.png".to_string(),
            "https://www.example.com/img/big.jpg".to_string(),
            "https://www.youtube.com/embed/xyz".to_string(),
        ]
    );
}

#[test]
fn scraped_page_assembly() {
    let c = scrape_candidates(PAGE, HTML);
    let probes = vec![
        (c.images[0].clone(), probe(Some((100, 100)), Some("image/png"), Some(5_000))),
        (c.images[1].clone(), probe(Some((1200, 800)), None, Some(500_000))),
        (c.images[2].clone(), probe(None, Some("text/html"), Some(0))),
    ];
    let meta = assemble_scraped_page(PAGE, HTML, &c.title, &c.videos, &probes).unwrap();
    assert_eq!(meta.platform, "example");
    assert_eq!(meta.author, "www.example.com");
    assert_eq!(meta.caption, "My Gallery");
    assert_eq!(meta.post_text.as_deref(), Some("A day at the beach"));
    assert_eq!(meta.published_at.as_deref(), Some("2024-05-01T10:00:00Z"));
    assert_eq!(meta.tags, vec!["beach".to_string()]);
    assert_eq!(meta.next_page_url.as_deref(), Some("https://www.example.com/gallery?page=2"));
    assert_eq!(meta.discovered_post_urls, vec!["https://www.example.com/post/123".to_string()]);
    assert_eq!(meta.embedded_player_urls, vec!["https://www.youtube.com/embed/xyz".to_string()]);
    assert_eq!(meta.items.len(), 2);

    let v = &meta.items[0];
    assert_eq!(v.media_type, MediaType::Video);
    assert_eq!(v.mime_type, "video/mp4");
    assert_eq!(v.high_res_url, "https://cdn.example.com/v/clip.mp4");
    assert_eq!(v.thumbnail_url.as_deref(), Some("https://www.example.com/img/clip_poster.jpg"));
    assert_eq!(v.referer_required.as_deref(), Some(PAGE));

    let img = &meta.items[1];
    assert_eq!(img.media_type, MediaType::Image);
    assert_eq!(img.mime_type, "image/jpeg");
    assert_eq!(img.high_res_url, "https://www.example.com/img/big.jpg");
    assert_eq!(img.dimensions, Some(MediaDimensions { width: 1200, height: 800 }));
    assert_eq!(img.file_size_bytes, Some(500_000));
    assert_eq!(img.thumbnail_url.as_deref(), Some("https://cdn.example.com/img/small.png"));
    assert_eq!(img.variants.len(), 2);
    assert_eq!(img.variants[0].label.as_deref(), Some("1200x800"));
    assert_eq!(img.variants[1].url, "https://cdn.example.com/img/small.png");
    assert_eq!(img.variants[1].label.as_deref(), Some("100x100"));
}

#[test]
fn page_without_media_is_refused() {
    let r = assemble_scraped_page(PAGE, "<p>nothing</p>", "web_media", &vec![], &vec![]);
    assert!(matches!(r, Err(ScrapeError::NoMedia)));
    let tiny = vec![("https://e.com/pixel.png".to_string(), probe(Some((1, 1)), None, Some(40)))];
    let r = assemble_scraped_page(PAGE, "<p>nothing</p>", "web_media", &vec![], &tiny);
    assert!(matches!(r, Err(ScrapeError::NoMedia)));
}

#[test]
fn sniffed_page_prefers_master_playlist() {
    let videos = vec!["https://e.com/v/a.mp4".to_string(), "https://e.com/hls/master.m3u8".to_string()];
    let probes = vec![("https://e.com/i/p.webp".to_string(), probe(Some((640, 480)), None, Some(9)))];
    let meta =
        assemble_sniffed_page("https://e.com/watch/1", None, Some("https://e.com/poster.jpg".to_string()), &videos, &probes)
            .unwrap();
    assert_eq!(meta.platform, "e.com");
    assert_eq!(meta.caption, "web_stream");
    assert_eq!(meta.items.len(), 2);
    assert_eq!(meta.items[0].high_res_url, "https://e.com/hls/master.m3u8");
    assert_eq!(meta.items[0].mime_type, "application/x-mpegURL");
    assert_eq!(meta.items[0].thumbnail_url.as_deref(), Some("https://e.com/poster.jpg"));
    assert_eq!(meta.items[1].mime_type, "image/webp");
    assert_eq!(meta.items[1].dimensions, Some(MediaDimensions { width: 640, height: 480 }));

    let both = assemble_sniffed_page("https://e.com/watch/1", Some("T".to_string()), None, &videos[..1].to_vec(), &vec![])
        .unwrap();
    assert_eq!(both.caption, "T");
    assert_eq!(both.items.len(), 1);
    assert_eq!(both.items[0].high_res_url, "https://e.com/v/a.mp4");

    let none = assemble_sniffed_page("https://e.com/watch/1", None, None, &vec![], &vec![]);
    assert!(matches!(none, Err(SniffError::NothingCaptured)));
}

#[test]
fn merged_group_keeps_each_rendition_once() {
    let a = MediaItem::new(
        MediaType::Image,
        "image/jpeg",
        Some(MediaDimensions { width: 640, height: 480 }),
        None,
        "https://e.com/p/photo_640.jpg",
        None,
        None,
        None,
        None,
        "https://e.com/p/photo_640.jpg",
    );
    let b = MediaItem::new(
        MediaType::Image,
        "image/jpeg",
        Some(MediaDimensions { width: 640, height: 480 }),
        Some(10),
        "https://e.com/p/photo_640.jpg",
        None,
        None,
        None,
        None,
        "https://e.com/p/photo_640.jpg",
    );
    let out = deduplicate_media(vec![a, b]);
    assert_eq!(out.len(), 1);
    assert_eq!(out[0].variants.len(), 1);
    assert_eq!(out[0].file_size_bytes, Some(10));
}

#[test]
fn page_responses_are_gated_by_status() {
    assert_eq!(check_response(200), Ok(()));
    assert_eq!(check_response(299), Ok(()));
    assert_eq!(check_response(403), Err(ScrapeError::Blocked(403)));
    assert_eq!(check_response(503), Err(ScrapeError::Blocked(503)));
    assert_eq!(check_response(404), Err(ScrapeError::HttpFailure(404)));
    assert_eq!(check_response(301), Err(ScrapeError::HttpFailure(301)));
    assert_eq!(check_response(199), Err(ScrapeError::HttpFailure(199)));
}
