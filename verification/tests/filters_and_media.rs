use media_downloader::dimensions::{is_valid_size, DimensionFilterConfig};
use media_downloader::download::{disk_strategy, DownloadRequest, DownloadStrategy};
use media_downloader::filter::apply_default_filters;
use media_downloader::grouping::deduplicate_media;
use media_downloader::hls::{candidate_master_urls, parse_m3u8_variants, source_variant, variants_from_playlist};
use media_downloader::media_utils::{
    correlate_video_thumbnail, infer_image_mime, infer_video_mime, is_image_candidate, is_video_url,
};
use media_downloader::models::{ExtractedMediaMetadata, MediaDimensions, MediaItem, MediaType, MediaVariant};
use media_downloader::routing::{is_video_watch_url, normalize_item_qualities, route, Route};
use media_downloader::rules::{is_junk_item, is_stream_segment_or_ad};
use media_downloader::storage::StorageService;
use media_downloader::video::VideoProcessor;

fn image(url: &str, w: usize, h: usize) -> MediaItem {
    MediaItem::new(
        MediaType::Image,
        "image/jpeg",
        Some(MediaDimensions { width: w, height: h }),
        None,
        url,
        None,
        None,
        None,
        None,
        url,
    )
}

fn video(url: &str, mime: &str) -> MediaItem {
    MediaItem::new(MediaType::Video, mime, None, None, url, None, None, None, None, url)
}

fn metadata(items: Vec<MediaItem>) -> ExtractedMediaMetadata {
    ExtractedMediaMetadata {
        platform: "web".to_string(),
        author: "someone".to_string(),
        caption: "a page".to_string(),
        post_text: None,
        published_at: None,
        tags: vec![],
        items,
        next_page_url: None,
        discovered_post_urls: vec![],
        embedded_player_urls: vec![],
    }
}

#[test]
fn stream_segments_and_ad_hosts_are_rejected() {
    assert!(is_stream_segment_or_ad("https://cdn.example.com/live/chunk_001.TS?token=1"));
    assert!(is_stream_segment_or_ad("https://cdn.example.com/v/segment-12/a.mp4"));
    assert!(is_stream_segment_or_ad("https://ad.doubleclick.net/banner.jpg"));
    assert!(is_stream_segment_or_ad("https://example.com/icons/logo.svg"));
    assert!(!is_stream_segment_or_ad("https://cdn.example.com/v/master.m3u8"));
    assert!(!is_stream_segment_or_ad("https://example.com/photos/cat.jpg"));
}

#[test]
fn junk_items_by_protocol_mime_and_path() {
    assert!(!is_junk_item(&image("https://example.com/photos/cat.jpg", 800, 600)));
    assert!(is_junk_item(&image("javascript:alert(1)", 800, 600)));
    assert!(is_junk_item(&image("data:image/png;base64,AAAA", 800, 600)));
    assert!(is_junk_item(&image("https://example.com/favicon.png", 800, 600)));
    assert!(is_junk_item(&image("https://example.com/img/pixel.gif", 800, 600)));
    let mut html = image("https://example.com/photos/cat.jpg", 800, 600);
    html.mime_type = "text/html".to_string();
    assert!(is_junk_item(&html));
    let mut octet = image("https://example.com/photos/cat.jpg", 800, 600);
    octet.mime_type = "application/octet-stream".to_string();
    assert!(is_junk_item(&octet));
    assert!(!is_junk_item(&video("HTTPS://EXAMPLE.COM/v/master.m3u8", "application/x-mpegURL")));
}

#[test]
fn default_dimension_thresholds() {
    let c = DimensionFilterConfig::default();
    assert_eq!(c.min_width, 200);
    assert_eq!(c.min_height, 200);
    assert_eq!(c.min_area, 60_000);
    assert_eq!(c.min_aspect_ratio_milli, 150);
    assert_eq!(c.max_aspect_ratio_milli, 6500);
    assert!(c.keep_unprobed);
    assert!(is_valid_size(&image("https://e.com/a.jpg", 400, 400), &c));
    assert!(is_valid_size(&image("https://e.com/a.jpg", 200, 300), &c));
    assert!(!is_valid_size(&image("https://e.com/a.jpg", 199, 400), &c));
    assert!(!is_valid_size(&image("https://e.com/a.jpg", 2000, 200), &c));
    assert!(!is_valid_size(&image("https://e.com/a.jpg", 200, 1400), &c));
    let mut unknown = image("https://e.com/a.jpg", 1, 1);
    unknown.dimensions = None;
    assert!(is_valid_size(&unknown, &c));
    let strict = DimensionFilterConfig { keep_unprobed: false, ..DimensionFilterConfig::default() };
    assert!(!is_valid_size(&unknown, &strict));
    let mut small_video = video("https://e.com/v.mp4", "video/mp4");
    small_video.dimensions = Some(MediaDimensions { width: 100, height: 100 });
    assert!(!is_valid_size(&small_video, &c));
    assert!(is_valid_size(&video("https://e.com/v.mp4", "video/mp4"), &c));
}

#[test]
fn default_filters_drop_junk_and_merge_sizes() {
    let mut meta = metadata(vec![
        image("https://example.com/a/photo_640.jpg", 640, 480),
        image("https://example.com/favicon.ico", 640, 480),
        video("https://example.com/clip.mp4", "video/mp4"),
        image("https://example.com/a/photo_1280.jpg?x=1", 1280, 960),
        image("https://example.com/a/tiny.jpg", 50, 50),
    ]);
    let out = apply_default_filters(&mut meta);
    assert_eq!(out.items.len(), 2);
    let merged = &out.items[0];
    assert_eq!(merged.high_res_url, "https://example.com/a/photo_1280.jpg?x=1");
    assert_eq!(merged.variants.len(), 2);
    assert_eq!(merged.variants[0].url, "https://example.com/a/photo_640.jpg");
    assert_eq!(merged.variants[1].url, "https://example.com/a/photo_1280.jpg?x=1");
    assert_eq!(out.items[1].high_res_url, "https://example.com/clip.mp4");
    assert_eq!(out.author, "someone");
}

#[test]
fn hls_renditions_merge_into_best_stream() {
    let items = vec![
        video("https://cdn.example.com/s/720.m3u8", "application/x-mpegURL"),
        video("https://cdn.example.com/s/1080.m3u8", "application/x-mpegURL"),
        video("https://cdn.example.com/other.mp4", "video/mp4"),
    ];
    let out = deduplicate_media(items);
    assert_eq!(out.len(), 2);
    assert_eq!(out[0].high_res_url, "https://cdn.example.com/s/1080.m3u8");
    assert_eq!(out[0].variants.len(), 2);
    assert_eq!(out[0].variants[0].label.as_deref(), Some("720p"));
    assert_eq!(out[0].variants[1].label.as_deref(), Some("1080p"));
    assert_eq!(out[1].high_res_url, "https://cdn.example.com/other.mp4");
}

#[test]
fn audio_track_is_linked_to_merged_stream() {
    let items = vec![
        video("https://cdn.example.com/s/audio_en.m3u8", "application/x-mpegURL"),
        video("https://cdn.example.com/s/480.m3u8", "application/x-mpegURL"),
    ];
    let out = deduplicate_media(items);
    assert_eq!(out.len(), 1);
    assert_eq!(out[0].high_res_url, "https://cdn.example.com/s/480.m3u8");
    assert_eq!(out[0].audio_url.as_deref(), Some("https://cdn.example.com/s/audio_en.m3u8"));
    assert_eq!(out[0].variants[0].label.as_deref(), Some("Audio Track"));
}

#[test]
fn deduplicating_twice_changes_nothing() {
    let items = vec![
        video("https://cdn.example.com/s/audio_en.m3u8", "application/x-mpegURL"),
        image("https://example.com/a/photo_640.jpg", 640, 480),
        video("https://cdn.example.com/s/720.m3u8", "application/x-mpegURL"),
        image("https://example.com/a/photo_1280.jpg?x=1", 1280, 960),
        video("https://cdn.example.com/other.mp4", "video/mp4"),
        video("https://cdn.example.com/t/audio.m3u8", "application/x-mpegURL"),
        image("https://example.com/b.png", 10, 10),
    ];
    let once = deduplicate_media(items);
    let twice = deduplicate_media(once.clone());
    assert_eq!(once.len(), 5);
    assert_eq!(format!("{once:?}"), format!("{twice:?}"));
}

const MASTER: &str = "#EXTM3U\n\
#EXT-X-MEDIA:TYPE=AUDIO,GROUP-ID=\"aud\",URI=\"audio/en.m3u8\"\n\
#EXT-X-STREAM-INF:BANDWIDTH=2000000,RESOLUTION=1280x720,AUDIO=\"aud\"\n\
720/index.m3u8\n\
#EXT-X-STREAM-INF:BANDWIDTH=800000,RESOLUTION=640x360\n\
https://other.example.com/360.m3u8\n";

#[test]
fn master_playlist_renditions_in_bandwidth_order() {
    let vs = parse_m3u8_variants(MASTER, "https://cdn.example.com/v/master.m3u8");
    assert_eq!(vs.len(), 2);
    assert_eq!(vs[0].bandwidth, 800_000);
    assert_eq!(vs[0].resolution, "640x360");
    assert_eq!(vs[0].dimensions, Some(MediaDimensions { width: 640, height: 360 }));
    assert_eq!(vs[0].video_url, "https://other.example.com/360.m3u8");
    assert_eq!(vs[0].audio_url, None);
    assert_eq!(vs[1].bandwidth, 2_000_000);
    assert_eq!(vs[1].video_url, "https://cdn.example.com/v/720/index.m3u8");
    assert_eq!(vs[1].audio_url.as_deref(), Some("https://cdn.example.com/v/audio/en.m3u8"));
}

#[test]
fn master_playlist_candidates_and_fallback() {
    let c = candidate_master_urls("https://cdn.example.com/v/index.m3u8");
    assert_eq!(
        c,
        vec![
            "https://cdn.example.com/v/playlist.m3u8".to_string(),
            "https://cdn.example.com/v/master.m3u8".to_string(),
            "https://cdn.example.com/v.m3u8".to_string(),
            "https://cdn.example.com/v/index.m3u8".to_string(),
        ]
    );
    assert!(variants_from_playlist("#EXTM3U\n#EXTINF:4,\nseg.ts\n", "https://e.com/p.m3u8").is_none());
    let found = variants_from_playlist(MASTER, "https://cdn.example.com/v/master.m3u8").unwrap();
    assert_eq!(found.len(), 2);
    let src = source_variant("https://e.com/x.m3u8");
    assert_eq!(src.resolution, "Source");
    assert_eq!(src.bandwidth, 0);
    assert_eq!(src.video_url, "https://e.com/x.m3u8");
}

#[test]
fn links_are_routed_by_site() {
    assert_eq!(route("https://www.instagram.com/p/ABC123/"), Route::Instagram);
    assert_eq!(route("https://www.reddit.com/r/pics/comments/abc/title/"), Route::Reddit);
    assert_eq!(route("https://example.com/gallery"), Route::Generic);
    assert!(is_video_watch_url("https://example.com/Watch?v=1"));
    assert!(!is_video_watch_url("https://example.com/gallery"));
}

#[test]
fn qualities_are_normalized_from_variants() {
    let mut item = video("https://e.com/low.mp4", "video/mp4");
    item.variants = vec![
        MediaVariant {
            url: "https://e.com/mid.mp4".to_string(),
            dimensions: Some(MediaDimensions { width: 100, height: 100 }),
            file_size_bytes: None,
            label: None,
        },
        MediaVariant {
            url: "https://e.com/big.mp4".to_string(),
            dimensions: Some(MediaDimensions { width: 1000, height: 1000 }),
            file_size_bytes: Some(42),
            label: None,
        },
        MediaVariant { url: "https://e.com/unknown.mp4".to_string(), dimensions: None, file_size_bytes: None, label: None },
    ];
    let n = normalize_item_qualities(item);
    assert_eq!(n.high_res_url, "https://e.com/big.mp4");
    assert_eq!(n.dimensions, Some(MediaDimensions { width: 1000, height: 1000 }));
    assert_eq!(n.file_size_bytes, Some(42));
    assert_eq!(n.thumbnail_url.as_deref(), Some("https://e.com/unknown.mp4"));

    let mut bare = video("https://e.com/only.mp4", "video/mp4");
    bare.variants = vec![];
    let b = normalize_item_qualities(bare);
    assert_eq!(b.thumbnail_url.as_deref(), Some("https://e.com/only.mp4"));
}

#[test]
fn largest_rendition_always_becomes_the_main_url() {
    let mut item = video("https://e.com/main.mp4", "video/mp4");
    item.variants = vec![MediaVariant {
        url: "https://e.com/alt.mp4".to_string(),
        dimensions: None,
        file_size_bytes: Some(7),
        label: None,
    }];
    let n = normalize_item_qualities(item);
    assert_eq!(n.high_res_url, "https://e.com/alt.mp4");
    assert_eq!(n.file_size_bytes, Some(7));
    assert_eq!(n.dimensions, None);
    assert_eq!(n.thumbnail_url.as_deref(), Some("https://e.com/alt.mp4"));
}

#[test]
fn folder_paths_are_sanitized() {
    assert_eq!(StorageService::sanitize_folder_path("  /a/ ../ b //c/ "), "a/b/c");
    assert_eq!(StorageService::sanitize_folder_path(".."), "root");
    assert_eq!(StorageService::sanitize_folder_path("   "), "root");
    assert_eq!(StorageService::sanitize_folder_path("holidays/2024"), "holidays/2024");
}

#[test]
fn sanitizing_is_idempotent_and_blank_paths_are_root() {
    for raw in ["  /a/ ../ b //c/ ", "x", " / .. /  ", "", "a b/ c d ", "root", "\t/..//"] {
        let once = StorageService::sanitize_folder_path(raw);
        assert!(!once.is_empty());
        assert_eq!(StorageService::sanitize_folder_path(&once), once);
        if once != "root" {
            for seg in once.split('/') {
                assert!(!seg.is_empty() && seg != ".." && seg == seg.trim());
            }
        }
    }
    assert_eq!(StorageService::sanitize_folder_path(" / .. /  "), "root");
    assert_eq!(StorageService::sanitize_folder_path("\t/..//"), "root");
    assert_eq!(StorageService::sanitize_folder_path("a b/ c d "), "a b/c d");
}

#[test]
fn upload_dirs_and_disk_names() {
    assert_eq!(StorageService::resolve_upload_dir("/data", "u1", "a/b"), "/data/users/u1/originals/a/b");
    assert_eq!(StorageService::resolve_upload_dir("/data", "u1", "root"), "/data/users/u1/originals");
    assert_eq!(StorageService::resolve_upload_dir("/data", "u1", ""), "/data/users/u1/originals");
    assert_eq!(StorageService::generate_disk_filename("id1", "Photo.JPG"), "id1.jpg");
    assert_eq!(StorageService::generate_disk_filename("id2", "noext"), "id2.raw");
    assert_eq!(StorageService::generate_disk_filename("id3", ".bashrc"), "id3.raw");
    assert_eq!(StorageService::generate_disk_filename("id4", "archive.tar.GZ"), "id4.gz");
}

#[test]
fn video_pipeline_extensions_and_mimes() {
    assert!(VideoProcessor::is_video_or_anim("MP4"));
    assert!(VideoProcessor::is_video_or_anim("gif"));
    assert!(!VideoProcessor::is_video_or_anim("jpg"));
    assert_eq!(VideoProcessor::image_mime("heif"), "image/heic");
    assert_eq!(VideoProcessor::image_mime("png"), "image/png");
    assert_eq!(VideoProcessor::image_mime("bmp"), "image/jpeg");
    assert_eq!(VideoProcessor::video_mime("gif"), "image/gif");
    assert_eq!(VideoProcessor::video_mime("mov"), "video/quicktime");
    assert_eq!(VideoProcessor::video_mime("mkv"), "video/mp4");
    let d = VideoProcessor::derivative_names("abc", "ab/cd");
    assert_eq!(d.thumb_rel, "ab/cd/abc_thumb.webp");
    assert_eq!(d.motion_rel, "ab/cd/abc_motion.mp4");
    assert_eq!(d.preview_rel, "ab/cd/abc_preview.mp4");
}

#[test]
fn download_strategies() {
    let r = DownloadRequest::new("https://e.com/v.mp4", "/out", "a.mp4");
    assert_eq!(r.strategy(), DownloadStrategy::Direct);
    assert_eq!(r.target_path(), "/out/a.mp4");
    let muxed = r.clone().with_audio("https://e.com/a.mp4");
    assert_eq!(muxed.strategy(), DownloadStrategy::MuxDirect);
    let hls_audio = r.clone().with_audio("https://e.com/a.m3u8");
    assert_eq!(hls_audio.strategy(), DownloadStrategy::Hls);
    let refd = r.with_referer("https://e.com/page");
    assert_eq!(refd.referer.as_deref(), Some("https://e.com/page"));
    assert_eq!(DownloadRequest::new("https://e.com/master.m3u8", "/out", "b.mp4").strategy(), DownloadStrategy::Hls);
    assert_eq!(disk_strategy("https://e.com/v.mp4", None), DownloadStrategy::Direct);
    assert_eq!(disk_strategy("https://e.com/v.mp4", Some("https://e.com/a.mp4")), DownloadStrategy::MuxDirect);
    assert_eq!(disk_strategy("https://e.com/v.m3u8", None), DownloadStrategy::Hls);
}

#[test]
fn media_kinds_from_urls() {
    assert_eq!(infer_image_mime("https://e.com/A.PNG?x=1"), "image/png");
    assert_eq!(infer_image_mime("https://e.com/a.webp"), "image/webp");
    assert_eq!(infer_image_mime("https://e.com/a"), "image/jpeg");
    assert_eq!(infer_video_mime("https://e.com/v.m3u8"), "application/x-mpegURL");
    assert_eq!(infer_video_mime("https://e.com/v.webm"), "video/webm");
    assert_eq!(infer_video_mime("https://e.com/site.webmanifest"), "video/mp4");
    assert!(is_video_url("https://e.com/CLIP.MP4"));
    assert!(!is_video_url("https://e.com/clip.jpg"));
    assert!(is_image_candidate("https://e.com/Photo.JPEG?size=large"));
    assert!(!is_image_candidate("data:image/png;base64,AAAA"));
    assert!(!is_image_candidate("https://e.com/page.html"));
}

#[test]
fn thumbnails_follow_video_stem() {
    let cands = vec![
        "https://e.com/img/other.jpg".to_string(),
        "https://e.com/img/holiday2024_poster.jpg".to_string(),
        "https://e.com/img/holiday2024_small.jpg".to_string(),
    ];
    let m = correlate_video_thumbnail("https://e.com/v/holiday2024.mp4?x=1", &cands);
    assert_eq!(m.map(|s| s.as_str()), Some("https://e.com/img/holiday2024_poster.jpg"));
    assert!(correlate_video_thumbnail("https://e.com/v/ab.mp4", &cands).is_none());
}
