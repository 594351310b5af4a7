use media_downloader::backup::{backup_candidates, remote_base_of, BackupRow};
use media_downloader::config::DownloaderConfig;
use media_downloader::inject::{
    asset_fetch_plan, download_file_name, exif_date_of, metadata_target, tag_line_of, video_metadata_flags_of,
    video_tagging_args, AssetFetch, MediaMetadataPayload, MetadataTarget,
};
use media_downloader::models::{MediaDimensions, MediaType};
use media_downloader::processing::{tagger_threads, ImageLoader, ImageProcessor, TagInfo};
use media_downloader::records::{BackupRepo, IngestionRepo, TagRepo};
use media_downloader::scrape::{extract_site_name, page_host_name, probe_metadata};
use media_downloader::sniff::{SniffState, MASTER_SETTLE_MS, POLL_MS, VIDEO_SETTLE_MS};
use media_downloader::tagging::{lookup_tag_row, IngestionTagInput, FULL_CONFIDENCE_RANK};

fn row(asset: &str, user: &str, folder: &str, file: &str) -> BackupRow {
    BackupRow {
        asset_id: asset.to_string(),
        user_id: "u1".to_string(),
        username: user.to_string(),
        disk_rel_path: format!("originals/{file}"),
        folder_path: folder.to_string(),
        file_name: file.to_string(),
        sha256: "abc".to_string(),
        is_deleted: false,
    }
}

#[test]
fn duplicate_remote_paths_get_numbered() {
    let mut seen = vec!["a/b.jpg".to_string()];
    assert_eq!(BackupRepo::deduplicate_path("a/b.jpg", &mut seen), "a/b_1.jpg");
    assert_eq!(BackupRepo::deduplicate_path("a/b.jpg", &mut seen), "a/b_2.jpg");
    assert_eq!(BackupRepo::deduplicate_path("c.png", &mut seen), "c.png");
    assert_eq!(seen, vec!["a/b.jpg", "a/b_1.jpg", "a/b_2.jpg", "c.png"]);
    let mut plain = vec!["noext".to_string()];
    assert_eq!(BackupRepo::deduplicate_path("noext", &mut plain), "noext_1");
}

#[test]
fn remote_paths_of_backup_rows() {
    assert_eq!(remote_base_of("ann", "/trips/2024/", "x.jpg"), "users/ann/trips/2024/x.jpg");
    assert_eq!(remote_base_of("ann", "root", "x.jpg"), "users/ann/x.jpg");
    assert_eq!(remote_base_of("ann", "", "x.jpg"), "users/ann/x.jpg");
    let rows = vec![row("1", "ann", "root", "x.jpg"), row("2", "ann", "/", "x.jpg"), row("3", "bob", "root", "x.jpg")];
    let c = backup_candidates(&rows);
    assert_eq!(c.len(), 3);
    assert_eq!(c[0].suggested_remote_path, "users/ann/x.jpg");
    assert_eq!(c[1].suggested_remote_path, "users/ann/x_1.jpg");
    assert_eq!(c[2].suggested_remote_path, "users/bob/x.jpg");
    assert_eq!(c[1].asset_id, "2");
    assert_eq!(c[1].sha256, "abc");
}

#[test]
fn tags_merge_by_trimmed_lowercase_key() {
    let tags = vec![
        IngestionTagInput::new_ai(" Cat ", 100),
        IngestionTagInput::new_ai("dog", 50),
        IngestionTagInput::new_ai("CAT", 200),
        IngestionTagInput::new_ai("   ", 900),
        IngestionTagInput::new_ai("Dog", 10),
    ];
    let kept = TagRepo::merge_tags(&tags);
    assert_eq!(kept.len(), 2);
    assert_eq!(kept[0].input, 2);
    assert_eq!(kept[0].name, "CAT");
    assert_eq!(kept[0].key, "cat");
    assert_eq!(kept[1].input, 1);
    assert_eq!(kept[1].name, "dog");
    assert_eq!(TagRepo::search_terms(&kept), "CAT dog");
}

#[test]
fn more_confident_tag_keeps_its_offered_name() {
    let tags = vec![IngestionTagInput::new_ai("cat", 50), IngestionTagInput::new_ai(" Cat ", 90)];
    let kept = TagRepo::merge_tags(&tags);
    assert_eq!(kept.len(), 1);
    assert_eq!(kept[0].input, 1);
    assert_eq!(kept[0].name, " Cat ");
    assert_eq!(kept[0].key, "cat");
    let rows = vec![(5i64, "cat".to_string())];
    let links = TagRepo::link_kept_tags(&kept, &tags, &rows);
    assert_eq!(links.len(), 0);
}

#[test]
fn tag_constructors_and_links() {
    let h = IngestionTagInput::new_hashtag("sunset");
    assert_eq!(h.confidence_rank, FULL_CONFIDENCE_RANK);
    assert_eq!(h.category, 1);
    assert_eq!(h.source, "scraped");
    let a = IngestionTagInput::new_author("ann");
    assert_eq!(a.category, 2);
    let m = IngestionTagInput::new_ai("sky", 7);
    assert_eq!(m.source, "model");
    assert_eq!(m.category, 0);

    let rows = vec![(10i64, "Sunset".to_string()), (11i64, "sky".to_string()), (12i64, "SKY".to_string())];
    assert_eq!(lookup_tag_row(&rows, "sky"), Some(12));
    assert_eq!(lookup_tag_row(&rows, "moon"), None);
    let tags = vec![h, m, IngestionTagInput::new_ai("moon", 3)];
    let kept = TagRepo::merge_tags(&tags);
    let links = TagRepo::link_kept_tags(&kept, &tags, &rows);
    assert_eq!(links.len(), 2);
    assert_eq!(links[0].tag_id, 10);
    assert_eq!(links[0].source, "SCRAPE");
    assert_eq!(links[1].tag_id, 12);
    assert_eq!(links[1].input, 1);
    assert_eq!(links[1].source, "AI");
}

#[test]
fn ingestion_people_and_model_tags() {
    let people = vec![
        ("p1".to_string(), "face1".to_string()),
        ("p2".to_string(), "  ".to_string()),
        ("p3".to_string(), String::new()),
    ];
    assert_eq!(IngestionRepo::cover_backfills(&people, true), vec![("p1".to_string(), "face1".to_string())]);
    assert_eq!(IngestionRepo::cover_backfills(&people, false).len(), 2);
    let ids = vec![" p1 ".to_string(), "".to_string(), "p2".to_string()];
    assert_eq!(IngestionRepo::referenced_person_ids(&ids), vec!["p1".to_string(), "p2".to_string()]);
    let existing = vec!["p1".to_string()];
    assert_eq!(IngestionRepo::face_person(" p1 ", Some(&existing)), Some(" p1 ".to_string()));
    assert_eq!(IngestionRepo::face_person("p9", Some(&existing)), None);
    assert_eq!(IngestionRepo::face_person("p9", None), Some("p9".to_string()));
    assert_eq!(IngestionRepo::face_person("  ", None), None);
    let names = vec!["Sky".to_string(), "moon".to_string(), "SUN".to_string()];
    let rows = vec![(5i64, "sky".to_string()), (6i64, "sun".to_string())];
    assert_eq!(IngestionRepo::model_tag_links(&names, &rows), vec![(0usize, 5i64), (2usize, 6i64)]);
}

#[test]
fn metadata_targets_by_extension() {
    assert_eq!(metadata_target("x.JPG"), MetadataTarget::ImageExif);
    assert_eq!(metadata_target("/tmp/a.webp"), MetadataTarget::ImageExif);
    assert_eq!(metadata_target("clip.MOV"), MetadataTarget::VideoContainer);
    assert_eq!(metadata_target("anim.gif"), MetadataTarget::Untouched);
    assert_eq!(metadata_target("README"), MetadataTarget::Untouched);
}

#[test]
fn exif_dates_and_tag_lines() {
    assert_eq!(exif_date_of("2024-01-02T03:04:05.123Z"), "2024:01:02 03:04:05");
    assert_eq!(exif_date_of("2024-01-02T03:04:05Z"), "2024:01:02 03:04:05");
    let tags = vec!["sun".to_string(), "sea".to_string()];
    assert_eq!(tag_line_of(&tags), "sun, sea");
    assert_eq!(tag_line_of(&[]), "");
}

#[test]
fn ffmpeg_tagging_arguments() {
    let tags = vec!["sun".to_string(), "sea".to_string()];
    let meta = MediaMetadataPayload {
        author: Some("ann"),
        caption: None,
        source_url: Some("https://e.com/p/1"),
        tags: &tags,
        published_at: Some("2024-01-02T03:04:05Z"),
    };
    let flags = video_metadata_flags_of(&meta);
    assert_eq!(
        flags,
        vec![
            "-metadata", "artist=ann", "-metadata", "author=ann", "-metadata", "synopsis=https://e.com/p/1",
            "-metadata", "keywords=sun, sea", "-metadata", "genre=sun, sea", "-metadata",
            "creation_time=2024-01-02T03:04:05Z",
        ]
    );
    let empty = MediaMetadataPayload::default();
    let args = video_tagging_args("in.mp4", "out.mp4", &empty);
    assert_eq!(args, vec!["-y", "-i", "in.mp4", "-c", "copy", "-movflags", "+faststart", "out.mp4"]);
}

#[test]
fn raw_asset_fetch_plans() {
    match asset_fetch_plan("https://v.redd.it/x/DASH_720.mp4", Some("https://v.redd.it/x/DASH_AUDIO_128.mp4"), "video") {
        AssetFetch::RemuxWithAudio(c) => assert_eq!(
            c,
            vec![
                "https://v.redd.it/x/DASH_AUDIO_128.mp4",
                "https://v.redd.it/x/DASH_audio.mp4",
                "https://v.redd.it/x/DASH_AUDIO_64.mp4",
                "https://v.redd.it/x/CMAF_AUDIO_128.mp4",
            ]
        ),
        other => panic!("unexpected plan {other:?}"),
    }
    match asset_fetch_plan("https://v.redd.it/x/CMAF_720.mp4", Some("https://v.redd.it/x/CMAF_AUDIO_128.mp4"), "video") {
        AssetFetch::RemuxWithAudio(c) => {
            assert_eq!(c[1], "https://v.redd.it/x/CMAF_audio.mp4");
            assert_eq!(c[3], "https://v.redd.it/x/DASH_AUDIO_128.mp4");
        }
        other => panic!("unexpected plan {other:?}"),
    }
    assert!(matches!(asset_fetch_plan("https://e.com/master.m3u8", None, "video"), AssetFetch::RemuxHls));
    assert!(matches!(asset_fetch_plan("https://e.com/v.mp4", None, "video"), AssetFetch::Direct));
    assert!(matches!(asset_fetch_plan("https://e.com/a.m3u8", Some("x"), "image"), AssetFetch::Direct));
}

#[test]
fn download_names() {
    assert_eq!(download_file_name("reddit", "ann", 0, MediaType::Video, "https://e.com/v"), "reddit_ann_1.mp4");
    assert_eq!(download_file_name("web", "site", 9, MediaType::Image, "https://e.com/a.PNG.webp"), "web_site_10.webp");
    assert_eq!(download_file_name("web", "site", 2, MediaType::Image, "https://e.com/a.gif"), "web_site_3.gif");
    assert_eq!(download_file_name("web", "site", 2, MediaType::Image, "https://e.com/a"), "web_site_3.jpg");
}

#[test]
fn image_loaders_and_tag_vocabulary() {
    assert_eq!(ImageProcessor::loader_for("IMG_1.HEIC"), ImageLoader::Heic);
    assert_eq!(ImageProcessor::loader_for("a.jpeg"), ImageLoader::RasterWithExif);
    assert_eq!(ImageProcessor::loader_for("a.png"), ImageLoader::Raster);
    assert_eq!(ImageProcessor::loader_for("noext"), ImageLoader::Raster);
    let t = TagInfo::from_record(&vec!["1".to_string(), "long_hair".to_string(), "4".to_string()]).unwrap();
    assert_eq!(t.name, "long hair");
    assert_eq!(t.category, 4);
    let bad = TagInfo::from_record(&vec!["1".to_string(), "x".to_string(), "abc".to_string()]).unwrap();
    assert_eq!(bad.category, 0);
    assert!(TagInfo::from_record(&vec!["1".to_string(), "x".to_string()]).is_none());
    assert_eq!(tagger_threads(Some(16)), 8);
    assert_eq!(tagger_threads(Some(4)), 3);
    assert_eq!(tagger_threads(Some(1)), 1);
    assert_eq!(tagger_threads(Some(0)), 1);
    assert_eq!(tagger_threads(None), 4);
}

#[test]
fn tag_vocabulary_is_read_from_csv() {
    let csv = b"tag_id,name,category,count\n1,long_hair,0,10\n2,\"a,b\",4,3\n3,safe,x,1\n".to_vec();
    let v = TagInfo::vocabulary(&csv).unwrap();
    assert_eq!(v.len(), 3);
    assert_eq!(v[0].name, "long hair");
    assert_eq!(v[0].category, 0);
    assert_eq!(v[1].name, "a,b");
    assert_eq!(v[1].category, 4);
    assert_eq!(v[2].name, "safe");
    assert_eq!(v[2].category, 0);
    let short = b"id,name\n1,x\n".to_vec();
    assert_eq!(TagInfo::vocabulary(&short).unwrap().len(), 0);
    let ragged = b"id,name,category\n1,x,0\n2,y\n".to_vec();
    assert!(TagInfo::vocabulary(&ragged).is_none());
    let not_utf8 = vec![b'a', b',', b'b', b',', b'c', b'\n', b'1', b',', 0xff, 0xfe, b',', b'0', b'\n'];
    assert!(TagInfo::vocabulary(&not_utf8).is_none());
}

fn png_header(width: u32, height: u32) -> Vec<u8> {
    let mut b = vec![0x89, b'P', b'N', b'G', 0x0D, 0x0A, 0x1A, 0x0A, 0, 0, 0, 13, b'I', b'H', b'D', b'R'];
    b.extend_from_slice(&width.to_be_bytes());
    b.extend_from_slice(&height.to_be_bytes());
    b.extend_from_slice(&[8, 6, 0, 0, 0, 0, 0, 0, 0]);
    b
}

#[test]
fn image_probes_from_partial_responses() {
    let p = probe_metadata(
        Some("image/png; charset=binary".to_string()),
        Some("bytes 0-8191/123456".to_string()),
        Some("8192".to_string()),
        Some(png_header(300, 200)),
    );
    assert_eq!(p.dimensions, Some(MediaDimensions { width: 300, height: 200 }));
    assert_eq!(p.content_type.as_deref(), Some("image/png"));
    assert_eq!(p.file_size_bytes, Some(123_456));
    let q = probe_metadata(None, None, Some(" 512 ".to_string()), Some(vec![1, 2, 3]));
    assert_eq!(q.dimensions, None);
    assert_eq!(q.content_type, None);
    assert_eq!(q.file_size_bytes, Some(512));
}

#[test]
fn site_names_from_hosts() {
    assert_eq!(extract_site_name("www.example.com"), "example");
    assert_eq!(extract_site_name("cdn.images.example.co"), "example");
    assert_eq!(extract_site_name("localhost"), "localhost");
    assert_eq!(page_host_name("https://www.example.com/a/b"), "www.example.com");
    assert_eq!(page_host_name("not a url"), "web");
}

#[test]
fn sniffing_settles_after_videos() {
    let mut st = SniffState::new();
    assert!(st.is_empty());
    assert_eq!(st.next_wait(1000, 20_000), Some(POLL_MS));
    assert_eq!(st.next_wait(19_800, 20_000), Some(200));
    assert_eq!(st.next_wait(20_000, 20_000), None);
    st.observe_request("https://e.com/style.css", 1000);
    assert!(st.is_empty());
    st.observe_request("https://e.com/pic.jpg", 1000);
    assert_eq!(st.images, vec!["https://e.com/pic.jpg".to_string()]);
    assert_eq!(st.settle_at_ms, None);
    st.observe_request("https://e.com/clip.mp4", 2000);
    assert_eq!(st.settle_at_ms, Some(2000 + VIDEO_SETTLE_MS));
    st.observe_request("https://e.com/clip.mp4", 3000);
    assert_eq!(st.videos.len(), 1);
    st.observe_request("https://e.com/hls/master.m3u8", 3000);
    assert_eq!(st.settle_at_ms, Some(3000 + MASTER_SETTLE_MS));
    assert_eq!(st.next_wait(4400, 20_000), Some(100));
    assert_eq!(st.next_wait(4500, 20_000), None);
}

#[test]
fn instagram_auth_needs_both_values() {
    let c = DownloaderConfig::new(None, Some("sessionid=1".to_string()), Some("tok".to_string()));
    assert!(c.has_instagram_auth());
    let blank = DownloaderConfig::new(None, Some("sessionid=1".to_string()), Some("  ".to_string()));
    assert!(!blank.has_instagram_auth());
    assert!(!DownloaderConfig::new(None, None, None).has_instagram_auth());
}
