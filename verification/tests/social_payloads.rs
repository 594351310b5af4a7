use media_downloader::instagram::{clean_url, extract_shortcode, parse_graphql_node, parse_media_item, shortcode_to_id, ShortcodeError};
use media_downloader::instagram_pages::{
    feed_metadata, feed_request, highlight_ids, highlight_metadata, ig_route, mobile_post_metadata,
    numeric_id_from_profile_page, numeric_id_from_search, story_request, IgError, IgRoute,
};
use media_downloader::json::{JsonNumber, JsonValue};
use media_downloader::models::MediaType;
use media_downloader::reddit::{clean_url_str, dash_audio_url, json_endpoint_of, post_hls_url, reddit_post_metadata, RedditError};

fn s(x: &str) -> JsonValue {
    JsonValue::Str(x.to_string())
}

fn n(x: u64) -> JsonValue {
    JsonValue::Number(JsonNumber { as_u64: Some(x), as_i64: Some(x as i64), truncated: x as i64 })
}

fn arr(items: Vec<JsonValue>) -> JsonValue {
    JsonValue::Array(items)
}

fn obj(members: Vec<(&str, JsonValue)>) -> JsonValue {
    JsonValue::Object(members.into_iter().map(|(k, v)| (k.to_string(), v)).collect())
}

fn candidate(url: &str, w: u64, h: u64) -> JsonValue {
    obj(vec![("url", s(url)), ("width", n(w)), ("height", n(h))])
}

#[test]
fn json_pointer_follows_members_and_indices() {
    let v = obj(vec![("a/b", obj(vec![("list", arr(vec![n(1), n(2)]))])), ("m~n", n(7))]);
    assert_eq!(v.pointer("/a~1b/list/1").and_then(|x| x.as_u64()), Some(2));
    assert_eq!(v.pointer("/m~0n").and_then(|x| x.as_u64()), Some(7));
    assert!(v.pointer("/a~1b/list/01").is_none());
    assert!(v.pointer("a").is_none());
    assert!(v.pointer("").is_some());
}

#[test]
fn instagram_urls_are_unescaped() {
    assert_eq!(clean_url("https:\\/\\/x.cdn\\/a.jpg?x=1\\u0026y=2"), "https://x.cdn/a.jpg?x=1&y=2");
}

#[test]
fn shortcodes_come_from_post_urls() {
    assert_eq!(extract_shortcode("https://www.instagram.com/p/ABC123/?igsh=x"), Some("ABC123".to_string()));
    assert_eq!(extract_shortcode("https://www.instagram.com/reel/XyZ_9/"), Some("XyZ_9".to_string()));
    assert_eq!(extract_shortcode("https://www.instagram.com/someone/"), None);
}

#[test]
fn shortcodes_decode_as_base64_numbers() {
    assert_eq!(shortcode_to_id("B"), Ok(1));
    assert_eq!(shortcode_to_id("BA"), Ok(64));
    assert_eq!(shortcode_to_id("_"), Ok(63));
    assert_eq!(shortcode_to_id("A!"), Err(ShortcodeError::InvalidCharacter));
    assert_eq!(shortcode_to_id(&"_".repeat(23)), Err(ShortcodeError::Overflow));
}

#[test]
fn mobile_image_renditions_are_distinct_and_largest_first() {
    let item = obj(vec![
        ("media_type", n(1)),
        ("image_versions2", obj(vec![(
            "candidates",
            arr(vec![
                candidate("https://c/640.jpg", 640, 640),
                candidate("https://c/1080.jpg", 1080, 1080),
                candidate("https://c/640.jpg", 640, 640),
                candidate("https://c/150.jpg", 150, 150),
            ]),
        )])),
    ]);
    let m = parse_media_item(&item).expect("an item");
    assert_eq!(m.media_type, MediaType::Image);
    assert_eq!(m.high_res_url, "https://c/1080.jpg");
    assert_eq!(m.thumbnail_url.as_deref(), Some("https://c/150.jpg"));
    let urls: Vec<&str> = m.variants.iter().map(|v| v.url.as_str()).collect();
    assert_eq!(urls, vec!["https://c/1080.jpg", "https://c/640.jpg", "https://c/150.jpg"]);
    assert_eq!(m.variants[0].label.as_deref(), Some("1080w"));
    assert_eq!(m.referer_required.as_deref(), Some("https://www.instagram.com/"));
}

#[test]
fn mobile_video_takes_best_version() {
    let item = obj(vec![
        ("media_type", n(2)),
        ("image_versions2", obj(vec![("candidates", arr(vec![candidate("https://c/poster.jpg", 320, 320)]))])),
        (
            "video_versions",
            arr(vec![
                obj(vec![("url", s("https://v/480.mp4")), ("width", n(480)), ("height", n(854)), ("file_size", n(1000))]),
                obj(vec![("url", s("https://v/720.mp4")), ("width", n(720)), ("height", n(1280))]),
            ]),
        ),
    ]);
    let m = parse_media_item(&item).expect("a video");
    assert_eq!(m.media_type, MediaType::Video);
    assert_eq!(m.high_res_url, "https://v/720.mp4");
    assert_eq!(m.thumbnail_url.as_deref(), Some("https://c/poster.jpg"));
    assert_eq!(m.variants.len(), 2);
    assert_eq!(m.variants[1].label.as_deref(), Some("480x854"));
    assert_eq!(m.variants[1].file_size_bytes, Some(1000));
    assert!(parse_media_item(&obj(vec![("media_type", n(1))])).is_none());
}

#[test]
fn graphql_image_uses_display_resources() {
    let node = obj(vec![
        ("is_video", JsonValue::Bool(false)),
        ("display_url", s("https://d/display.jpg")),
        ("dimensions", obj(vec![("width", n(1080)), ("height", n(1350))])),
        (
            "display_resources",
            arr(vec![
                obj(vec![("src", s("https://d/1080.jpg")), ("config_width", n(1080)), ("config_height", n(1350))]),
                obj(vec![("src", s("https://d/640.jpg")), ("config_width", n(640)), ("config_height", n(800))]),
            ]),
        ),
    ]);
    let m = parse_graphql_node(&node).expect("an image");
    assert_eq!(m.high_res_url, "https://d/1080.jpg");
    assert_eq!(m.thumbnail_url.as_deref(), Some("https://d/640.jpg"));
    assert_eq!(m.variants[0].url, "https://d/640.jpg");
}

#[test]
fn instagram_pages_are_routed() {
    assert!(matches!(ig_route("https://www.instagram.com/stories/highlights/1789/"), Ok(IgRoute::Highlight)));
    assert!(matches!(ig_route("https://www.instagram.com/stories/someone/"), Ok(IgRoute::Story)));
    assert!(matches!(ig_route("https://www.instagram.com/p/CODE1/"), Ok(IgRoute::Post(ref c)) if c == "CODE1"));
    assert!(matches!(ig_route("https://www.instagram.com/p/"), Err(IgError::NoShortcode)));
    assert!(matches!(ig_route("https://www.instagram.com/someone/"), Ok(IgRoute::Profile)));
}

#[test]
fn mobile_post_metadata_reads_caption_and_time() {
    let item = obj(vec![
        ("user", obj(vec![("username", s("alice"))])),
        ("caption", obj(vec![("text", s("Morning #Coffee #coffee"))])),
        ("taken_at", n(1609459200)),
        ("image_versions2", obj(vec![("candidates", arr(vec![candidate("https://c/a.jpg", 100, 100)]))])),
    ]);
    let payload = obj(vec![("items", arr(vec![item]))]);
    let meta = mobile_post_metadata(&payload).expect("metadata");
    assert_eq!(meta.platform, "instagram");
    assert_eq!(meta.author, "alice");
    assert_eq!(meta.tags, vec!["Coffee".to_string()]);
    assert_eq!(meta.published_at.as_deref(), Some("2021-01-01T00:00:00+00:00"));
    assert_eq!(meta.items.len(), 1);
    assert_eq!(mobile_post_metadata(&obj(vec![("items", arr(vec![]))])).err(), Some(IgError::NoMediaItem));
    let empty = obj(vec![("items", arr(vec![obj(vec![])]))]);
    assert_eq!(mobile_post_metadata(&empty).err(), Some(IgError::NoParsedItems));
}

#[test]
fn feed_page_links_posts_and_next_page() {
    let raw = obj(vec![
        ("code", s("Xyz")),
        ("image_versions2", obj(vec![("candidates", arr(vec![candidate("https://c/f.jpg", 10, 10)]))])),
    ]);
    let payload = obj(vec![("items", arr(vec![raw])), ("next_max_id", s("42_1"))]);
    let meta = feed_metadata(&payload, "bob").expect("feed");
    assert_eq!(meta.discovered_post_urls, vec!["https://www.instagram.com/p/Xyz/".to_string()]);
    assert_eq!(meta.next_page_url.as_deref(), Some("https://www.instagram.com/bob/?max_id=42_1"));
    assert_eq!(meta.caption, "Profile grid feed for @bob");
    assert_eq!(feed_metadata(&obj(vec![]), "bob").err(), Some(IgError::NoFeedItems));
    assert_eq!(feed_metadata(&obj(vec![("items", arr(vec![]))]), "bob").err(), Some(IgError::EmptyFeed));
}

#[test]
fn feed_request_reads_user_and_max_id() {
    let (user, api) = feed_request("https://www.instagram.com/bob/?max_id=77").expect("a request");
    assert_eq!(user, "bob");
    assert_eq!(api, "https://www.instagram.com/api/v1/feed/user/bob/username/?count=12&max_id=77");
    assert_eq!(feed_request("https://www.instagram.com/explore/").err(), Some(IgError::NoUsername));
    assert_eq!(feed_request("not a url").err(), Some(IgError::InvalidUrl));
}

#[test]
fn story_urls_name_user_and_item() {
    assert_eq!(
        story_request("https://www.instagram.com/stories/carol/3141/?x=1"),
        Ok(("carol".to_string(), Some("3141".to_string())))
    );
    assert_eq!(story_request("https://www.instagram.com/stories/carol/"), Ok(("carol".to_string(), None)));
    assert_eq!(story_request("https://www.instagram.com/stories/").err(), Some(IgError::MissingStoryUsername));
    assert_eq!(story_request("https://www.instagram.com/carol/").err(), Some(IgError::InvalidStoryUrl));
}

#[test]
fn highlights_read_their_reel() {
    let (id, reel) = highlight_ids("https://www.instagram.com/stories/highlights/1789/?hl=en");
    assert_eq!(id, "1789");
    assert_eq!(reel, "highlight:1789");
    let payload = obj(vec![(
        "reels",
        obj(vec![(
            "highlight:1789",
            obj(vec![
                ("user", obj(vec![("username", s("dora"))])),
                (
                    "items",
                    arr(vec![obj(vec![(
                        "image_versions2",
                        obj(vec![("candidates", arr(vec![candidate("https://c/h.jpg", 5, 5)]))]),
                    )])]),
                ),
            ]),
        )]),
    )]);
    let meta = highlight_metadata(&payload, "1789").expect("highlight");
    assert_eq!(meta.author, "dora");
    assert_eq!(meta.caption, "Highlight 1789");
    assert_eq!(highlight_metadata(&obj(vec![]), "1").err(), Some(IgError::EmptyHighlight));
}

#[test]
fn numeric_ids_from_page_and_search() {
    assert_eq!(numeric_id_from_profile_page(r#"..."props":{"id":"12345"}..."#), Some("12345".to_string()));
    assert_eq!(numeric_id_from_profile_page(r#""props":{"id":"x1"} "profilePage_678""#), Some("678".to_string()));
    assert_eq!(numeric_id_from_profile_page("nothing"), None);
    let payload = obj(vec![(
        "users",
        arr(vec![
            obj(vec![("user", obj(vec![("username", s("other")), ("pk", s("1"))]))]),
            obj(vec![(
                "user",
                obj(vec![
                    ("username", s("Erin")),
                    ("pk", JsonValue::Number(JsonNumber { as_u64: None, as_i64: Some(-5), truncated: -5 })),
                ]),
            )]),
        ]),
    )]);
    assert_eq!(numeric_id_from_search(&payload, "erin"), Some("-5".to_string()));
    assert_eq!(numeric_id_from_search(&payload, "nobody"), None);
}

#[test]
fn reddit_urls_and_endpoints() {
    assert_eq!(clean_url_str("https:\\/\\/i.redd.it\\/a.jpg?w=1&amp;s=2"), "https://i.redd.it/a.jpg?w=1&s=2");
    assert_eq!(
        json_endpoint_of("https://www.reddit.com/r/pics/comments/abc/title/?utm=1"),
        "https://www.reddit.com/r/pics/comments/abc/title.json?raw_json=1"
    );
    assert_eq!(
        dash_audio_url("https://v.redd.it/id/DASH_720.mp4?source=fallback"),
        Some("https://v.redd.it/id/DASH_AUDIO_128.mp4?source=fallback".to_string())
    );
    assert_eq!(
        dash_audio_url("https://v.redd.it/id/CMAF_720.mp4"),
        Some("https://v.redd.it/id/CMAF_AUDIO_128.mp4".to_string())
    );
}

fn reddit_listing(post: JsonValue) -> JsonValue {
    arr(vec![obj(vec![("data", obj(vec![("children", arr(vec![obj(vec![("data", post)])]))]))])])
}

#[test]
fn reddit_single_image_post() {
    let post = obj(vec![
        ("author", s("frank")),
        ("title", s("A view")),
        ("selftext", s("   ")),
        ("created_utc", JsonValue::Number(JsonNumber { as_u64: None, as_i64: None, truncated: 1700000000 })),
        ("link_flair_text", s("OC")),
        ("subreddit", s("pics")),
        (
            "preview",
            obj(vec![(
                "images",
                arr(vec![obj(vec![
                    ("source", obj(vec![("url", s("https://p/full.jpg?a=1&amp;b=2")), ("width", n(2000)), ("height", n(1000))])),
                    ("resolutions", arr(vec![obj(vec![("url", s("https://p/small.jpg")), ("width", n(108)), ("height", n(54))])])),
                ])]),
            )]),
        ),
    ]);
    let meta = reddit_post_metadata(&reddit_listing(post), None).expect("post");
    assert_eq!(meta.platform, "reddit");
    assert_eq!(meta.author, "frank");
    assert_eq!(meta.post_text, None);
    assert_eq!(meta.published_at.as_deref(), Some("1700000000"));
    assert_eq!(meta.tags, vec!["OC".to_string(), "r/pics".to_string()]);
    let item = &meta.items[0];
    assert_eq!(item.high_res_url, "https://p/full.jpg?a=1&b=2");
    assert_eq!(item.variants.len(), 2);
    assert_eq!(item.variants[1].label.as_deref(), Some("2000w"));
}

#[test]
fn reddit_native_video_with_hls() {
    let post = obj(vec![(
        "secure_media",
        obj(vec![(
            "reddit_video",
            obj(vec![
                ("fallback_url", s("https://v.redd.it/id/DASH_720.mp4?source=fallback")),
                ("hls_url", s("https://v.redd.it/id/HLSPlaylist.m3u8")),
                ("width", n(1280)),
                ("height", n(720)),
            ]),
        )]),
    )]);
    let payload = reddit_listing(post);
    assert_eq!(post_hls_url(&payload).as_deref(), Some("https://v.redd.it/id/HLSPlaylist.m3u8"));
    let meta = reddit_post_metadata(&payload, None).expect("video");
    let item = &meta.items[0];
    assert_eq!(item.media_type, MediaType::Video);
    assert_eq!(item.high_res_url, "https://v.redd.it/id/DASH_720.mp4?source=fallback");
    assert_eq!(item.audio_url.as_deref(), Some("https://v.redd.it/id/DASH_AUDIO_128.mp4?source=fallback"));
    assert_eq!(item.variants[0].label.as_deref(), Some("1280x720"));
}

#[test]
fn reddit_errors() {
    assert_eq!(reddit_post_metadata(&arr(vec![]), None).err(), Some(RedditError::NoPostData));
    assert_eq!(reddit_post_metadata(&reddit_listing(obj(vec![("title", s("t"))])), None).err(), Some(RedditError::NoMedia));
}

#[test]
fn reddit_direct_link_fallback() {
    let post = obj(vec![("url_overridden_by_dest", s("https://i.imgur.com/clip.mp4"))]);
    let meta = reddit_post_metadata(&reddit_listing(post), None).expect("link");
    assert_eq!(meta.items[0].media_type, MediaType::Video);
    assert_eq!(meta.items[0].thumbnail_url.as_deref(), Some("https://i.imgur.com/clip.mp4"));
}
