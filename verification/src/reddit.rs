//! Reddit: the JSON endpoint of a post and the media items of its payload:
//! native videos (with their HLS renditions and DASH audio), GIF and video
//! previews, galleries, single images and direct links.
use vstd::prelude::*;

use crate::hls::{HlsVariant, HlsVariantView};
use crate::json::{
    json_at, json_bool, json_get, json_str, json_truncated, opt_array, opt_get, opt_str,
    u64_or_zero, JsonValue,
};
use crate::labels::{
    dimensions_if_known, dims_label, dims_label_of, dims_of, size_label, size_label_of, width_label,
    width_label_of,
};
use crate::models::{
    new_item_view, ExtractedMediaMetadata, MediaDimensions, MediaItem, MediaItemView, MediaType,
    MediaVariant, MetadataView, VariantView,
};
use crate::text::{
    after_last, before_first, begins, char_vec, concat, concat3, copy_opt, copy_string,
    is_prefix, is_suffix, replace_all, replace_lit, rsplit_once, split_first, split_last,
    split_once, string_of, trim, trim_end, trim_end_class, CharClass,
};

verus! {

/// Why a Reddit post gives no metadata.
#[derive(Debug, Clone, Copy, PartialEq, Eq, Structural)]
pub enum RedditError {
    /// The payload has no `[0].data.children[0].data`.
    NoPostData,
    /// No media item could be read from the post.
    NoMedia,
}

/// A URL as the API escapes it, unescaped: `&amp;` is `&`, then `\/` is `/`.
pub open spec fn reddit_clean(raw: Seq<char>) -> Seq<char> {
    replace_all(replace_all(raw, "&amp;"@, "&"@), "\\/"@, "/"@)
}

/// Computes `reddit_clean`.
pub fn clean_url_str(raw: &str) -> (r: String)
    ensures
        r@ == reddit_clean(raw@),
{
    proof {
        reveal_strlit("&amp;");
        reveal_strlit("\\/");
    }
    let v = char_vec(raw);
    let a = replace_lit(&v, "&amp;", "&");
    let b = replace_lit(&a, "\\/", "/");
    string_of(&b)
}

/// The JSON endpoint of a post from its canonical URL: without query and
/// trailing slashes, with `.json?raw_json=1` appended.
pub open spec fn json_endpoint(canonical: Seq<char>) -> Seq<char> {
    trim_end(before_first(canonical, '?'), CharClass::Only('/')) + ".json?raw_json=1"@
}

/// Builds `json_endpoint`.
pub fn json_endpoint_of(canonical: &str) -> (r: String)
    ensures
        r@ == json_endpoint(canonical@),
{
    let v = char_vec(canonical);
    let c = crate::text::prefix_before(&v, '?');
    let t = trim_end_class(&c, &CharClass::Only('/'));
    let s = string_of(&t);
    concat(s.as_str(), ".json?raw_json=1")
}

/// The Reddit origin, sent as referer.
pub open spec fn reddit_origin() -> Seq<char> {
    "https://www.reddit.com/"@
}

/// A Reddit item of one rendition.
pub open spec fn simple_item(
    kind: MediaType,
    mime: Seq<char>,
    dims: Option<MediaDimensions>,
    url: Seq<char>,
    thumb: Option<Seq<char>>,
) -> MediaItemView {
    new_item_view(kind, mime, dims, None, url, thumb, None, None, Some(reddit_origin()), url)
}

/// Builds `simple_item`.
fn simple_item_of(
    kind: MediaType,
    mime: &str,
    dims: Option<MediaDimensions>,
    url: &str,
    thumb: Option<String>,
) -> (r: MediaItem)
    ensures
        r@ == simple_item(kind, mime@, dims, url@, thumb.deep_view()),
{
    MediaItem::new(kind, mime, dims, None, url, thumb, None, None, Some("https://www.reddit.com/".to_owned()), url)
}

/// The dimensions read from two members, zero when absent.
pub open spec fn dims_at(v: Option<JsonValue>, wk: Seq<char>, hk: Seq<char>) -> Option<MediaDimensions> {
    dims_of(u64_or_zero(opt_get(v, wk)) as usize, u64_or_zero(opt_get(v, hk)) as usize)
}

/// Reads `dims_at` of a value.
fn dims_from(v: &JsonValue, wk: &str, hk: &str) -> (r: Option<MediaDimensions>)
    ensures
        r == dims_at(Some(*v), wk@, hk@),
{
    let w = #[verifier::truncate] (v.u64_field(wk) as usize);
    let h = #[verifier::truncate] (v.u64_field(hk) as usize);
    dimensions_if_known(w, h)
}

/// The first preview image of a post: `preview.images[0]`.
pub open spec fn first_preview(post: JsonValue) -> Option<JsonValue> {
    match opt_array(opt_get(json_get(post, "preview"@), "images"@)) {
        Some(a) => if a.len() > 0 {
            Some(a[0])
        } else {
            None
        },
        None => None,
    }
}

/// Reads `first_preview`.
fn first_preview_of(post: &JsonValue) -> (r: Option<&JsonValue>)
    ensures
        r.is_some() == first_preview(*post).is_some(),
        r.is_some() ==> *r.unwrap() == first_preview(*post).unwrap(),
{
    match post.get("preview") {
        Some(p) => match p.array_field("images") {
            Some(a) => if a.len() > 0 {
                Some(&a[0])
            } else {
                None
            },
            None => None,
        },
        None => None,
    }
}

/// The thumbnail of a post: the smallest preview resolution's URL, else
/// the preview source's URL (unescaped).
pub open spec fn preview_thumbnail(post: JsonValue) -> Option<Seq<char>> {
    match first_preview(post) {
        None => None,
        Some(img) => {
            let smallest = match opt_array(json_get(img, "resolutions"@)) {
                Some(rs) => if rs.len() > 0 {
                    opt_str(json_get(rs[0], "url"@))
                } else {
                    None
                },
                None => None,
            };
            match smallest {
                Some(u) => Some(reddit_clean(u)),
                None => match opt_str(opt_get(json_get(img, "source"@), "url"@)) {
                    Some(u) => Some(reddit_clean(u)),
                    None => None,
                },
            }
        },
    }
}

/// The thumbnail of a post.
pub fn extract_preview_thumbnail(post: &JsonValue) -> (r: Option<String>)
    ensures
        r.deep_view() == preview_thumbnail(*post),
{
    let img = match first_preview_of(post) {
        Some(i) => i,
        None => return None,
    };
    match img.array_field("resolutions") {
        Some(rs) => if rs.len() > 0 {
            match rs[0].str_field("url") {
                Some(u) => return Some(clean_url_str(u)),
                None => {},
            }
        },
        None => {},
    }
    match img.get("source") {
        Some(src) => match src.str_field("url") {
            Some(u) => Some(clean_url_str(u)),
            None => None,
        },
        None => None,
    }
}

// ---------------------------------------------------------------------------
// Preview renditions
// ---------------------------------------------------------------------------

/// The renditions listed by entries with a URL under `uk` and sizes under
/// `wk` and `hk`, labelled by width, in order.
pub open spec fn listed_variants(es: Seq<JsonValue>, uk: Seq<char>, wk: Seq<char>, hk: Seq<char>) -> Seq<
    VariantView,
>
    decreases es.len(),
{
    if es.len() == 0 {
        seq![]
    } else {
        let r = listed_variants(es.drop_last(), uk, wk, hk);
        let e = es.last();
        match opt_str(json_get(e, uk)) {
            Some(u) => {
                let w = u64_or_zero(json_get(e, wk)) as usize;
                let h = u64_or_zero(json_get(e, hk)) as usize;
                r.push(
                    VariantView {
                        url: reddit_clean(u),
                        dimensions: dims_of(w, h),
                        file_size_bytes: None,
                        label: Some(width_label(w)),
                    },
                )
            },
            None => r,
        }
    }
}

/// Reads `listed_variants`.
fn read_listed(es: &Vec<JsonValue>, uk: &str, wk: &str, hk: &str) -> (r: Vec<MediaVariant>)
    ensures
        r.deep_view() == listed_variants(es@, uk@, wk@, hk@),
{
    let mut out: Vec<MediaVariant> = Vec::new();
    let mut i: usize = 0;
    while i < es.len()
        invariant
            i <= es@.len(),
            out.deep_view() == listed_variants(es@.take(i as int), uk@, wk@, hk@),
        decreases es.len() - i,
    {
        let e = &es[i];
        assert(es@.take(i + 1).drop_last() =~= es@.take(i as int));
        assert(es@.take(i + 1).last() == es@[i as int]);
        let ghost before = out.deep_view();
        match e.str_field(uk) {
            Some(u) => {
                let w = #[verifier::truncate] (e.u64_field(wk) as usize);
                let h = #[verifier::truncate] (e.u64_field(hk) as usize);
                out.push(
                    MediaVariant {
                        url: clean_url_str(u),
                        dimensions: dimensions_if_known(w, h),
                        file_size_bytes: None,
                        label: Some(width_label_of(w)),
                    },
                );
                assert(out.deep_view() =~= listed_variants(es@.take(i + 1), uk@, wk@, hk@));
            },
            None => {},
        }
        i += 1;
    }
    assert(es@.take(es@.len() as int) =~= es@);
    out
}

// ---------------------------------------------------------------------------
// Single images and galleries
// ---------------------------------------------------------------------------

/// A single-image post: the preview source (its URL unescaped is the
/// master), every preview resolution then the source as renditions.
pub open spec fn single_image(post: JsonValue) -> Option<MediaItemView> {
    match first_preview(post) {
        None => None,
        Some(img) => match json_get(img, "source"@) {
            None => None,
            Some(source) => match opt_str(json_get(source, "url"@)) {
                None => None,
                Some(u) => {
                    let high = reddit_clean(u);
                    let dims = dims_at(Some(source), "width"@, "height"@);
                    let listed = match opt_array(json_get(img, "resolutions"@)) {
                        Some(rs) => listed_variants(rs, "url"@, "width"@, "height"@),
                        None => seq![],
                    };
                    Some(
                        MediaItemView {
                            variants: listed.push(
                                VariantView {
                                    url: high,
                                    dimensions: dims,
                                    file_size_bytes: None,
                                    label: dims_label(dims, false),
                                },
                            ),
                            ..simple_item(MediaType::Image, "image/jpeg"@, dims, high, None)
                        },
                    )
                },
            },
        },
    }
}

/// The item of a single-image post.
pub fn parse_reddit_single_image(post: &JsonValue) -> (r: Option<MediaItem>)
    ensures
        r.is_some() == single_image(*post).is_some(),
        r.is_some() ==> r.unwrap()@ == single_image(*post).unwrap(),
{
    let img = match first_preview_of(post) {
        Some(i) => i,
        None => return None,
    };
    let source = match img.get("source") {
        Some(s) => s,
        None => return None,
    };
    let high = match source.str_field("url") {
        Some(u) => clean_url_str(u),
        None => return None,
    };
    let dims = dims_from(source, "width", "height");
    let mut variants = match img.array_field("resolutions") {
        Some(rs) => read_listed(rs, "url", "width", "height"),
        None => {
            let v: Vec<MediaVariant> = Vec::new();
            assert(v.deep_view() =~= Seq::<VariantView>::empty());
            v
        },
    };
    let ghost listed = variants.deep_view();
    variants.push(
        MediaVariant {
            url: copy_string(&high),
            dimensions: dims,
            file_size_bytes: None,
            label: dims_label_of(dims, false),
        },
    );
    let mut media = simple_item_of(MediaType::Image, "image/jpeg", dims, high.as_str(), None);
    media.variants = variants;
    assert(media.variants.deep_view() =~= listed.push(
        VariantView { url: high@, dimensions: dims, file_size_bytes: None, label: dims_label(dims, false) },
    ));
    Some(media)
}

/// A gallery entry of `media_metadata`: its `p` previews (by `u`, `x`,
/// `y`) as renditions; then, when `s.mp4` is a string, a video whose
/// thumbnail is the first preview and whose last rendition is the MP4
/// (labelled by size); else, when `s.u` is a string, an image whose last
/// rendition is that URL (labelled by width). The sizes come from `s.x`
/// and `s.y`.
pub open spec fn gallery_item(obj: JsonValue) -> Option<MediaItemView> {
    let listed = match opt_array(json_get(obj, "p"@)) {
        Some(ps) => listed_variants(ps, "u"@, "x"@, "y"@),
        None => seq![],
    };
    let s = json_get(obj, "s"@);
    let dims = dims_at(s, "x"@, "y"@);
    match opt_str(opt_get(s, "mp4"@)) {
        Some(mp4) => {
            let url = reddit_clean(mp4);
            Some(
                MediaItemView {
                    variants: listed.push(
                        VariantView {
                            url,
                            dimensions: dims,
                            file_size_bytes: None,
                            label: dims_label(dims, true),
                        },
                    ),
                    ..simple_item(
                        MediaType::Video,
                        "video/mp4"@,
                        dims,
                        url,
                        if listed.len() > 0 {
                            Some(listed[0].url)
                        } else {
                            None
                        },
                    )
                },
            )
        },
        None => match opt_str(opt_get(s, "u"@)) {
            Some(img) => {
                let url = reddit_clean(img);
                Some(
                    MediaItemView {
                        variants: listed.push(
                            VariantView {
                                url,
                                dimensions: dims,
                                file_size_bytes: None,
                                label: dims_label(dims, false),
                            },
                        ),
                        ..simple_item(MediaType::Image, "image/jpeg"@, dims, url, None)
                    },
                )
            },
            None => None,
        },
    }
}

/// The string under `key` of an optional value.
fn opt_str_field<'a>(v: Option<&'a JsonValue>, key: &str) -> (r: Option<&'a str>)
    ensures
        r.is_some() == opt_str(opt_get(
            match v {
                Some(x) => Some(*x),
                None => None,
            },
            key@,
        )).is_some(),
        r.is_some() ==> r.unwrap()@ == opt_str(opt_get(
            match v {
                Some(x) => Some(*x),
                None => None,
            },
            key@,
        )).unwrap(),
{
    match v {
        Some(x) => x.str_field(key),
        None => None,
    }
}

/// The dimensions of an optional value.
fn opt_dims(v: Option<&JsonValue>, wk: &str, hk: &str) -> (r: Option<MediaDimensions>)
    ensures
        r == dims_at(
            match v {
                Some(x) => Some(*x),
                None => None,
            },
            wk@,
            hk@,
        ),
{
    match v {
        Some(x) => dims_from(x, wk, hk),
        None => dimensions_if_known(0, 0),
    }
}

/// The item of a gallery entry.
pub fn parse_reddit_gallery_node(obj: &JsonValue) -> (r: Option<MediaItem>)
    ensures
        r.is_some() == gallery_item(*obj).is_some(),
        r.is_some() ==> r.unwrap()@ == gallery_item(*obj).unwrap(),
{
    let mut variants = match obj.array_field("p") {
        Some(ps) => read_listed(ps, "u", "x", "y"),
        None => {
            let v: Vec<MediaVariant> = Vec::new();
            assert(v.deep_view() =~= Seq::<VariantView>::empty());
            v
        },
    };
    let ghost listed = variants.deep_view();
    let s = obj.get("s");
    let dims = opt_dims(s, "x", "y");
    match opt_str_field(s, "mp4") {
        Some(mp4) => {
            let url = clean_url_str(mp4);
            let thumbnail = if variants.len() > 0 {
                Some(copy_string(&variants[0].url))
            } else {
                None
            };
            assert(variants.len() > 0 ==> listed[0].url == variants@[0].url@);
            variants.push(
                MediaVariant {
                    url: copy_string(&url),
                    dimensions: dims,
                    file_size_bytes: None,
                    label: dims_label_of(dims, true),
                },
            );
            let mut media = simple_item_of(MediaType::Video, "video/mp4", dims, url.as_str(), thumbnail);
            media.variants = variants;
            assert(media.variants.deep_view() =~= listed.push(
                VariantView { url: url@, dimensions: dims, file_size_bytes: None, label: dims_label(dims, true) },
            ));
            Some(media)
        },
        None => match opt_str_field(s, "u") {
            Some(img) => {
                let url = clean_url_str(img);
                variants.push(
                    MediaVariant {
                        url: copy_string(&url),
                        dimensions: dims,
                        file_size_bytes: None,
                        label: dims_label_of(dims, false),
                    },
                );
                let mut media = simple_item_of(MediaType::Image, "image/jpeg", dims, url.as_str(), None);
                media.variants = variants;
                assert(media.variants.deep_view() =~= listed.push(
                    VariantView { url: url@, dimensions: dims, file_size_bytes: None, label: dims_label(dims, false) },
                ));
                Some(media)
            },
            None => None,
        },
    }
}

/// A GIF or video preview: the `preview.reddit_video_preview` with a
/// string `fallback_url` (a video with its `width` and `height`); else the
/// first preview image's `variants.mp4.source.url` (a video) or
/// `variants.gif.source.url` (a GIF image). The post thumbnail goes with it.
pub open spec fn gif_or_preview(post: JsonValue) -> Option<MediaItemView> {
    let thumb = preview_thumbnail(post);
    let rvp = opt_get(json_get(post, "preview"@), "reddit_video_preview"@);
    match opt_str(opt_get(rvp, "fallback_url"@)) {
        Some(f) => Some(
            simple_item(
                MediaType::Video,
                "video/mp4"@,
                dims_at(rvp, "width"@, "height"@),
                reddit_clean(f),
                thumb,
            ),
        ),
        None => match first_preview(post) {
            None => None,
            Some(img) => {
                let vs = json_get(img, "variants"@);
                match vs {
                    None => None,
                    Some(_) => match opt_str(opt_get(opt_get(opt_get(vs, "mp4"@), "source"@), "url"@)) {
                        Some(m) => Some(simple_item(MediaType::Video, "video/mp4"@, None, reddit_clean(m), thumb)),
                        None => match opt_str(opt_get(opt_get(opt_get(vs, "gif"@), "source"@), "url"@)) {
                            Some(g) => Some(simple_item(MediaType::Image, "image/gif"@, None, reddit_clean(g), thumb)),
                            None => None,
                        },
                    },
                }
            },
        },
    }
}

/// The member under `key` of an optional value.
fn opt_member<'a>(v: Option<&'a JsonValue>, key: &str) -> (r: Option<&'a JsonValue>)
    ensures
        r.is_some() == opt_get(
            match v {
                Some(x) => Some(*x),
                None => None,
            },
            key@,
        ).is_some(),
        r.is_some() ==> *r.unwrap() == opt_get(
            match v {
                Some(x) => Some(*x),
                None => None,
            },
            key@,
        ).unwrap(),
{
    match v {
        Some(x) => x.get(key),
        None => None,
    }
}

/// The item of a GIF or video preview.
pub fn parse_reddit_gif_or_preview(post: &JsonValue) -> (r: Option<MediaItem>)
    ensures
        r.is_some() == gif_or_preview(*post).is_some(),
        r.is_some() ==> r.unwrap()@ == gif_or_preview(*post).unwrap(),
{
    let thumb = extract_preview_thumbnail(post);
    let rvp = opt_member(post.get("preview"), "reddit_video_preview");
    match opt_str_field(rvp, "fallback_url") {
        Some(f) => {
            let url = clean_url_str(f);
            let dims = opt_dims(rvp, "width", "height");
            return Some(simple_item_of(MediaType::Video, "video/mp4", dims, url.as_str(), thumb));
        },
        None => {},
    }
    let img = match first_preview_of(post) {
        Some(i) => i,
        None => return None,
    };
    let vs = match img.get("variants") {
        Some(v) => v,
        None => return None,
    };
    match opt_str_field(opt_member(vs.get("mp4"), "source"), "url") {
        Some(m) => {
            let url = clean_url_str(m);
            return Some(simple_item_of(MediaType::Video, "video/mp4", None, url.as_str(), thumb));
        },
        None => {},
    }
    match opt_str_field(opt_member(vs.get("gif"), "source"), "url") {
        Some(g) => {
            let url = clean_url_str(g);
            Some(simple_item_of(MediaType::Image, "image/gif", None, url.as_str(), thumb))
        },
        None => None,
    }
}

// ---------------------------------------------------------------------------
// Native videos
// ---------------------------------------------------------------------------

/// The DASH audio track beside a video's fallback URL: the file next to it
/// named `CMAF_AUDIO_128.mp4` when the video file starts with `CMAF_`,
/// `DASH_AUDIO_128.mp4` otherwise, with the same query.
pub open spec fn dash_audio(fallback: Seq<char>) -> Option<Seq<char>> {
    let (path, query) = match split_once(fallback, '?') {
        Some((p, q)) => (p, "?"@ + q),
        None => (fallback, Seq::<char>::empty()),
    };
    match rsplit_once(path, '/') {
        Some((base, file)) => Some(
            base + "/"@ + (if is_prefix("CMAF_"@, file) {
                "CMAF_AUDIO_128.mp4"@
            } else {
                "DASH_AUDIO_128.mp4"@
            }) + query,
        ),
        None => None,
    }
}

/// Computes `dash_audio`.
pub fn dash_audio_url(fallback: &str) -> (r: Option<String>)
    ensures
        r.deep_view() == dash_audio(fallback@),
{
    let v = char_vec(fallback);
    let (path, query) = match split_first(&v, '?') {
        Some((p, q)) => {
            let qs = string_of(&q);
            (p, concat("?", qs.as_str()))
        },
        None => (v, String::new()),
    };
    match split_last(&path, '/') {
        Some((base, file)) => {
            let b = string_of(&base);
            let audio_file = if begins(&file, "CMAF_") {
                "CMAF_AUDIO_128.mp4"
            } else {
                "DASH_AUDIO_128.mp4"
            };
            let a = concat3(b.as_str(), "/", audio_file);
            Some(concat(a.as_str(), query.as_str()))
        },
        None => None,
    }
}

/// The `reddit_video` of a post, under `secure_media` when that member is
/// present, else under `media`.
pub open spec fn video_target(post: JsonValue) -> Option<JsonValue> {
    opt_get(
        match json_get(post, "secure_media"@) {
            Some(x) => Some(x),
            None => json_get(post, "media"@),
        },
        "reddit_video"@,
    )
}

/// Reads `video_target`.
fn video_target_of(post: &JsonValue) -> (r: Option<&JsonValue>)
    ensures
        r.is_some() == video_target(*post).is_some(),
        r.is_some() ==> *r.unwrap() == video_target(*post).unwrap(),
{
    let holder = match post.get("secure_media") {
        Some(x) => Some(x),
        None => post.get("media"),
    };
    opt_member(holder, "reddit_video")
}

/// The HLS manifest of a native video (unescaped), when it has a fallback
/// URL and a manifest.
pub open spec fn video_hls(vid: JsonValue) -> Option<Seq<char>> {
    match opt_str(json_get(vid, "fallback_url"@)) {
        Some(_) => match opt_str(json_get(vid, "hls_url"@)) {
            Some(h) => Some(reddit_clean(h)),
            None => None,
        },
        None => None,
    }
}

/// An HLS rendition as an item rendition, labelled by its resolution.
pub open spec fn hls_as_variant(v: HlsVariantView) -> VariantView {
    VariantView {
        url: v.video_url,
        dimensions: v.dimensions,
        file_size_bytes: None,
        label: Some(v.resolution),
    }
}

/// A native video. It needs a string `fallback_url` (unescaped); the
/// thumbnail is the post thumbnail, else the fallback URL; its audio is the
/// DASH track unless `has_audio` is false. When the video has an HLS
/// manifest and `resolved` holds its renditions, they become the item's
/// renditions and the best (last) one its URL and, when it has one, its
/// audio; otherwise the fallback URL is the only rendition, labelled by
/// size.
pub open spec fn reddit_video(vid: JsonValue, post: JsonValue, resolved: Option<Seq<HlsVariantView>>) -> Option<
    MediaItemView,
> {
    match opt_str(json_get(vid, "fallback_url"@)) {
        None => None,
        Some(f) => {
            let fallback = reddit_clean(f);
            let has_audio = match json_get(vid, "has_audio"@) {
                Some(b) => match json_bool(b) {
                    Some(x) => x,
                    None => true,
                },
                None => true,
            };
            let thumb = match preview_thumbnail(post) {
                Some(t) => Some(t),
                None => Some(fallback),
            };
            let dims = dims_at(Some(vid), "width"@, "height"@);
            let audio = if has_audio {
                dash_audio(fallback)
            } else {
                None
            };
            let hv = if video_hls(vid) is Some {
                match resolved {
                    Some(x) => x,
                    None => seq![],
                }
            } else {
                seq![]
            };
            let url = if hv.len() > 0 {
                hv.last().video_url
            } else {
                fallback
            };
            let audio_url = if hv.len() > 0 && hv.last().audio_url is Some {
                hv.last().audio_url
            } else {
                audio
            };
            Some(
                MediaItemView {
                    variants: if hv.len() > 0 {
                        hv.map_values(|v: HlsVariantView| hls_as_variant(v))
                    } else {
                        seq![
                            VariantView {
                                url: fallback,
                                dimensions: dims,
                                file_size_bytes: None,
                                label: dims_label(dims, true),
                            },
                        ]
                    },
                    ..new_item_view(
                        MediaType::Video,
                        "video/mp4"@,
                        dims,
                        None,
                        url,
                        thumb,
                        audio_url,
                        None,
                        Some(reddit_origin()),
                        url,
                    )
                },
            )
        },
    }
}

/// HLS renditions as item renditions.
fn hls_variants_as_items(hv: &Vec<HlsVariant>) -> (r: Vec<MediaVariant>)
    ensures
        r.deep_view() == hv.deep_view().map_values(|v: HlsVariantView| hls_as_variant(v)),
{
    let mut out: Vec<MediaVariant> = Vec::new();
    let mut i: usize = 0;
    while i < hv.len()
        invariant
            i <= hv@.len(),
            out@.len() == i,
            forall|k: int| 0 <= k < i ==> #[trigger] out@[k]@ == hls_as_variant(hv@[k]@),
        decreases hv.len() - i,
    {
        out.push(
            MediaVariant {
                url: copy_string(&hv[i].video_url),
                dimensions: hv[i].dimensions,
                file_size_bytes: None,
                label: Some(copy_string(&hv[i].resolution)),
            },
        );
        i += 1;
    }
    assert(out.deep_view() =~= hv.deep_view().map_values(|v: HlsVariantView| hls_as_variant(v)));
    out
}

/// The HLS manifest of a native video.
pub fn video_hls_url(vid: &JsonValue) -> (r: Option<String>)
    ensures
        r.deep_view() == video_hls(*vid),
{
    match vid.str_field("fallback_url") {
        Some(_) => match vid.str_field("hls_url") {
            Some(h) => Some(clean_url_str(h)),
            None => None,
        },
        None => None,
    }
}

/// The item of a native video, given the renditions of its HLS manifest
/// when they could be resolved.
pub fn parse_reddit_video(vid: &JsonValue, post: &JsonValue, resolved: Option<Vec<HlsVariant>>) -> (r:
    Option<MediaItem>)
    ensures
        r.is_some() == reddit_video(*vid, *post, resolved.deep_view()).is_some(),
        r.is_some() ==> r.unwrap()@ == reddit_video(*vid, *post, resolved.deep_view()).unwrap(),
{
    let fallback = match vid.str_field("fallback_url") {
        Some(f) => clean_url_str(f),
        None => return None,
    };
    let has_audio = match vid.get("has_audio") {
        Some(b) => match b.as_bool() {
            Some(x) => x,
            None => true,
        },
        None => true,
    };
    let thumb = match extract_preview_thumbnail(post) {
        Some(t) => Some(t),
        None => Some(copy_string(&fallback)),
    };
    let dims = dims_from(vid, "width", "height");
    let audio = if has_audio {
        dash_audio_url(fallback.as_str())
    } else {
        None
    };
    let hls = video_hls_url(vid);
    let hv: Vec<HlsVariant> = if hls.is_some() {
        match resolved {
            Some(x) => x,
            None => Vec::new(),
        }
    } else {
        Vec::new()
    };
    assert(hv.deep_view() =~= (if video_hls(*vid) is Some {
        match resolved.deep_view() {
            Some(x) => x,
            None => Seq::<HlsVariantView>::empty(),
        }
    } else {
        Seq::<HlsVariantView>::empty()
    }));
    if hv.len() > 0 {
        let best = &hv[hv.len() - 1];
        assert(hv.deep_view().last() == best@);
        let audio_url = if best.audio_url.is_some() {
            copy_opt(&best.audio_url)
        } else {
            audio
        };
        let mut media = MediaItem::new(
            MediaType::Video,
            "video/mp4",
            dims,
            None,
            best.video_url.as_str(),
            thumb,
            audio_url,
            None,
            Some("https://www.reddit.com/".to_owned()),
            best.video_url.as_str(),
        );
        media.variants = hls_variants_as_items(&hv);
        Some(media)
    } else {
        let mut variants: Vec<MediaVariant> = Vec::new();
        variants.push(
            MediaVariant {
                url: copy_string(&fallback),
                dimensions: dims,
                file_size_bytes: None,
                label: dims_label_of(dims, true),
            },
        );
        let mut media = MediaItem::new(
            MediaType::Video,
            "video/mp4",
            dims,
            None,
            fallback.as_str(),
            thumb,
            audio,
            None,
            Some("https://www.reddit.com/".to_owned()),
            fallback.as_str(),
        );
        media.variants = variants;
        assert(media.variants.deep_view() =~= seq![
            VariantView {
                url: fallback@,
                dimensions: dims,
                file_size_bytes: None,
                label: dims_label(dims, true),
            },
        ]);
        Some(media)
    }
}

// ---------------------------------------------------------------------------
// Posts
// ---------------------------------------------------------------------------

/// The post object of a listing payload: `[0].data.children[0].data`.
pub open spec fn post_data(payload: JsonValue) -> Option<JsonValue> {
    let children = opt_get(opt_get(json_at(payload, 0), "data"@), "children"@);
    let first = match children {
        Some(c) => json_at(c, 0),
        None => None,
    };
    opt_get(first, "data"@)
}

/// Reads `post_data`.
pub fn post_data_of(payload: &JsonValue) -> (r: Option<&JsonValue>)
    ensures
        r.is_some() == post_data(*payload).is_some(),
        r.is_some() ==> *r.unwrap() == post_data(*payload).unwrap(),
{
    let children = opt_member(opt_member(payload.at(0), "data"), "children");
    let first = match children {
        Some(c) => c.at(0),
        None => None,
    };
    opt_member(first, "data")
}

/// The HLS manifest that a post's native video needs resolved, if any.
pub open spec fn post_hls(payload: JsonValue) -> Option<Seq<char>> {
    match post_data(payload) {
        Some(post) => match video_target(post) {
            Some(vid) => video_hls(vid),
            None => None,
        },
        None => None,
    }
}

/// The HLS manifest that a post's native video needs resolved, if any.
pub fn post_hls_url(payload: &JsonValue) -> (r: Option<String>)
    ensures
        r.deep_view() == post_hls(*payload),
{
    match post_data_of(payload) {
        Some(post) => match video_target_of(post) {
            Some(vid) => video_hls_url(vid),
            None => None,
        },
        None => None,
    }
}

/// The gallery items of entries `gallery_data.items`, looked up by
/// `media_id` in the `media_metadata` object.
pub open spec fn gallery_entries(entries: Seq<JsonValue>, meta: JsonValue) -> Seq<MediaItemView>
    decreases entries.len(),
{
    if entries.len() == 0 {
        seq![]
    } else {
        let r = gallery_entries(entries.drop_last(), meta);
        match opt_str(json_get(entries.last(), "media_id"@)) {
            Some(id) => match json_get(meta, id) {
                Some(obj) => match gallery_item(obj) {
                    Some(x) => r.push(x),
                    None => r,
                },
                None => r,
            },
            None => r,
        }
    }
}

/// The gallery items of a post.
pub open spec fn gallery_items(post: JsonValue) -> Seq<MediaItemView> {
    match opt_array(opt_get(json_get(post, "gallery_data"@), "items"@)) {
        Some(entries) => match json_get(post, "media_metadata"@) {
            Some(meta) => gallery_entries(entries, meta),
            None => seq![],
        },
        None => seq![],
    }
}

/// The direct link of a post (`url_overridden_by_dest`, unescaped): a video
/// when it ends in `.mp4` or `.webm`, else an image; the post thumbnail, or
/// the link itself, as thumbnail.
pub open spec fn direct_link(post: JsonValue) -> Option<MediaItemView> {
    match opt_str(json_get(post, "url_overridden_by_dest"@)) {
        Some(u) => {
            let url = reddit_clean(u);
            let is_video = is_suffix(".mp4"@, url) || is_suffix(".webm"@, url);
            Some(
                simple_item(
                    if is_video {
                        MediaType::Video
                    } else {
                        MediaType::Image
                    },
                    if is_video {
                        "video/mp4"@
                    } else {
                        "image/jpeg"@
                    },
                    None,
                    url,
                    match preview_thumbnail(post) {
                        Some(t) => Some(t),
                        None => Some(url),
                    },
                ),
            )
        },
        None => None,
    }
}

/// The items of a post, by the first kind that gives any: a native video,
/// a GIF or video preview, the gallery, a single image, the direct link.
pub open spec fn post_items(post: JsonValue, resolved: Option<Seq<HlsVariantView>>) -> Seq<MediaItemView> {
    let video = match video_target(post) {
        Some(vid) => reddit_video(vid, post, resolved),
        None => None,
    };
    match video {
        Some(v) => seq![v],
        None => match gif_or_preview(post) {
            Some(g) => seq![g],
            None => {
                let g = gallery_items(post);
                if g.len() > 0 {
                    g
                } else {
                    match single_image(post) {
                        Some(i) => seq![i],
                        None => match direct_link(post) {
                            Some(d) => seq![d],
                            None => seq![],
                        },
                    }
                }
            },
        },
    }
}

/// The tags of a post: its flair when not blank, then `r/{subreddit}`.
pub open spec fn post_tags(post: JsonValue) -> Seq<Seq<char>> {
    let flair: Seq<Seq<char>> = match opt_str(json_get(post, "link_flair_text"@)) {
        Some(f) => if trim(f, CharClass::Whitespace).len() > 0 {
            seq![f]
        } else {
            seq![]
        },
        None => seq![],
    };
    match opt_str(json_get(post, "subreddit"@)) {
        Some(sub) => flair.push("r/"@ + sub),
        None => flair,
    }
}

/// A Reddit post: author ("unknown" when absent), title as caption,
/// self text when not blank, creation time as whole epoch seconds, tags,
/// and its items, at least one.
pub open spec fn reddit_post(payload: JsonValue, resolved: Option<Seq<HlsVariantView>>) -> Result<
    MetadataView,
    RedditError,
> {
    match post_data(payload) {
        None => Err(RedditError::NoPostData),
        Some(post) => {
            let items = post_items(post, resolved);
            if items.len() == 0 {
                Err(RedditError::NoMedia)
            } else {
                Ok(
                    MetadataView {
                        platform: "reddit"@,
                        author: crate::instagram_pages::str_or(json_get(post, "author"@), "unknown"@),
                        caption: crate::instagram_pages::str_or(json_get(post, "title"@), ""@),
                        post_text: match opt_str(json_get(post, "selftext"@)) {
                            Some(t) => if trim(t, CharClass::Whitespace).len() > 0 {
                                Some(t)
                            } else {
                                None
                            },
                            None => None,
                        },
                        published_at: match json_get(post, "created_utc"@) {
                            Some(c) => match json_truncated(c) {
                                Some(n) => Some(crate::text::signed_decimal(n as int)),
                                None => None,
                            },
                            None => None,
                        },
                        tags: post_tags(post),
                        items,
                        next_page_url: None,
                        discovered_post_urls: seq![],
                        embedded_player_urls: seq![],
                    },
                )
            }
        },
    }
}

/// Reads `gallery_items`.
fn read_gallery(post: &JsonValue) -> (r: Vec<MediaItem>)
    ensures
        r.deep_view() == gallery_items(*post),
{
    let mut out: Vec<MediaItem> = Vec::new();
    assert(out.deep_view() =~= Seq::<MediaItemView>::empty());
    let entries = match opt_member(post.get("gallery_data"), "items") {
        Some(x) => match x.as_array() {
            Some(a) => a,
            None => return out,
        },
        None => return out,
    };
    let meta = match post.get("media_metadata") {
        Some(m) => m,
        None => return out,
    };
    let mut i: usize = 0;
    while i < entries.len()
        invariant
            i <= entries@.len(),
            out.deep_view() == gallery_entries(entries@.take(i as int), *meta),
        decreases entries.len() - i,
    {
        assert(entries@.take(i + 1).drop_last() =~= entries@.take(i as int));
        assert(entries@.take(i + 1).last() == entries@[i as int]);
        let ghost before = out.deep_view();
        match entries[i].str_field("media_id") {
            Some(id) => match meta.get(id) {
                Some(obj) => match parse_reddit_gallery_node(obj) {
                    Some(m) => {
                        out.push(m);
                        assert(out.deep_view() =~= before.push(gallery_item(*obj).unwrap()));
                    },
                    None => {},
                },
                None => {},
            },
            None => {},
        }
        i += 1;
    }
    assert(entries@.take(entries@.len() as int) =~= entries@);
    out
}

/// Reads `direct_link`.
fn read_direct_link(post: &JsonValue) -> (r: Option<MediaItem>)
    ensures
        r.is_some() == direct_link(*post).is_some(),
        r.is_some() ==> r.unwrap()@ == direct_link(*post).unwrap(),
{
    let url = match post.str_field("url_overridden_by_dest") {
        Some(u) => clean_url_str(u),
        None => return None,
    };
    let uv = char_vec(url.as_str());
    let is_video = crate::text::finishes(&uv, ".mp4") || crate::text::finishes(&uv, ".webm");
    let thumb = match extract_preview_thumbnail(post) {
        Some(t) => Some(t),
        None => Some(copy_string(&url)),
    };
    if is_video {
        Some(simple_item_of(MediaType::Video, "video/mp4", None, url.as_str(), thumb))
    } else {
        Some(simple_item_of(MediaType::Image, "image/jpeg", None, url.as_str(), thumb))
    }
}

/// One item as a list.
fn single(m: MediaItem) -> (r: Vec<MediaItem>)
    ensures
        r.deep_view() == seq![m@],
{
    let mut v: Vec<MediaItem> = Vec::new();
    v.push(m);
    assert(v.deep_view() =~= seq![m@]);
    v
}

/// The items of a post.
fn read_post_items(post: &JsonValue, resolved: Option<Vec<HlsVariant>>) -> (r: Vec<MediaItem>)
    ensures
        r.deep_view() == post_items(*post, resolved.deep_view()),
{
    let video = match video_target_of(post) {
        Some(vid) => parse_reddit_video(vid, post, resolved),
        None => None,
    };
    match video {
        Some(v) => return single(v),
        None => {},
    }
    match parse_reddit_gif_or_preview(post) {
        Some(g) => return single(g),
        None => {},
    }
    let g = read_gallery(post);
    if g.len() > 0 {
        return g;
    }
    match parse_reddit_single_image(post) {
        Some(i) => return single(i),
        None => {},
    }
    match read_direct_link(post) {
        Some(d) => single(d),
        None => {
            let v: Vec<MediaItem> = Vec::new();
            assert(v.deep_view() =~= Seq::<MediaItemView>::empty());
            v
        },
    }
}

/// The string under `key`, or a default.
fn str_or_default(v: &JsonValue, key: &str, default: &str) -> (r: String)
    ensures
        r@ == crate::instagram_pages::str_or(json_get(*v, key@), default@),
{
    match v.str_field(key) {
        Some(s) => s.to_owned(),
        None => default.to_owned(),
    }
}

/// Whether a string holds something other than white space.
fn not_blank(s: &str) -> (r: bool)
    ensures
        r == (trim(s@, CharClass::Whitespace).len() > 0),
{
    let v = char_vec(s);
    crate::text::trim_ws(&v).len() > 0
}

/// The metadata of a Reddit post from its listing payload, given the
/// renditions of its video's HLS manifest when they were resolved.
pub fn reddit_post_metadata(payload: &JsonValue, resolved: Option<Vec<HlsVariant>>) -> (r: Result<
    ExtractedMediaMetadata,
    RedditError,
>)
    ensures
        r matches Ok(m) ==> reddit_post(*payload, resolved.deep_view()) == Ok::<
            MetadataView,
            RedditError,
        >(m@),
        r matches Err(e) ==> reddit_post(*payload, resolved.deep_view()) == Err::<
            MetadataView,
            RedditError,
        >(e),
{
    let post = match post_data_of(payload) {
        Some(p) => p,
        None => return Err(RedditError::NoPostData),
    };
    let ghost rv = resolved.deep_view();
    let items = read_post_items(post, resolved);
    if items.len() == 0 {
        return Err(RedditError::NoMedia);
    }
    let author = str_or_default(post, "author", "unknown");
    let caption = str_or_default(post, "title", "");
    let post_text = match post.str_field("selftext") {
        Some(t) => if not_blank(t) {
            Some(t.to_owned())
        } else {
            None
        },
        None => None,
    };
    let published_at = match post.get("created_utc") {
        Some(c) => match c.as_truncated() {
            Some(n) => Some(crate::text::signed_decimal_string(n)),
            None => None,
        },
        None => None,
    };
    let mut tags: Vec<String> = Vec::new();
    match post.str_field("link_flair_text") {
        Some(f) => if not_blank(f) {
            tags.push(f.to_owned());
        },
        None => {},
    }
    let ghost flair = tags.deep_view();
    match post.str_field("subreddit") {
        Some(sub) => {
            tags.push(concat("r/", sub));
            assert(tags.deep_view() =~= flair.push("r/"@ + sub@));
        },
        None => {},
    }
    assert(tags.deep_view() =~= post_tags(*post));
    let m = ExtractedMediaMetadata {
        platform: "reddit".to_owned(),
        author,
        caption,
        post_text,
        published_at,
        tags,
        items,
        next_page_url: None,
        discovered_post_urls: Vec::new(),
        embedded_player_urls: Vec::new(),
    };
    assert(m.discovered_post_urls.deep_view() =~= Seq::<Seq<char>>::empty());
    assert(m.embedded_player_urls.deep_view() =~= Seq::<Seq<char>>::empty());
    Ok(m)
}


/// The media a gallery entry names: the item of the `media_metadata`
/// object under its `media_id`, when that object gives one.
pub open spec fn entry_media(entry: JsonValue, meta: JsonValue) -> Option<MediaItemView> {
    match opt_str(json_get(entry, "media_id"@)) {
        Some(id) => match json_get(meta, id) {
            Some(obj) => gallery_item(obj),
            None => None,
        },
        None => None,
    }
}

proof fn lemma_gallery_filter_map(
    entries: Seq<JsonValue>,
    meta: JsonValue,
    f: spec_fn(JsonValue) -> Option<MediaItemView>,
)
    requires
        forall|e: JsonValue| #[trigger] f(e) == entry_media(e, meta),
    ensures
        gallery_entries(entries, meta) == entries.filter_map(f),
    decreases entries.len(),
{
    if entries.len() > 0 {
        lemma_gallery_filter_map(entries.drop_last(), meta, f);
        let r = gallery_entries(entries.drop_last(), meta);
        assert(f(entries.last()) == entry_media(entries.last(), meta));
        match entry_media(entries.last(), meta) {
            Some(x) => {
                assert(r.push(x) =~= entries.drop_last().filter_map(f) + seq![x]);
            },
            None => {},
        }
    }
}

/// A gallery gives one item per entry whose `media_id` names a media object
/// that parses, in entry order: the items are the entries' media with the
/// entries that give none left out. When every entry gives media, there are
/// exactly as many items as entries and entry `k` gives item `k`.
pub proof fn lemma_gallery_one_item_per_entry(entries: Seq<JsonValue>, meta: JsonValue)
    ensures
        gallery_entries(entries, meta) == entries.filter_map(|e: JsonValue| entry_media(e, meta)),
        gallery_entries(entries, meta).len() <= entries.len(),
        (forall|k: int| 0 <= k < entries.len() ==> (#[trigger] entry_media(entries[k], meta)) is Some) ==> {
            &&& gallery_entries(entries, meta).len() == entries.len()
            &&& forall|k: int|
                0 <= k < entries.len() ==> #[trigger] gallery_entries(entries, meta)[k] == entry_media(
                    entries[k],
                    meta,
                ).unwrap()
        },
    decreases entries.len(),
{
    let f = |e: JsonValue| entry_media(e, meta);
    lemma_gallery_filter_map(entries, meta, f);
    if entries.len() > 0 {
        let t = entries.drop_last();
        lemma_gallery_one_item_per_entry(t, meta);
        let r = gallery_entries(t, meta);
        let g = gallery_entries(entries, meta);
        if forall|k: int| 0 <= k < entries.len() ==> (#[trigger] entry_media(entries[k], meta)) is Some {
            assert forall|k: int| 0 <= k < t.len() implies (#[trigger] entry_media(t[k], meta)) is Some by {
                assert(t[k] == entries[k]);
                assert(entry_media(entries[k], meta) is Some);
            }
            assert(entry_media(entries[entries.len() - 1], meta) is Some);
            assert(entries.last() == entries[entries.len() - 1]);
            assert(g == r.push(entry_media(entries.last(), meta).unwrap()));
            assert forall|k: int| 0 <= k < entries.len() implies #[trigger] g[k] == entry_media(entries[k], meta).unwrap() by {
                if k < t.len() {
                    assert(g[k] == r[k]);
                    assert(t[k] == entries[k]);
                }
            }
        }
    }
}

} // verus!
