//! Routing a link to the extractor that handles it, and the normalization
//! that every extracted item goes through whatever its source.
use vstd::prelude::*;

use crate::hls::{HlsVariant, HlsVariantView};
use crate::models::{
    area, area_of, copy_variants, ExtractedMediaMetadata, MediaItem, MediaItemView, MediaType,
    MediaVariant, MetadataView, VariantView, new_item_view,
};
use crate::order::{int_keys, key_le, lemma_stable_order, stable_order, stable_sorted_indices};
use crate::text::{char_vec, contains_lit, copy_string, has_sub, lowercase, to_lower};

verus! {

/// A site-specific extractor: which links it handles. Fetching is done
/// around the library, by whoever drives the extractor.
pub trait Extractor {
    /// Whether this extractor handles the link.
    fn supports(&self, url: &str) -> bool;
}

/// The Instagram extractor.
pub struct InstagramExtractor;

/// The Reddit extractor.
pub struct RedditExtractor;

/// The lowercased link names an Instagram host.
pub open spec fn instagram_link(url: Seq<char>) -> bool {
    let l = lowercase(url);
    has_sub(l, "instagram.com"@) || has_sub(l, "instagr.am"@)
}

/// The lowercased link names a Reddit host.
pub open spec fn reddit_link(url: Seq<char>) -> bool {
    let l = lowercase(url);
    has_sub(l, "reddit.com"@) || has_sub(l, "redd.it"@)
}

impl Extractor for InstagramExtractor {
    fn supports(&self, url: &str) -> (r: bool)
        ensures
            r == instagram_link(url@),
    {
        let lower = to_lower(url);
        let l = char_vec(lower.as_str());
        contains_lit(&l, "instagram.com") || contains_lit(&l, "instagr.am")
    }
}

impl Extractor for RedditExtractor {
    fn supports(&self, url: &str) -> (r: bool)
        ensures
            r == reddit_link(url@),
    {
        let lower = to_lower(url);
        let l = char_vec(lower.as_str());
        contains_lit(&l, "reddit.com") || contains_lit(&l, "redd.it")
    }
}

/// Which extractor a link goes to.
#[derive(Debug, Clone, Copy, PartialEq, Eq, Structural)]
pub enum Route {
    Instagram,
    Reddit,
    /// The generic page scraper (with the headless browser as fallback).
    Generic,
}

/// The route of a link: Instagram first, then Reddit, else generic.
pub open spec fn route_for(url: Seq<char>) -> Route {
    if instagram_link(url) {
        Route::Instagram
    } else if reddit_link(url) {
        Route::Reddit
    } else {
        Route::Generic
    }
}

/// The extractor a link goes to.
pub fn route(url: &str) -> (r: Route)
    ensures
        r == route_for(url@),
{
    if InstagramExtractor.supports(url) {
        Route::Instagram
    } else if RedditExtractor.supports(url) {
        Route::Reddit
    } else {
        Route::Generic
    }
}

/// The lowercased link looks like a video watch page.
pub open spec fn video_watch_link(url: Seq<char>) -> bool {
    let l = lowercase(url);
    ||| has_sub(l, "/watch"@)
    ||| has_sub(l, "/movie"@)
    ||| has_sub(l, "/video"@)
    ||| has_sub(l, "/film"@)
    ||| has_sub(l, "/series"@)
    ||| has_sub(l, "/stream"@)
    ||| has_sub(l, "/play"@)
    ||| has_sub(l, "/v/"@)
}

/// Whether a link looks like a video watch page, whose player may need a
/// browser to reveal its streams.
pub fn is_video_watch_url(url: &str) -> (r: bool)
    ensures
        r == video_watch_link(url@),
{
    let lower = to_lower(url);
    let l = char_vec(lower.as_str());
    contains_lit(&l, "/watch") || contains_lit(&l, "/movie") || contains_lit(&l, "/video")
        || contains_lit(&l, "/film") || contains_lit(&l, "/series") || contains_lit(&l, "/stream")
        || contains_lit(&l, "/play") || contains_lit(&l, "/v/")
}

/// Whether any item is a video.
pub open spec fn any_video(items: Seq<MediaItemView>) -> bool {
    exists|i: int| 0 <= i < items.len() && #[trigger] items[i].media_type == MediaType::Video
}

/// Whether the static scrape must be escalated to the browser: a watch page
/// on which the static request found no video.
pub fn needs_browser(url: &str, scraped: &ExtractedMediaMetadata) -> (r: bool)
    ensures
        r == (video_watch_link(url@) && !any_video(scraped@.items)),
{
    if !is_video_watch_url(url) {
        return false;
    }
    let mut i: usize = 0;
    while i < scraped.items.len()
        invariant
            i <= scraped.items.len(),
            forall|k: int| 0 <= k < i ==> scraped.items@[k].media_type != MediaType::Video,
        decreases scraped.items.len() - i,
    {
        if scraped.items[i].media_type == MediaType::Video {
            assert(scraped@.items[i as int].media_type == MediaType::Video);
            return false;
        }
        i += 1;
    }
    assert forall|k: int| 0 <= k < scraped@.items.len() implies #[trigger] scraped@.items[k].media_type
        != MediaType::Video by {
        assert(scraped@.items[k].media_type == scraped.items@[k].media_type);
    }
    true
}

/// The browser result completed by the static scrape: post text, date, tags
/// and discovered links that the browser did not find are taken from the
/// static scrape.
pub open spec fn completed(browser: MetadataView, scraped: MetadataView) -> MetadataView {
    MetadataView {
        post_text: if browser.post_text is None {
            scraped.post_text
        } else {
            browser.post_text
        },
        published_at: if browser.published_at is None {
            scraped.published_at
        } else {
            browser.published_at
        },
        tags: if browser.tags.len() == 0 {
            scraped.tags
        } else {
            browser.tags
        },
        discovered_post_urls: if browser.discovered_post_urls.len() == 0 {
            scraped.discovered_post_urls
        } else {
            browser.discovered_post_urls
        },
        ..browser
    }
}

/// Completes a browser result with what the static scrape found.
pub fn complete_browser_result(
    browser: ExtractedMediaMetadata,
    scraped: ExtractedMediaMetadata,
) -> (r: ExtractedMediaMetadata)
    ensures
        r@ == completed(browser@, scraped@),
{
    let mut b = browser;
    if b.post_text.is_none() {
        b.post_text = scraped.post_text;
    }
    if b.published_at.is_none() {
        b.published_at = scraped.published_at;
    }
    if b.tags.len() == 0 {
        b.tags = scraped.tags;
    }
    if b.discovered_post_urls.len() == 0 {
        b.discovered_post_urls = scraped.discovered_post_urls;
    }
    b
}

/// An HLS item replaced by the best rendition of its master playlist: the
/// rendition's URL, dimensions and audio track, the page as referer, the
/// rest of the item kept.
pub open spec fn expanded_item(item: MediaItemView, best: HlsVariantView, page: Seq<char>) -> MediaItemView {
    new_item_view(
        MediaType::Video,
        item.mime_type,
        best.dimensions,
        item.file_size_bytes,
        best.video_url,
        item.thumbnail_url,
        best.audio_url,
        item.subtitles_url,
        Some(page),
        item.raw_master_url,
    )
}

/// Whether an item is an HLS video whose master playlist is worth resolving.
pub fn is_hls_item(item: &MediaItem) -> (r: bool)
    ensures
        r == (item@.media_type == MediaType::Video && has_sub(item@.high_res_url, ".m3u8"@)),
{
    let u = char_vec(item.high_res_url.as_str());
    item.media_type == MediaType::Video && contains_lit(&u, ".m3u8")
}

/// Replaces an HLS item by the best of its resolved renditions (the last one,
/// renditions being in ascending bandwidth); keeps the item when there is
/// none.
pub fn expand_hls_item(item: MediaItem, variants: &Vec<HlsVariant>, page_url: &str) -> (r: MediaItem)
    ensures
        variants@.len() > 0 ==> r@ == expanded_item(
            item@,
            variants@[variants@.len() - 1]@,
            page_url@,
        ),
        variants@.len() == 0 ==> r@ == item@,
{
    if variants.len() == 0 {
        return item;
    }
    let best = &variants[variants.len() - 1];
    MediaItem::new(
        MediaType::Video,
        item.mime_type.as_str(),
        best.dimensions,
        item.file_size_bytes,
        best.video_url.as_str(),
        item.thumbnail_url,
        crate::text::copy_opt(&best.audio_url),
        item.subtitles_url,
        Some(page_url.to_owned()),
        item.raw_master_url.as_str(),
    )
}

// ---------------------------------------------------------------------------
// Quality normalization
// ---------------------------------------------------------------------------

/// Rendition ranking: pixel area, then byte size.
pub open spec fn variant_rank(v: VariantView) -> (int, int) {
    (area_of(v.dimensions), match v.file_size_bytes {
        Some(s) => s as int,
        None => 0,
    })
}

/// Renditions in stable ascending order of area, then size.
pub open spec fn sorted_variants(vs: Seq<VariantView>) -> Seq<VariantView> {
    stable_order(vs.map_values(|v: VariantView| variant_rank(v)), vs.len()).map_values(
        |k: int| vs[k],
    )
}

/// An item after quality normalization. Without renditions, only a missing
/// thumbnail is filled with the main URL. Otherwise, with renditions in
/// ascending order of area then size: the largest becomes the main URL
/// (filling in missing dimensions and size), and the smallest becomes the
/// thumbnail when there is none.
pub open spec fn normalized(item: MediaItemView) -> MediaItemView {
    if item.variants.len() == 0 {
        MediaItemView {
            thumbnail_url: if item.thumbnail_url is None {
                Some(item.high_res_url)
            } else {
                item.thumbnail_url
            },
            ..item
        }
    } else {
        let s = sorted_variants(item.variants);
        let best = s.last();
        MediaItemView {
            high_res_url: best.url,
            dimensions: if item.dimensions is None {
                best.dimensions
            } else {
                item.dimensions
            },
            file_size_bytes: if item.file_size_bytes is None {
                best.file_size_bytes
            } else {
                item.file_size_bytes
            },
            thumbnail_url: if item.thumbnail_url is None {
                Some(s[0].url)
            } else {
                item.thumbnail_url
            },
            ..item
        }
    }
}

/// The rendition ranking keys.
fn variant_keys(vs: &Vec<MediaVariant>) -> (keys: Vec<(u128, u128)>)
    ensures
        int_keys(keys@) == vs.deep_view().map_values(|v: VariantView| variant_rank(v)),
        keys@.len() == vs@.len(),
{
    let mut keys: Vec<(u128, u128)> = Vec::new();
    let mut i: usize = 0;
    while i < vs.len()
        invariant
            i <= vs.len(),
            keys@.len() == i,
            forall|k: int|
                0 <= k < i ==> (#[trigger] keys@[k]).0 as int == area_of(vs@[k].dimensions)
                    && keys@[k].1 as int == (match vs@[k].file_size_bytes {
                    Some(s) => s as int,
                    None => 0,
                }),
        decreases vs.len() - i,
    {
        let a = area(&vs[i].dimensions);
        let sz: u128 = match vs[i].file_size_bytes {
            Some(x) => x as u128,
            None => 0,
        };
        keys.push((a, sz));
        i += 1;
    }
    assert(int_keys(keys@) =~= vs.deep_view().map_values(|v: VariantView| variant_rank(v)));
    keys
}

/// Renditions in stable ascending order of area, then size.
pub fn sort_variants(vs: &Vec<MediaVariant>) -> (r: Vec<MediaVariant>)
    ensures
        r.deep_view() == sorted_variants(vs.deep_view()),
        r@.len() == vs@.len(),
{
    let keys = variant_keys(vs);
    let order = stable_sorted_indices(&keys);
    let mut r: Vec<MediaVariant> = Vec::new();
    let mut i: usize = 0;
    while i < order.len()
        invariant
            i <= order@.len(),
            order@.len() == vs@.len(),
            forall|k: int| 0 <= k < order@.len() ==> order@[k] < vs@.len(),
            r@.len() == i,
            forall|k: int| 0 <= k < i ==> #[trigger] r@[k]@ == vs@[order@[k] as int]@,
        decreases order@.len() - i,
    {
        r.push(vs[order[i]].duplicate());
        i += 1;
    }
    proof {
        let vv = vs.deep_view();
        let so = stable_order(vv.map_values(|v: VariantView| variant_rank(v)), vv.len());
        assert(so =~= crate::order::int_indices(order@));
        assert(r.deep_view() =~= so.map_values(|k: int| vv[k]));
    }
    r
}

/// Guarantees a master URL and a thumbnail for an item: the largest
/// rendition becomes the main URL, the smallest the thumbnail when there is
/// none.
pub fn normalize_item_qualities(item: MediaItem) -> (r: MediaItem)
    ensures
        r@ == normalized(item@),
{
    let mut item = item;
    if item.variants.len() == 0 {
        if item.thumbnail_url.is_none() {
            item.thumbnail_url = Some(copy_string(&item.high_res_url));
        }
        return item;
    }
    let sorted = sort_variants(&item.variants);
    let best = &sorted[sorted.len() - 1];
    let ghost iv = item@;
    item.high_res_url = copy_string(&best.url);
    if item.dimensions.is_none() {
        item.dimensions = best.dimensions;
    }
    if item.file_size_bytes.is_none() {
        item.file_size_bytes = best.file_size_bytes;
    }
    if item.thumbnail_url.is_none() {
        item.thumbnail_url = Some(copy_string(&sorted[0].url));
    }
    proof {
        let s = sorted_variants(iv.variants);
        assert(sorted.deep_view() == s);
        assert(s.last() == sorted@[sorted@.len() - 1]@);
        assert(s[0] == sorted@[0]@);
    }
    item
}

/// Quality normalization guarantees a thumbnail for every item.
pub proof fn lemma_normalized_has_thumbnail(item: MediaItemView)
    ensures
        normalized(item).thumbnail_url is Some,
{
}

/// Normalizing an already normalized item changes nothing.
pub proof fn lemma_normalize_idempotent(item: MediaItemView)
    ensures
        normalized(normalized(item)) == normalized(item),
{
    let n1 = normalized(item);
    assert(n1.variants == item.variants);
    let n2 = normalized(n1);
    assert(n2.variants =~= n1.variants);
    assert(n2.mime_type =~= n1.mime_type);
    assert(n2.raw_master_url =~= n1.raw_master_url);
    assert(n2.high_res_url =~= n1.high_res_url);
    assert(n2 =~~= n1);
}

/// A rendition of `vs` that ranks at least as high as every rendition.
pub open spec fn ranks_highest(v: VariantView, vs: Seq<VariantView>) -> bool {
    &&& vs.contains(v)
    &&& forall|j: int| 0 <= j < vs.len() ==> key_le(variant_rank(#[trigger] vs[j]), variant_rank(v))
}

/// A rendition of `vs` that ranks at most as high as every rendition.
pub open spec fn ranks_lowest(v: VariantView, vs: Seq<VariantView>) -> bool {
    &&& vs.contains(v)
    &&& forall|j: int| 0 <= j < vs.len() ==> key_le(variant_rank(v), variant_rank(#[trigger] vs[j]))
}

/// Normalization promotes the largest rendition and thumbnails the smallest:
/// with renditions present, the main URL becomes a rendition of the highest
/// rank (area, then size), and a missing thumbnail becomes a rendition of
/// the lowest rank.
pub proof fn lemma_normalized_picks_extremes(item: MediaItemView)
    requires
        item.variants.len() > 0,
    ensures
        ranks_highest(sorted_variants(item.variants).last(), item.variants),
        ranks_lowest(sorted_variants(item.variants)[0], item.variants),
        normalized(item).high_res_url == sorted_variants(item.variants).last().url,
        item.thumbnail_url is None ==> normalized(item).thumbnail_url == Some(
            sorted_variants(item.variants)[0].url,
        ),
{
    let vs = item.variants;
    let keys = vs.map_values(|v: VariantView| variant_rank(v));
    lemma_stable_order(keys, vs.len());
    let so = stable_order(keys, vs.len());
    let s = sorted_variants(vs);
    let n = vs.len() as int;
    assert(s == so.map_values(|k: int| vs[k]));
    assert(s.last() == vs[so[n - 1]]);
    assert(s[0] == vs[so[0]]);
    assert forall|j: int| 0 <= j < n implies key_le(variant_rank(#[trigger] vs[j]), variant_rank(s.last()))
        && key_le(variant_rank(s[0]), variant_rank(vs[j])) by {
        assert(so.contains(j));
        let k = choose|k: int| 0 <= k < so.len() && so[k] == j;
        if k < n - 1 {
            assert(key_le(keys[so[k]], keys[so[n - 1]]));
        }
        if k > 0 {
            assert(key_le(keys[so[0]], keys[so[k]]));
        }
    }
    assert(vs[so[n - 1]] == s.last());
    assert(vs.contains(s.last()));
    assert(vs[so[0]] == s[0]);
    assert(vs.contains(s[0]));
}

} // verus!
