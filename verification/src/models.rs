//! The data model of extracted media: items, their alternate renditions, and
//! the metadata of a scraped post, each with a view over plain sequences.
use vstd::prelude::*;

use crate::text::{copy_opt, copy_string};

verus! {

/// The kind of a media asset.
#[derive(Debug, Clone, Copy, PartialEq, Eq, Structural)]
pub enum MediaType {
    Video,
    Image,
}

/// Pixel dimensions of an asset.
#[derive(Debug, Clone, Copy, PartialEq, Eq, Structural)]
pub struct MediaDimensions {
    pub width: usize,
    pub height: usize,
}

/// The pixel area of optional dimensions, zero when absent.
pub open spec fn area_of(d: Option<MediaDimensions>) -> int {
    match d {
        Some(d) => d.width * d.height,
        None => 0,
    }
}

/// Computes `area_of`, in a type wide enough for any product of two `usize`.
pub fn area(d: &Option<MediaDimensions>) -> (a: u128)
    ensures
        a as int == area_of(*d),
{
    match d {
        Some(d) => {
            let w = d.width as u128;
            let h = d.height as u128;
            assert(w * h <= u64::MAX as int * u64::MAX as int) by (nonlinear_arith)
                requires
                    w <= u64::MAX,
                    h <= u64::MAX,
            ;
            w * h
        },
        None => 0,
    }
}

/// One rendition of an asset (a resolution, a bitrate, an audio track).
#[derive(Debug, Clone)]
pub struct MediaVariant {
    pub url: String,
    pub dimensions: Option<MediaDimensions>,
    pub file_size_bytes: Option<u64>,
    /// A short description such as "1080p" or "640w".
    pub label: Option<String>,
}

/// A rendition seen as plain values.
pub struct VariantView {
    pub url: Seq<char>,
    pub dimensions: Option<MediaDimensions>,
    pub file_size_bytes: Option<u64>,
    pub label: Option<Seq<char>>,
}

impl View for MediaVariant {
    type V = VariantView;

    open spec fn view(&self) -> VariantView {
        VariantView {
            url: self.url@,
            dimensions: self.dimensions,
            file_size_bytes: self.file_size_bytes,
            label: self.label.deep_view(),
        }
    }
}

impl DeepView for MediaVariant {
    type V = VariantView;

    open spec fn deep_view(&self) -> VariantView {
        self.view()
    }
}

impl MediaVariant {
    /// A copy of this rendition.
    pub fn duplicate(&self) -> (r: MediaVariant)
        ensures
            r@ == self@,
    {
        MediaVariant {
            url: copy_string(&self.url),
            dimensions: self.dimensions,
            file_size_bytes: self.file_size_bytes,
            label: copy_opt(&self.label),
        }
    }
}

/// A copy of a list of renditions.
pub fn copy_variants(v: &Vec<MediaVariant>) -> (r: Vec<MediaVariant>)
    ensures
        r.deep_view() == v.deep_view(),
{
    let mut r: Vec<MediaVariant> = Vec::new();
    let mut i: usize = 0;
    while i < v.len()
        invariant
            i <= v.len(),
            r@.len() == i,
            forall|k: int| 0 <= k < i ==> #[trigger] r@[k]@ == v@[k]@,
        decreases v.len() - i,
    {
        r.push(v[i].duplicate());
        i += 1;
    }
    assert(r.deep_view() =~= v.deep_view());
    r
}

/// A media asset found on a page, with every rendition known for it.
#[derive(Debug, Clone)]
pub struct MediaItem {
    pub media_type: MediaType,
    pub mime_type: String,
    pub dimensions: Option<MediaDimensions>,
    pub file_size_bytes: Option<u64>,
    pub high_res_url: String,
    pub thumbnail_url: Option<String>,
    pub audio_url: Option<String>,
    pub subtitles_url: Option<String>,
    pub referer_required: Option<String>,
    pub raw_master_url: String,
    pub variants: Vec<MediaVariant>,
}

/// A media asset seen as plain values.
pub struct MediaItemView {
    pub media_type: MediaType,
    pub mime_type: Seq<char>,
    pub dimensions: Option<MediaDimensions>,
    pub file_size_bytes: Option<u64>,
    pub high_res_url: Seq<char>,
    pub thumbnail_url: Option<Seq<char>>,
    pub audio_url: Option<Seq<char>>,
    pub subtitles_url: Option<Seq<char>>,
    pub referer_required: Option<Seq<char>>,
    pub raw_master_url: Seq<char>,
    pub variants: Seq<VariantView>,
}

impl View for MediaItem {
    type V = MediaItemView;

    open spec fn view(&self) -> MediaItemView {
        MediaItemView {
            media_type: self.media_type,
            mime_type: self.mime_type@,
            dimensions: self.dimensions,
            file_size_bytes: self.file_size_bytes,
            high_res_url: self.high_res_url@,
            thumbnail_url: self.thumbnail_url.deep_view(),
            audio_url: self.audio_url.deep_view(),
            subtitles_url: self.subtitles_url.deep_view(),
            referer_required: self.referer_required.deep_view(),
            raw_master_url: self.raw_master_url@,
            variants: self.variants.deep_view(),
        }
    }
}

impl DeepView for MediaItem {
    type V = MediaItemView;

    open spec fn deep_view(&self) -> MediaItemView {
        self.view()
    }
}

/// The item that `MediaItem::new` builds: one rendition, the given URL,
/// with the item's dimensions and size and no label.
pub open spec fn new_item_view(
    media_type: MediaType,
    mime_type: Seq<char>,
    dimensions: Option<MediaDimensions>,
    file_size_bytes: Option<u64>,
    high_res_url: Seq<char>,
    thumbnail_url: Option<Seq<char>>,
    audio_url: Option<Seq<char>>,
    subtitles_url: Option<Seq<char>>,
    referer_required: Option<Seq<char>>,
    raw_master_url: Seq<char>,
) -> MediaItemView {
    MediaItemView {
        media_type,
        mime_type,
        dimensions,
        file_size_bytes,
        high_res_url,
        thumbnail_url,
        audio_url,
        subtitles_url,
        referer_required,
        raw_master_url,
        variants: seq![
            VariantView { url: high_res_url, dimensions, file_size_bytes, label: None },
        ],
    }
}

impl MediaItem {
    /// Builds an item whose only rendition is `high_res_url` itself.
    pub fn new(
        media_type: MediaType,
        mime_type: &str,
        dimensions: Option<MediaDimensions>,
        file_size_bytes: Option<u64>,
        high_res_url: &str,
        thumbnail_url: Option<String>,
        audio_url: Option<String>,
        subtitles_url: Option<String>,
        referer_required: Option<String>,
        raw_master_url: &str,
    ) -> (item: MediaItem)
        ensures
            item@ == new_item_view(
                media_type,
                mime_type@,
                dimensions,
                file_size_bytes,
                high_res_url@,
                thumbnail_url.deep_view(),
                audio_url.deep_view(),
                subtitles_url.deep_view(),
                referer_required.deep_view(),
                raw_master_url@,
            ),
    {
        let url_str = high_res_url.to_owned();
        let initial_variant = MediaVariant {
            url: copy_string(&url_str),
            dimensions,
            file_size_bytes,
            label: None,
        };
        let mut variants: Vec<MediaVariant> = Vec::new();
        variants.push(initial_variant);
        let item = MediaItem {
            media_type,
            mime_type: mime_type.to_owned(),
            dimensions,
            file_size_bytes,
            high_res_url: url_str,
            thumbnail_url,
            audio_url,
            subtitles_url,
            referer_required,
            raw_master_url: raw_master_url.to_owned(),
            variants,
        };
        assert(item.variants.deep_view() =~= seq![
            VariantView { url: high_res_url@, dimensions, file_size_bytes, label: None },
        ]);
        item
    }

    /// A copy of this item.
    pub fn duplicate(&self) -> (r: MediaItem)
        ensures
            r@ == self@,
    {
        MediaItem {
            media_type: self.media_type,
            mime_type: copy_string(&self.mime_type),
            dimensions: self.dimensions,
            file_size_bytes: self.file_size_bytes,
            high_res_url: copy_string(&self.high_res_url),
            thumbnail_url: copy_opt(&self.thumbnail_url),
            audio_url: copy_opt(&self.audio_url),
            subtitles_url: copy_opt(&self.subtitles_url),
            referer_required: copy_opt(&self.referer_required),
            raw_master_url: copy_string(&self.raw_master_url),
            variants: copy_variants(&self.variants),
        }
    }
}

/// Everything extracted from one post or page.
#[derive(Debug, Clone)]
pub struct ExtractedMediaMetadata {
    pub platform: String,
    pub author: String,
    pub caption: String,
    pub post_text: Option<String>,
    pub published_at: Option<String>,
    pub tags: Vec<String>,
    pub items: Vec<MediaItem>,
    pub next_page_url: Option<String>,
    pub discovered_post_urls: Vec<String>,
    pub embedded_player_urls: Vec<String>,
}

/// Extracted metadata seen as plain values.
pub struct MetadataView {
    pub platform: Seq<char>,
    pub author: Seq<char>,
    pub caption: Seq<char>,
    pub post_text: Option<Seq<char>>,
    pub published_at: Option<Seq<char>>,
    pub tags: Seq<Seq<char>>,
    pub items: Seq<MediaItemView>,
    pub next_page_url: Option<Seq<char>>,
    pub discovered_post_urls: Seq<Seq<char>>,
    pub embedded_player_urls: Seq<Seq<char>>,
}

impl View for ExtractedMediaMetadata {
    type V = MetadataView;

    open spec fn view(&self) -> MetadataView {
        MetadataView {
            platform: self.platform@,
            author: self.author@,
            caption: self.caption@,
            post_text: self.post_text.deep_view(),
            published_at: self.published_at.deep_view(),
            tags: self.tags.deep_view(),
            items: self.items.deep_view(),
            next_page_url: self.next_page_url.deep_view(),
            discovered_post_urls: self.discovered_post_urls.deep_view(),
            embedded_player_urls: self.embedded_player_urls.deep_view(),
        }
    }
}

} // verus!
