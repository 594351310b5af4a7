//! Instagram: shortcodes and media ids, the media items of the mobile API
//! and of the public GraphQL payloads, and the metadata of posts,
//! highlights, stories and profile feeds.
use vstd::prelude::*;

use crate::json::{
    json_array, json_get, json_i64, json_str, opt_array, opt_get, opt_str, opt_u64, u64_or_zero,
    JsonValue,
};
use crate::labels::{
    dimensions_if_known, dims_of, size_label, size_label_of, width_label, width_label_of,
};
use crate::models::{
    new_item_view, MediaDimensions, MediaItem, MediaItemView, MediaType, MediaVariant,
    VariantView,
};
use crate::order::{int_keys, stable_order, stable_sorted_indices};
use crate::text::{
    before_first, char_vec, copy_string, equals_lit, holds_string, prefix_before, replace_all,
    replace_lit, split_chars, split_on, string_of, trim, trim_class, CharClass,
};

verus! {

// ---------------------------------------------------------------------------
// URLs, shortcodes and media ids
// ---------------------------------------------------------------------------

/// A URL as the API escapes it, unescaped: `\/` is `/`, then `\u0026` is `&`.
pub open spec fn ig_clean(raw: Seq<char>) -> Seq<char> {
    replace_all(replace_all(raw, "\\/"@, "/"@), "\\u0026"@, "&"@)
}

/// Computes `ig_clean`.
pub fn clean_url(raw: &str) -> (r: String)
    ensures
        r@ == ig_clean(raw@),
{
    proof {
        reveal_strlit("\\/");
        reveal_strlit("\\u0026");
    }
    let v = char_vec(raw);
    let a = replace_lit(&v, "\\/", "/");
    let b = replace_lit(&a, "\\u0026", "&");
    string_of(&b)
}

/// A path segment that announces a post: `p`, `reel` or `reels`.
pub open spec fn post_marker(s: Seq<char>) -> bool {
    s == "p"@ || s == "reel"@ || s == "reels"@
}

/// The first position at or after `from` of a marker that has a segment
/// after it.
pub open spec fn first_marker(segs: Seq<Seq<char>>, from: int) -> Option<int>
    decreases segs.len() - from,
{
    if from < 0 || from + 1 >= segs.len() {
        None
    } else if post_marker(segs[from]) {
        Some(from)
    } else {
        first_marker(segs, from + 1)
    }
}

/// The path segments of a URL without its query, outer slashes trimmed.
pub open spec fn url_segments(url: Seq<char>) -> Seq<Seq<char>> {
    split_on(trim(before_first(url, '?'), CharClass::Only('/')), '/')
}

/// The shortcode of a post URL: the segment after the first `p`, `reel` or
/// `reels` segment.
pub open spec fn shortcode_of(url: Seq<char>) -> Option<Seq<char>> {
    let segs = url_segments(url);
    match first_marker(segs, 0) {
        Some(i) => Some(segs[i + 1]),
        None => None,
    }
}

/// The path segments of a URL without its query, outer slashes trimmed.
pub fn url_path_segments(url: &str) -> (r: Vec<Vec<char>>)
    ensures
        r.deep_view() == url_segments(url@),
{
    let v = char_vec(url);
    let c = prefix_before(&v, '?');
    let t = trim_class(&c, &CharClass::Only('/'));
    split_chars(&t, '/')
}

/// Whether a segment is a post marker.
fn is_post_marker(s: &Vec<char>) -> (r: bool)
    ensures
        r == post_marker(s@),
{
    equals_lit(s, "p") || equals_lit(s, "reel") || equals_lit(s, "reels")
}

/// The shortcode of a post URL.
pub fn extract_shortcode(url: &str) -> (r: Option<String>)
    ensures
        r.deep_view() == shortcode_of(url@),
{
    let segs = url_path_segments(url);
    let ghost sv = segs.deep_view();
    let mut i: usize = 0;
    while segs.len() - i > 1
        invariant
            i <= segs@.len(),
            sv == segs.deep_view(),
            sv == url_segments(url@),
            first_marker(sv, i as int) == first_marker(sv, 0),
        decreases segs.len() - i,
    {
        proof {
            crate::text::lemma_char_vec_deep_view(segs@[i as int]);
            crate::text::lemma_char_vec_deep_view(segs@[i + 1]);
        }
        if is_post_marker(&segs[i]) {
            return Some(string_of(&segs[i + 1]));
        }
        i += 1;
    }
    None
}

/// Why a shortcode has no media id.
#[derive(Debug, Clone, Copy, PartialEq, Eq, Structural)]
pub enum ShortcodeError {
    /// A character outside the shortcode alphabet.
    InvalidCharacter,
    /// The id does not fit in 128 bits.
    Overflow,
}

/// The value of a shortcode character in the alphabet
/// `A-Z a-z 0-9 - _`.
pub open spec fn alphabet_index(c: char) -> Option<nat> {
    if 'A' <= c && c <= 'Z' {
        Some((c as nat - 'A' as nat) as nat)
    } else if 'a' <= c && c <= 'z' {
        Some((c as nat - 'a' as nat + 26) as nat)
    } else if '0' <= c && c <= '9' {
        Some((c as nat - '0' as nat + 52) as nat)
    } else if c == '-' {
        Some(62)
    } else if c == '_' {
        Some(63)
    } else {
        None
    }
}

/// A shortcode read as a base-64 number, most significant character first,
/// failing at the first character that is not in the alphabet or whose
/// step would not fit in 128 bits.
pub open spec fn shortcode_value(s: Seq<char>) -> Result<nat, ShortcodeError>
    decreases s.len(),
{
    if s.len() == 0 {
        Ok(0)
    } else {
        match shortcode_value(s.drop_last()) {
            Err(e) => Err(e),
            Ok(v) => match alphabet_index(s.last()) {
                None => Err(ShortcodeError::InvalidCharacter),
                Some(d) => if v * 64 > u128::MAX {
                    Err(ShortcodeError::Overflow)
                } else {
                    Ok(v * 64 + d)
                },
            },
        }
    }
}

proof fn lemma_value_error_sticks(s: Seq<char>, i: int)
    requires
        0 <= i <= s.len(),
        shortcode_value(s.take(i)) is Err,
    ensures
        shortcode_value(s) == shortcode_value(s.take(i)),
    decreases s.len() - i,
{
    if i < s.len() {
        assert(s.take(i + 1).drop_last() =~= s.take(i));
        lemma_value_error_sticks(s, i + 1);
    } else {
        assert(s.take(i) =~= s);
    }
}

/// The position of a character in the shortcode alphabet.
fn alphabet_position(c: char) -> (r: Option<u128>)
    ensures
        r matches Some(d) ==> alphabet_index(c) == Some(d as nat),
        r is None ==> alphabet_index(c) is None,
{
    if 'A' <= c && c <= 'Z' {
        Some((c as u32 - 'A' as u32) as u128)
    } else if 'a' <= c && c <= 'z' {
        Some((c as u32 - 'a' as u32 + 26) as u128)
    } else if '0' <= c && c <= '9' {
        Some((c as u32 - '0' as u32 + 52) as u128)
    } else if c == '-' {
        Some(62)
    } else if c == '_' {
        Some(63)
    } else {
        None
    }
}

/// The numeric media id of a shortcode.
pub fn shortcode_to_id(shortcode: &str) -> (r: Result<u128, ShortcodeError>)
    ensures
        r matches Ok(id) ==> shortcode_value(shortcode@) == Ok::<nat, ShortcodeError>(id as nat),
        r matches Err(e) ==> shortcode_value(shortcode@) == Err::<nat, ShortcodeError>(e),
{
    let v = char_vec(shortcode);
    let mut id: u128 = 0;
    let mut i: usize = 0;
    assert(v@.take(0) =~= Seq::<char>::empty());
    while i < v.len()
        invariant
            i <= v@.len(),
            v@ == shortcode@,
            shortcode_value(v@.take(i as int)) == Ok::<nat, ShortcodeError>(id as nat),
        decreases v.len() - i,
    {
        assert(v@.take(i + 1).drop_last() =~= v@.take(i as int));
        assert(v@.take(i + 1).last() == v@[i as int]);
        let d = match alphabet_position(v[i]) {
            Some(d) => d,
            None => {
                proof {
                    lemma_value_error_sticks(v@, i + 1);
                }
                return Err(ShortcodeError::InvalidCharacter);
            },
        };
        let scaled = match id.checked_mul(64) {
            Some(x) => x,
            None => {
                proof {
                    lemma_value_error_sticks(v@, i + 1);
                }
                return Err(ShortcodeError::Overflow);
            },
        };
        assert(scaled + d <= u128::MAX);
        id = scaled + d;
        i += 1;
    }
    assert(v@.take(v@.len() as int) =~= v@);
    Ok(id)
}

/// RFC 3339 text of the UTC instant `secs` seconds after the Unix epoch,
/// when chrono can represent that instant.
pub uninterp spec fn rfc3339_utc(secs: int) -> Option<Seq<char>>;

/// `chrono::DateTime::from_timestamp(secs, 0)` rendered by `to_rfc3339`:
/// the result is named by `rfc3339_utc`; chrono's range and format are
/// left unstated.
#[verifier::external_body]
pub(crate) fn format_epoch_timestamp(epoch_secs: i64) -> (r: Option<String>)
    ensures
        r.deep_view() == rfc3339_utc(epoch_secs as int),
{
    match chrono::DateTime::from_timestamp(epoch_secs, 0) {
        Some(dt) => Some(dt.to_rfc3339()),
        None => None,
    }
}

// ---------------------------------------------------------------------------
// Renditions of the mobile API
// ---------------------------------------------------------------------------

/// One rendition read from a candidate or video version.
#[derive(Debug)]
pub struct Rendition {
    pub width: usize,
    pub height: usize,
    pub url: String,
    pub size: Option<u64>,
}

/// A rendition seen as plain values.
pub struct RenditionView {
    pub width: usize,
    pub height: usize,
    pub url: Seq<char>,
    pub size: Option<u64>,
}

impl View for Rendition {
    type V = RenditionView;

    open spec fn view(&self) -> RenditionView {
        RenditionView { width: self.width, height: self.height, url: self.url@, size: self.size }
    }
}

impl Rendition {
    /// A copy of this rendition.
    pub fn duplicate(&self) -> (r: Rendition)
        ensures
            r@ == self@,
    {
        Rendition {
            width: self.width,
            height: self.height,
            url: copy_string(&self.url),
            size: self.size,
        }
    }
}

impl DeepView for Rendition {
    type V = RenditionView;

    open spec fn deep_view(&self) -> RenditionView {
        self.view()
    }
}

/// The two payload layouts that list renditions.
#[derive(Debug, Clone, Copy, PartialEq, Eq, Structural)]
pub enum Layout {
    /// Mobile API entries: `url`, `width`, `height`, `file_size` or
    /// `file_size_bytes`.
    Mobile,
    /// GraphQL `display_resources`: `src`, `config_width`,
    /// `config_height`, `file_size_bytes`.
    Graphql,
}

/// The byte size of an entry: for the mobile layout `file_size` when
/// present, else `file_size_bytes`; for GraphQL `file_size_bytes`; read as
/// a `u64`.
pub open spec fn entry_size(e: JsonValue, layout: Layout) -> Option<u64> {
    match layout {
        Layout::Mobile => match json_get(e, "file_size"@) {
            Some(x) => opt_u64(Some(x)),
            None => opt_u64(json_get(e, "file_size_bytes"@)),
        },
        Layout::Graphql => opt_u64(json_get(e, "file_size_bytes"@)),
    }
}

/// The URL of an entry.
pub open spec fn entry_url(e: JsonValue, layout: Layout) -> Option<Seq<char>> {
    match layout {
        Layout::Mobile => opt_str(json_get(e, "url"@)),
        Layout::Graphql => opt_str(json_get(e, "src"@)),
    }
}

/// The width of an entry, zero when absent.
pub open spec fn entry_width(e: JsonValue, layout: Layout) -> usize {
    match layout {
        Layout::Mobile => u64_or_zero(json_get(e, "width"@)) as usize,
        Layout::Graphql => u64_or_zero(json_get(e, "config_width"@)) as usize,
    }
}

/// The height of an entry, zero when absent.
pub open spec fn entry_height(e: JsonValue, layout: Layout) -> usize {
    match layout {
        Layout::Mobile => u64_or_zero(json_get(e, "height"@)) as usize,
        Layout::Graphql => u64_or_zero(json_get(e, "config_height"@)) as usize,
    }
}

/// The rendition of an entry that has a string URL.
pub open spec fn rendition_of(e: JsonValue, layout: Layout) -> Option<RenditionView> {
    match entry_url(e, layout) {
        Some(u) => Some(
            RenditionView {
                width: entry_width(e, layout),
                height: entry_height(e, layout),
                url: ig_clean(u),
                size: entry_size(e, layout),
            },
        ),
        None => None,
    }
}

/// The URLs of renditions.
pub open spec fn rendition_urls(rs: Seq<RenditionView>) -> Seq<Seq<char>> {
    rs.map_values(|r: RenditionView| r.url)
}

/// The renditions of the entries, in order, the first of each URL kept.
pub open spec fn renditions(es: Seq<JsonValue>, layout: Layout) -> Seq<RenditionView>
    decreases es.len(),
{
    if es.len() == 0 {
        seq![]
    } else {
        let r = renditions(es.drop_last(), layout);
        match rendition_of(es.last(), layout) {
            Some(x) => if rendition_urls(r).contains(x.url) {
                r
            } else {
                r.push(x)
            },
            None => r,
        }
    }
}

/// The sort key by area: larger areas first when `descending`, smaller
/// first otherwise.
pub open spec fn area_key(r: RenditionView, descending: bool) -> (int, int) {
    if descending {
        (u128::MAX - r.width * r.height, 0)
    } else {
        (r.width * r.height, 0)
    }
}

/// Renditions in stable order of area, descending or ascending.
pub open spec fn by_area(rs: Seq<RenditionView>, descending: bool) -> Seq<RenditionView> {
    stable_order(rs.map_values(|r: RenditionView| area_key(r, descending)), rs.len()).map_values(
        |k: int| rs[k],
    )
}

/// The rendition as an item rendition with the given label.
pub open spec fn as_variant(r: RenditionView, label: Seq<char>) -> VariantView {
    VariantView {
        url: r.url,
        dimensions: dims_of(r.width, r.height),
        file_size_bytes: r.size,
        label: Some(label),
    }
}

/// The width, height and size of an entry.
fn entry_numbers(e: &JsonValue, layout: Layout) -> (r: (usize, usize, Option<u64>))
    ensures
        r.0 == entry_width(*e, layout),
        r.1 == entry_height(*e, layout),
        r.2 == entry_size(*e, layout),
{
    match layout {
        Layout::Mobile => {
            let w = #[verifier::truncate] (e.u64_field("width") as usize);
            let h = #[verifier::truncate] (e.u64_field("height") as usize);
            let size = match e.get("file_size") {
                Some(x) => x.as_u64(),
                None => match e.get("file_size_bytes") {
                    Some(x) => x.as_u64(),
                    None => None,
                },
            };
            (w, h, size)
        },
        Layout::Graphql => {
            let w = #[verifier::truncate] (e.u64_field("config_width") as usize);
            let h = #[verifier::truncate] (e.u64_field("config_height") as usize);
            let size = match e.get("file_size_bytes") {
                Some(x) => x.as_u64(),
                None => None,
            };
            (w, h, size)
        },
    }
}

/// Reads the renditions of a list of entries.
pub fn read_renditions(es: &Vec<JsonValue>, layout: Layout) -> (r: Vec<Rendition>)
    ensures
        r.deep_view() == renditions(es@, layout),
{
    let mut out: Vec<Rendition> = Vec::new();
    let mut seen: Vec<String> = Vec::new();
    let mut i: usize = 0;
    while i < es.len()
        invariant
            i <= es@.len(),
            out.deep_view() == renditions(es@.take(i as int), layout),
            seen.deep_view() == rendition_urls(out.deep_view()),
        decreases es.len() - i,
    {
        let e = &es[i];
        assert(es@.take(i + 1).drop_last() =~= es@.take(i as int));
        assert(es@.take(i + 1).last() == es@[i as int]);
        let url_field = match layout {
            Layout::Mobile => e.str_field("url"),
            Layout::Graphql => e.str_field("src"),
        };
        match url_field {
            Some(u) => {
                let cleaned = clean_url(u);
                if !holds_string(&seen, &cleaned) {
                    let (w, h, size) = entry_numbers(e, layout);
                    let ghost before = out.deep_view();
                    let ghost seen_before = seen.deep_view();
                    let ghost cleaned_view = cleaned@;
                    seen.push(copy_string(&cleaned));
                    out.push(Rendition { width: w, height: h, url: cleaned, size });
                    assert(out.deep_view() =~= before.push(rendition_of(es@[i as int], layout).unwrap()));
                    assert(seen.deep_view() =~= seen_before.push(cleaned_view));
                    assert(rendition_urls(out.deep_view()) =~= rendition_urls(before).push(cleaned_view));
                    assert(seen.deep_view() =~= rendition_urls(out.deep_view()));
                }
            },
            None => {},
        }
        i += 1;
    }
    assert(es@.take(es@.len() as int) =~= es@);
    out
}

/// Renditions in stable order of area, descending or ascending.
pub fn sort_by_area(rs: &Vec<Rendition>, descending: bool) -> (r: Vec<Rendition>)
    ensures
        r.deep_view() == by_area(rs.deep_view(), descending),
{
    let ghost rv = rs.deep_view();
    let mut keys: Vec<(u128, u128)> = Vec::new();
    let mut i: usize = 0;
    while i < rs.len()
        invariant
            i <= rs@.len(),
            rv == rs.deep_view(),
            keys@.len() == i,
            forall|k: int|
                0 <= k < i ==> (#[trigger] keys@[k]).0 as int == area_key(rv[k], descending).0
                    && keys@[k].1 == 0,
        decreases rs.len() - i,
    {
        let w = rs[i].width as u128;
        let h = rs[i].height as u128;
        assert(w * h <= u64::MAX as int * u64::MAX as int) by (nonlinear_arith)
            requires
                w <= u64::MAX,
                h <= u64::MAX,
        ;
        if descending {
            keys.push((u128::MAX - w * h, 0));
        } else {
            keys.push((w * h, 0));
        }
        i += 1;
    }
    assert(int_keys(keys@) =~= rv.map_values(|r: RenditionView| area_key(r, descending)));
    let order = stable_sorted_indices(&keys);
    let mut out: Vec<Rendition> = Vec::new();
    let mut j: usize = 0;
    while j < order.len()
        invariant
            order@.len() == rv.len(),
            rv == rs.deep_view(),
            forall|k: int| 0 <= k < order@.len() ==> order@[k] < rv.len(),
            j <= order@.len(),
            out@.len() == j,
            forall|k: int| 0 <= k < j ==> #[trigger] out@[k]@ == rv[order@[k] as int],
        decreases order@.len() - j,
    {
        out.push(rs[order[j]].duplicate());
        j += 1;
    }
    proof {
        let so = stable_order(rv.map_values(|r: RenditionView| area_key(r, descending)), rv.len());
        assert(so =~= crate::order::int_indices(order@));
        assert(out.deep_view() =~= so.map_values(|k: int| rv[k]));
    }
    out
}

/// The label of a rendition: `{w}x{h}` when labelled by size, `{w}w`
/// otherwise.
pub open spec fn rendition_label(r: RenditionView, by_size: bool) -> Seq<char> {
    if by_size {
        size_label(r.width, r.height)
    } else {
        width_label(r.width)
    }
}

/// Renditions as item renditions, labelled.
pub open spec fn labelled(rs: Seq<RenditionView>, by_size: bool) -> Seq<VariantView> {
    rs.map_values(|r: RenditionView| as_variant(r, rendition_label(r, by_size)))
}

/// The Instagram origin, sent as referer.
pub open spec fn ig_origin() -> Seq<char> {
    "https://www.instagram.com/"@
}

/// An item whose master is the first of `rs`, carrying all of `rs` as its
/// renditions.
pub open spec fn item_of_renditions(
    kind: MediaType,
    mime: Seq<char>,
    rs: Seq<RenditionView>,
    thumb: Option<Seq<char>>,
    by_size: bool,
) -> MediaItemView {
    let best = rs[0];
    MediaItemView {
        variants: labelled(rs, by_size),
        ..new_item_view(
            kind,
            mime,
            dims_of(best.width, best.height),
            best.size,
            best.url,
            thumb,
            None,
            None,
            Some(ig_origin()),
            best.url,
        )
    }
}

/// The media type code of a mobile-API item, 1 (image) when absent.
pub open spec fn media_kind(item: JsonValue) -> int {
    match json_get(item, "media_type"@) {
        Some(t) => match json_i64(t) {
            Some(k) => k as int,
            None => 1,
        },
        None => 1,
    }
}

/// The media item of a mobile-API entry. Its image candidates must exist
/// and the last one must have a `url` member (its string, unescaped, is
/// the fallback thumbnail). A video (type 2) takes its renditions from a
/// non-empty `video_versions`, labelled by size; an image from its
/// candidates, labelled by width, with its smallest rendition as thumbnail.
/// Renditions are distinct by URL and sorted largest first; the largest
/// is the master. No usable rendition, no item.
pub open spec fn ig_media_item(item: JsonValue) -> Option<MediaItemView> {
    match opt_array(opt_get(json_get(item, "image_versions2"@), "candidates"@)) {
        None => None,
        Some(cands) => if cands.len() == 0 || json_get(cands.last(), "url"@) is None {
            None
        } else {
            let thumb = match opt_str(json_get(cands.last(), "url"@)) {
                Some(u) => Some(ig_clean(u)),
                None => None,
            };
            if media_kind(item) == 2 {
                match opt_array(json_get(item, "video_versions"@)) {
                    None => None,
                    Some(vs) => {
                        let rs = by_area(renditions(vs, Layout::Mobile), true);
                        if vs.len() == 0 || rs.len() == 0 {
                            None
                        } else {
                            Some(item_of_renditions(MediaType::Video, "video/mp4"@, rs, thumb, true))
                        }
                    },
                }
            } else {
                let rs = by_area(renditions(cands, Layout::Mobile), true);
                if rs.len() == 0 {
                    None
                } else {
                    Some(
                        item_of_renditions(
                            MediaType::Image,
                            "image/jpeg"@,
                            rs,
                            Some(rs.last().url),
                            false,
                        ),
                    )
                }
            }
        },
    }
}

/// Renditions as labelled item renditions.
fn rendition_variants(rs: &Vec<Rendition>, by_size: bool) -> (r: Vec<MediaVariant>)
    ensures
        r.deep_view() == labelled(rs.deep_view(), by_size),
{
    let mut out: Vec<MediaVariant> = Vec::new();
    let mut i: usize = 0;
    while i < rs.len()
        invariant
            i <= rs@.len(),
            out@.len() == i,
            forall|k: int|
                0 <= k < i ==> #[trigger] out@[k]@ == as_variant(
                    rs@[k]@,
                    rendition_label(rs@[k]@, by_size),
                ),
        decreases rs.len() - i,
    {
        let r = &rs[i];
        let label = if by_size {
            size_label_of(r.width, r.height)
        } else {
            width_label_of(r.width)
        };
        out.push(
            MediaVariant {
                url: copy_string(&r.url),
                dimensions: dimensions_if_known(r.width, r.height),
                file_size_bytes: r.size,
                label: Some(label),
            },
        );
        i += 1;
    }
    assert(out.deep_view() =~= labelled(rs.deep_view(), by_size));
    out
}

/// Builds `item_of_renditions`.
fn build_item(
    kind: MediaType,
    mime: &str,
    rs: &Vec<Rendition>,
    thumb: Option<String>,
    by_size: bool,
) -> (r: MediaItem)
    requires
        rs@.len() > 0,
    ensures
        r@ == item_of_renditions(kind, mime@, rs.deep_view(), thumb.deep_view(), by_size),
{
    let best = &rs[0];
    let mut media = MediaItem::new(
        kind,
        mime,
        dimensions_if_known(best.width, best.height),
        best.size,
        best.url.as_str(),
        thumb,
        None,
        None,
        Some("https://www.instagram.com/".to_owned()),
        best.url.as_str(),
    );
    media.variants = rendition_variants(rs, by_size);
    assert(rs.deep_view()[0] == rs@[0]@);
    media
}

/// The media item of a mobile-API entry.
pub fn parse_media_item(item: &JsonValue) -> (r: Option<MediaItem>)
    ensures
        r.is_some() == ig_media_item(*item).is_some(),
        r.is_some() ==> r.unwrap()@ == ig_media_item(*item).unwrap(),
{
    let media_type: i64 = match item.get("media_type") {
        Some(t) => match t.as_i64() {
            Some(k) => k,
            None => 1,
        },
        None => 1,
    };
    let iv = match item.get("image_versions2") {
        Some(x) => x,
        None => return None,
    };
    let cands = match iv.array_field("candidates") {
        Some(c) => c,
        None => return None,
    };
    if cands.len() == 0 {
        return None;
    }
    let last_url = match cands[cands.len() - 1].get("url") {
        Some(u) => u,
        None => return None,
    };
    let thumbnail_url = match last_url.as_str() {
        Some(u) => Some(clean_url(u)),
        None => None,
    };
    if media_type == 2 {
        let versions = match item.array_field("video_versions") {
            Some(v) => v,
            None => return None,
        };
        if versions.len() == 0 {
            return None;
        }
        let parsed = read_renditions(versions, Layout::Mobile);
        let sorted = sort_by_area(&parsed, true);
        if sorted.len() == 0 {
            return None;
        }
        Some(build_item(MediaType::Video, "video/mp4", &sorted, thumbnail_url, true))
    } else {
        let parsed = read_renditions(cands, Layout::Mobile);
        let sorted = sort_by_area(&parsed, true);
        if sorted.len() == 0 {
            return None;
        }
        let thumb = Some(copy_string(&sorted[sorted.len() - 1].url));
        assert(sorted.deep_view().last() == sorted@[sorted@.len() - 1]@);
        Some(build_item(MediaType::Image, "image/jpeg", &sorted, thumb, false))
    }
}

/// The item of a GraphQL image: its renditions (distinct by URL, from
/// `display_resources`) in ascending area; the largest is the master and
/// gives the dimensions (the node's own when it has none), the smallest is
/// the thumbnail; without renditions the display URL serves for both.
pub open spec fn graphql_image(display: Seq<char>, dims: Option<MediaDimensions>, rs: Seq<RenditionView>) -> MediaItemView {
    if rs.len() == 0 {
        new_item_view(
            MediaType::Image,
            "image/jpeg"@,
            dims,
            None,
            display,
            Some(display),
            None,
            None,
            Some(ig_origin()),
            display,
        )
    } else {
        let best = rs.last();
        let best_dims = match dims_of(best.width, best.height) {
            Some(d) => Some(d),
            None => dims,
        };
        MediaItemView {
            variants: labelled(rs, false),
            ..new_item_view(
                MediaType::Image,
                "image/jpeg"@,
                best_dims,
                None,
                best.url,
                Some(rs[0].url),
                None,
                None,
                Some(ig_origin()),
                best.url,
            )
        }
    }
}

/// The media item of a GraphQL node. It needs a string `display_url`
/// (unescaped); its dimensions come from `dimensions.width` and
/// `dimensions.height`. A video (`is_video`) also needs a `video_url` and
/// shows the display URL as thumbnail; an image is `graphql_image`.
pub open spec fn ig_graphql_item(node: JsonValue) -> Option<MediaItemView> {
    let is_video = match json_get(node, "is_video"@) {
        Some(b) => match crate::json::json_bool(b) {
            Some(x) => x,
            None => false,
        },
        None => false,
    };
    match opt_str(json_get(node, "display_url"@)) {
        None => None,
        Some(raw_display) => {
            let display = ig_clean(raw_display);
            let dim_obj = json_get(node, "dimensions"@);
            let dims = dims_of(
                u64_or_zero(opt_get(dim_obj, "width"@)) as usize,
                u64_or_zero(opt_get(dim_obj, "height"@)) as usize,
            );
            if is_video {
                match opt_str(json_get(node, "video_url"@)) {
                    None => None,
                    Some(v) => Some(
                        new_item_view(
                            MediaType::Video,
                            "video/mp4"@,
                            dims,
                            None,
                            ig_clean(v),
                            Some(display),
                            None,
                            None,
                            Some(ig_origin()),
                            ig_clean(v),
                        ),
                    ),
                }
            } else {
                let rs = match opt_array(json_get(node, "display_resources"@)) {
                    Some(es) => by_area(renditions(es, Layout::Graphql), false),
                    None => seq![],
                };
                Some(graphql_image(display, dims, rs))
            }
        },
    }
}

/// The `u64` under `key` of an optional value, zero when absent.
fn sub_u64(v: Option<&JsonValue>, key: &str) -> (r: u64)
    ensures
        r == u64_or_zero(opt_get(
            match v {
                Some(x) => Some(*x),
                None => None,
            },
            key@,
        )),
{
    match v {
        Some(x) => x.u64_field(key),
        None => 0,
    }
}

/// The media item of a GraphQL node.
pub fn parse_graphql_node(node: &JsonValue) -> (r: Option<MediaItem>)
    ensures
        r.is_some() == ig_graphql_item(*node).is_some(),
        r.is_some() ==> r.unwrap()@ == ig_graphql_item(*node).unwrap(),
{
    let is_video = match node.get("is_video") {
        Some(b) => match b.as_bool() {
            Some(x) => x,
            None => false,
        },
        None => false,
    };
    let display_url = match node.str_field("display_url") {
        Some(u) => clean_url(u),
        None => return None,
    };
    let dim_obj = node.get("dimensions");
    let width = #[verifier::truncate] (sub_u64(dim_obj, "width") as usize);
    let height = #[verifier::truncate] (sub_u64(dim_obj, "height") as usize);
    let dims = dimensions_if_known(width, height);
    if is_video {
        let video_url = match node.str_field("video_url") {
            Some(u) => clean_url(u),
            None => return None,
        };
        return Some(
            MediaItem::new(
                MediaType::Video,
                "video/mp4",
                dims,
                None,
                video_url.as_str(),
                Some(display_url),
                None,
                None,
                Some("https://www.instagram.com/".to_owned()),
                video_url.as_str(),
            ),
        );
    }
    let sorted = match node.array_field("display_resources") {
        Some(es) => {
            let parsed = read_renditions(es, Layout::Graphql);
            sort_by_area(&parsed, false)
        },
        None => Vec::new(),
    };
    if sorted.len() == 0 {
        return Some(
            MediaItem::new(
                MediaType::Image,
                "image/jpeg",
                dims,
                None,
                display_url.as_str(),
                Some(copy_string(&display_url)),
                None,
                None,
                Some("https://www.instagram.com/".to_owned()),
                display_url.as_str(),
            ),
        );
    }
    let best = &sorted[sorted.len() - 1];
    let best_dims = match dimensions_if_known(best.width, best.height) {
        Some(d) => Some(d),
        None => dims,
    };
    let mut media = MediaItem::new(
        MediaType::Image,
        "image/jpeg",
        best_dims,
        None,
        best.url.as_str(),
        Some(copy_string(&sorted[0].url)),
        None,
        None,
        Some("https://www.instagram.com/".to_owned()),
        best.url.as_str(),
    );
    media.variants = rendition_variants(&sorted, false);
    assert(sorted.deep_view().last() == sorted@[sorted@.len() - 1]@);
    assert(sorted.deep_view()[0] == sorted@[0]@);
    Some(media)
}


/// A GraphQL node marked `is_video` with a string `video_url` and a string
/// `display_url` is a video whose main URL and master URL are the unescaped
/// `video_url`; the unescaped `display_url` is only its thumbnail.
pub proof fn lemma_graphql_video_plays_video_url(node: JsonValue)
    requires
        json_get(node, "is_video"@) matches Some(b) && crate::json::json_bool(b) == Some(true),
        opt_str(json_get(node, "video_url"@)) is Some,
        opt_str(json_get(node, "display_url"@)) is Some,
    ensures
        ig_graphql_item(node) is Some,
        ig_graphql_item(node).unwrap().media_type == MediaType::Video,
        ig_graphql_item(node).unwrap().high_res_url == ig_clean(opt_str(json_get(node, "video_url"@)).unwrap()),
        ig_graphql_item(node).unwrap().raw_master_url == ig_clean(opt_str(json_get(node, "video_url"@)).unwrap()),
        ig_graphql_item(node).unwrap().thumbnail_url == Some(ig_clean(opt_str(json_get(node, "display_url"@)).unwrap())),
{
}

} // verus!
