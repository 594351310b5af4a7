//! Collapsing alternate resolutions of the same asset into one item: images
//! are grouped by a fingerprint of their URL, HLS renditions by their
//! directory, and each group becomes its best member carrying the renditions
//! of all members.
use vstd::prelude::*;

use crate::models::{area, area_of, MediaItem, MediaItemView, MediaType, MediaVariant, VariantView};
use crate::order::{int_keys, key_le, lemma_stable_order, stable_order, stable_sorted_indices};
use crate::text::{
    all_digits, before_first, char_vec, copy_opt, copy_string, contains_lit, has_sub, holds_string,
    is_suffix, lowercase, prefix_before, rsplit_once, split_last, string_of, to_lower,
};

verus! {

// ---------------------------------------------------------------------------
// Group keys
// ---------------------------------------------------------------------------

/// Every character of `s` is a decimal digit (vacuously so when empty).
pub open spec fn digits_only(s: Seq<char>) -> bool {
    forall|i: int| 0 <= i < s.len() ==> '0' <= #[trigger] s[i] && s[i] <= '9'
}

/// `path` without a trailing `_<digits>`, `_<...>w`, `_<...>p`, `-<digits>`
/// or `-scaled<...>` size marker.
pub open spec fn stripped_path(path: Seq<char>) -> Seq<char> {
    let under = match rsplit_once(path, '_') {
        Some(pr) => if digits_only(pr.1) || is_suffix(seq!['w'], pr.1) || is_suffix(
            seq!['p'],
            pr.1,
        ) {
            Some(pr.0)
        } else {
            None
        },
        None => None,
    };
    match under {
        Some(p) => p,
        None => match rsplit_once(path, '-') {
            Some(pr) => if digits_only(pr.1) || crate::text::is_prefix("scaled"@, pr.1) {
                pr.0
            } else {
                path
            },
            None => path,
        },
    }
}

/// The fingerprint shared by resolutions of one image: the URL without its
/// query and without a size marker before the extension.
pub open spec fn image_fingerprint(url: Seq<char>) -> Seq<char> {
    let base = before_first(url, '?');
    match rsplit_once(base, '.') {
        Some(pr) => stripped_path(pr.0) + seq!['.'] + pr.1,
        None => base,
    }
}

/// The key shared by renditions of one HLS stream: the URL's directory.
pub open spec fn hls_group_key(url: Seq<char>) -> Seq<char> {
    match rsplit_once(url, '/') {
        Some(pr) => pr.0,
        None => url,
    }
}

/// The two kinds of groups.
#[derive(Clone, Copy, PartialEq, Eq, Structural)]
pub enum GroupKind {
    Video,
    Image,
}

/// The group an item joins, if any: images by fingerprint, HLS videos by
/// stream directory; other videos join none.
pub open spec fn group_key(kind: GroupKind, it: MediaItemView) -> Option<Seq<char>> {
    match kind {
        GroupKind::Image => if it.media_type == MediaType::Image {
            Some(image_fingerprint(it.high_res_url))
        } else {
            None
        },
        GroupKind::Video => if it.media_type == MediaType::Video && has_sub(
            it.high_res_url,
            ".m3u8"@,
        ) {
            Some(hls_group_key(it.high_res_url))
        } else {
            None
        },
    }
}

/// The keys of the groups of `kind`, in order of first appearance.
pub open spec fn distinct_keys(items: Seq<MediaItemView>, kind: GroupKind) -> Seq<Seq<char>>
    decreases items.len(),
{
    if items.len() == 0 {
        seq![]
    } else {
        let r = distinct_keys(items.drop_last(), kind);
        match group_key(kind, items.last()) {
            Some(k) => if r.contains(k) {
                r
            } else {
                r.push(k)
            },
            None => r,
        }
    }
}

/// The members of the group `k` of `kind`, in the order they came.
pub open spec fn group_members(items: Seq<MediaItemView>, kind: GroupKind, k: Seq<char>) -> Seq<
    MediaItemView,
>
    decreases items.len(),
{
    if items.len() == 0 {
        seq![]
    } else {
        let r = group_members(items.drop_last(), kind, k);
        if group_key(kind, items.last()) == Some(k) {
            r.push(items.last())
        } else {
            r
        }
    }
}

/// The videos that are not HLS streams, in the order they came.
pub open spec fn passthrough(items: Seq<MediaItemView>) -> Seq<MediaItemView>
    decreases items.len(),
{
    if items.len() == 0 {
        seq![]
    } else {
        let r = passthrough(items.drop_last());
        let it = items.last();
        if it.media_type == MediaType::Video && !has_sub(it.high_res_url, ".m3u8"@) {
            r.push(it)
        } else {
            r
        }
    }
}

// ---------------------------------------------------------------------------
// Merging
// ---------------------------------------------------------------------------

/// An optional size, zero when absent.
pub open spec fn opt_size(s: Option<u64>) -> int {
    match s {
        Some(x) => x as int,
        None => 0,
    }
}

/// `items` in stable ascending order of `keys`.
pub open spec fn sorted_by(items: Seq<MediaItemView>, keys: Seq<(int, int)>) -> Seq<MediaItemView> {
    stable_order(keys, items.len()).map_values(|i: int| items[i])
}

/// Image ranking: pixel area, then byte size.
pub open spec fn image_rank(it: MediaItemView) -> (int, int) {
    (area_of(it.dimensions), opt_size(it.file_size_bytes))
}

/// All renditions of the items, item after item.
pub open spec fn all_variants(items: Seq<MediaItemView>) -> Seq<VariantView>
    decreases items.len(),
{
    if items.len() == 0 {
        seq![]
    } else {
        all_variants(items.drop_last()) + items.last().variants
    }
}

/// The URLs of renditions.
pub open spec fn variant_urls(vs: Seq<VariantView>) -> Seq<Seq<char>> {
    vs.map_values(|v: VariantView| v.url)
}

/// The renditions with repeated URLs dropped (the first one of each URL stays).
pub open spec fn unique_by_url(vs: Seq<VariantView>) -> Seq<VariantView>
    decreases vs.len(),
{
    if vs.len() == 0 {
        seq![]
    } else {
        let r = unique_by_url(vs.drop_last());
        if variant_urls(r).contains(vs.last().url) {
            r
        } else {
            r.push(vs.last())
        }
    }
}

/// `it` with its renditions replaced.
pub open spec fn with_variants(it: MediaItemView, vs: Seq<VariantView>) -> MediaItemView {
    MediaItemView {
        media_type: it.media_type,
        mime_type: it.mime_type,
        dimensions: it.dimensions,
        file_size_bytes: it.file_size_bytes,
        high_res_url: it.high_res_url,
        thumbnail_url: it.thumbnail_url,
        audio_url: it.audio_url,
        subtitles_url: it.subtitles_url,
        referer_required: it.referer_required,
        raw_master_url: it.raw_master_url,
        variants: vs,
    }
}

/// An image group as one item: its largest member (the last one of the
/// largest, by area then size) carrying every distinct rendition of the
/// group, collected in ascending rank order.
pub open spec fn merged_images(items: Seq<MediaItemView>) -> Option<MediaItemView> {
    if items.len() == 0 {
        None
    } else {
        let s = sorted_by(items, items.map_values(|it: MediaItemView| image_rank(it)));
        Some(with_variants(s.last(), unique_by_url(all_variants(s))))
    }
}

/// The quality label guessed from a video URL.
pub open spec fn quality_label(url: Seq<char>) -> Option<Seq<char>> {
    let l = lowercase(url);
    if has_sub(l, "4k"@) || has_sub(l, "2160"@) {
        Some("4K"@)
    } else if has_sub(l, "1080"@) {
        Some("1080p"@)
    } else if has_sub(l, "720"@) {
        Some("720p"@)
    } else if has_sub(l, "480"@) {
        Some("480p"@)
    } else if has_sub(l, "audio"@) {
        Some("Audio Track"@)
    } else {
        None
    }
}

/// A rendition with a guessed label when it has none.
pub open spec fn relabeled(v: VariantView) -> VariantView {
    if v.label is None {
        VariantView {
            url: v.url,
            dimensions: v.dimensions,
            file_size_bytes: v.file_size_bytes,
            label: quality_label(v.url),
        }
    } else {
        v
    }
}

/// Renditions with guessed labels where they have none.
pub open spec fn relabel_all(vs: Seq<VariantView>) -> Seq<VariantView> {
    vs.map_values(|v: VariantView| relabeled(v))
}

/// Whether a video member is, or carries, an audio track.
pub open spec fn audio_source(it: MediaItemView) -> bool {
    has_sub(lowercase(it.high_res_url), "audio"@) || it.audio_url is Some
}

/// The audio track of the first member that is or carries one.
pub open spec fn audio_track(items: Seq<MediaItemView>) -> Option<Seq<char>>
    decreases items.len(),
{
    if items.len() == 0 {
        None
    } else if audio_source(items[0]) {
        match items[0].audio_url {
            Some(a) => Some(a),
            None => Some(items[0].high_res_url),
        }
    } else {
        audio_track(items.drop_first())
    }
}

/// The video members that are not audio-only streams.
pub open spec fn non_audio(items: Seq<MediaItemView>) -> Seq<MediaItemView>
    decreases items.len(),
{
    if items.len() == 0 {
        seq![]
    } else {
        let r = non_audio(items.drop_last());
        if has_sub(lowercase(items.last().high_res_url), "audio_"@) {
            r
        } else {
            r.push(items.last())
        }
    }
}

/// The resolution rank guessed from a video URL.
pub open spec fn resolution_rank(url: Seq<char>) -> int {
    if has_sub(url, "4k"@) || has_sub(url, "2160"@) {
        4000
    } else if has_sub(url, "1080"@) {
        2000
    } else if has_sub(url, "720"@) {
        1000
    } else if has_sub(url, "480"@) {
        500
    } else {
        0
    }
}

/// Video ranking: pixel area, then resolution guessed from the URL.
pub open spec fn video_rank(it: MediaItemView) -> (int, int) {
    (area_of(it.dimensions), resolution_rank(it.high_res_url))
}

/// A video group as one item: its best non-audio member (last of the best
/// by area then resolution rank), given the group's audio track when it has
/// none, and carrying every distinct rendition of the group, labelled.
/// A group made of audio streams only gives nothing.
pub open spec fn merged_videos(items: Seq<MediaItemView>) -> Option<MediaItemView> {
    let kept = non_audio(items);
    if kept.len() == 0 {
        None
    } else {
        let s = sorted_by(kept, kept.map_values(|it: MediaItemView| video_rank(it)));
        let best = s.last();
        let audio = if best.audio_url is Some {
            best.audio_url
        } else {
            audio_track(items)
        };
        let vs = unique_by_url(relabel_all(all_variants(items)));
        Some(
            MediaItemView {
                media_type: best.media_type,
                mime_type: best.mime_type,
                dimensions: best.dimensions,
                file_size_bytes: best.file_size_bytes,
                high_res_url: best.high_res_url,
                thumbnail_url: best.thumbnail_url,
                audio_url: audio,
                subtitles_url: best.subtitles_url,
                referer_required: best.referer_required,
                raw_master_url: best.raw_master_url,
                variants: vs,
            },
        )
    }
}

/// A group of `kind` as one item.
pub open spec fn merged(kind: GroupKind, members: Seq<MediaItemView>) -> Option<MediaItemView> {
    match kind {
        GroupKind::Image => merged_images(members),
        GroupKind::Video => merged_videos(members),
    }
}

/// The merged groups for the given keys, in key order (groups that merge to
/// nothing are left out).
pub open spec fn merged_for_keys(
    items: Seq<MediaItemView>,
    kind: GroupKind,
    keys: Seq<Seq<char>>,
) -> Seq<MediaItemView>
    decreases keys.len(),
{
    if keys.len() == 0 {
        seq![]
    } else {
        let r = merged_for_keys(items, kind, keys.drop_last());
        match merged(kind, group_members(items, kind, keys.last())) {
            Some(m) => r.push(m),
            None => r,
        }
    }
}

/// What deduplication gives: the merged HLS groups, then the merged image
/// groups, each in order of first appearance, then the other videos as they
/// came.
pub open spec fn deduplicated(items: Seq<MediaItemView>) -> Seq<MediaItemView> {
    merged_for_keys(items, GroupKind::Video, distinct_keys(items, GroupKind::Video))
        + merged_for_keys(items, GroupKind::Image, distinct_keys(items, GroupKind::Image))
        + passthrough(items)
}

// ---------------------------------------------------------------------------
// Executable parts
// ---------------------------------------------------------------------------

fn all_digit_vec(s: &Vec<char>) -> (r: bool)
    ensures
        r == digits_only(s@),
{
    let mut i: usize = 0;
    while i < s.len()
        invariant
            i <= s.len(),
            forall|k: int| 0 <= k < i ==> '0' <= #[trigger] s@[k] && s@[k] <= '9',
        decreases s.len() - i,
    {
        if !('0' <= s[i] && s[i] <= '9') {
            return false;
        }
        i += 1;
    }
    true
}

fn last_is(s: &Vec<char>, c: char) -> (r: bool)
    ensures
        r == is_suffix(seq![c], s@),
{
    if s.len() == 0 {
        return false;
    }
    let r = s[s.len() - 1] == c;
    proof {
        if r {
            assert(s@.subrange(s@.len() - 1, s@.len() as int) =~= seq![c]);
        } else {
            assert(s@.subrange(s@.len() - 1, s@.len() as int)[0] != seq![c][0]);
        }
    }
    r
}

/// `path` without a trailing size marker.
fn strip_dimension_suffix(path: &Vec<char>) -> (r: Vec<char>)
    ensures
        r@ == stripped_path(path@),
{
    if let Some((prefix, suffix)) = split_last(path, '_') {
        if all_digit_vec(&suffix) || last_is(&suffix, 'w') || last_is(&suffix, 'p') {
            return prefix;
        }
    }
    if let Some((prefix, suffix)) = split_last(path, '-') {
        if all_digit_vec(&suffix) || crate::text::begins(&suffix, "scaled") {
            return prefix;
        }
    }
    crate::text::slice_vec(path, 0, path.len())
}

/// The fingerprint shared by resolutions of one image.
fn compute_image_fingerprint(url: &str) -> (r: String)
    ensures
        r@ == image_fingerprint(url@),
{
    let v = char_vec(url);
    let base = prefix_before(&v, '?');
    match split_last(&base, '.') {
        Some((path, ext)) => {
            let mut clean = strip_dimension_suffix(&path);
            let ghost c0 = clean@;
            clean.push('.');
            let mut i: usize = 0;
            while i < ext.len()
                invariant
                    i <= ext.len(),
                    clean@ == c0 + seq!['.'] + ext@.take(i as int),
                decreases ext.len() - i,
            {
                clean.push(ext[i]);
                i += 1;
                assert(clean@ =~= c0 + seq!['.'] + ext@.take(i as int));
            }
            assert(ext@.take(ext@.len() as int) =~= ext@);
            string_of(&clean)
        },
        None => string_of(&base),
    }
}

/// The key shared by renditions of one HLS stream.
fn compute_hls_stream_group_key(url: &str) -> (r: String)
    ensures
        r@ == hls_group_key(url@),
{
    let v = char_vec(url);
    match split_last(&v, '/') {
        Some((dir, _filename)) => string_of(&dir),
        None => string_of(&v),
    }
}

/// The group an item joins, if any.
fn item_group_key(item: &MediaItem, kind: GroupKind) -> (r: Option<String>)
    ensures
        r.deep_view() == group_key(kind, item@),
{
    match kind {
        GroupKind::Image => if item.media_type == MediaType::Image {
            Some(compute_image_fingerprint(item.high_res_url.as_str()))
        } else {
            None
        },
        GroupKind::Video => {
            let u = char_vec(item.high_res_url.as_str());
            if item.media_type == MediaType::Video && contains_lit(&u, ".m3u8") {
                Some(compute_hls_stream_group_key(item.high_res_url.as_str()))
            } else {
                None
            }
        },
    }
}

/// The keys of the groups of `kind`, in order of first appearance.
fn distinct_group_keys(items: &Vec<MediaItem>, kind: GroupKind) -> (keys: Vec<String>)
    ensures
        keys.deep_view() == distinct_keys(items.deep_view(), kind),
{
    let mut keys: Vec<String> = Vec::new();
    let mut i: usize = 0;
    while i < items.len()
        invariant
            i <= items.len(),
            keys.deep_view() == distinct_keys(items.deep_view().take(i as int), kind),
        decreases items.len() - i,
    {
        proof {
            assert(items.deep_view().take(i + 1).drop_last() =~= items.deep_view().take(i as int));
        }
        match item_group_key(&items[i], kind) {
            Some(k) => {
                if !holds_string(&keys, &k) {
                    let ghost before = keys.deep_view();
                    keys.push(k);
                    assert(keys.deep_view() =~= before.push(k@));
                }
            },
            None => {},
        }
        i += 1;
    }
    assert(items.deep_view().take(items.len() as int) =~= items.deep_view());
    keys
}

/// The members of group `key` of `kind`, in the order they came.
fn collect_group(items: &Vec<MediaItem>, kind: GroupKind, key: &String) -> (r: Vec<MediaItem>)
    ensures
        r.deep_view() == group_members(items.deep_view(), kind, key@),
{
    let mut r: Vec<MediaItem> = Vec::new();
    let mut i: usize = 0;
    while i < items.len()
        invariant
            i <= items.len(),
            r.deep_view() == group_members(items.deep_view().take(i as int), kind, key@),
        decreases items.len() - i,
    {
        proof {
            assert(items.deep_view().take(i + 1).drop_last() =~= items.deep_view().take(i as int));
        }
        match item_group_key(&items[i], kind) {
            Some(k) => {
                if *key == k {
                    let ghost before = r.deep_view();
                    r.push(items[i].duplicate());
                    assert(r.deep_view() =~= before.push(items.deep_view()[i as int]));
                }
            },
            None => {},
        }
        i += 1;
    }
    assert(items.deep_view().take(items.len() as int) =~= items.deep_view());
    r
}

/// The videos that are not HLS streams, in the order they came.
fn collect_passthrough(items: &Vec<MediaItem>) -> (r: Vec<MediaItem>)
    ensures
        r.deep_view() == passthrough(items.deep_view()),
{
    let mut r: Vec<MediaItem> = Vec::new();
    let mut i: usize = 0;
    while i < items.len()
        invariant
            i <= items.len(),
            r.deep_view() == passthrough(items.deep_view().take(i as int)),
        decreases items.len() - i,
    {
        proof {
            assert(items.deep_view().take(i + 1).drop_last() =~= items.deep_view().take(i as int));
        }
        let u = char_vec(items[i].high_res_url.as_str());
        if items[i].media_type == MediaType::Video && !contains_lit(&u, ".m3u8") {
            let ghost before = r.deep_view();
            r.push(items[i].duplicate());
            assert(r.deep_view() =~= before.push(items.deep_view()[i as int]));
        }
        i += 1;
    }
    assert(items.deep_view().take(items.len() as int) =~= items.deep_view());
    r
}

/// `items` in stable ascending order of `keys`.
fn sort_items(items: &Vec<MediaItem>, keys: &Vec<(u128, u128)>) -> (r: Vec<MediaItem>)
    requires
        keys@.len() == items@.len(),
    ensures
        r.deep_view() == sorted_by(items.deep_view(), int_keys(keys@)),
        r@.len() == items@.len(),
{
    let order = stable_sorted_indices(keys);
    let mut r: Vec<MediaItem> = Vec::new();
    let mut i: usize = 0;
    while i < order.len()
        invariant
            i <= order@.len(),
            order@.len() == items@.len(),
            forall|k: int| 0 <= k < order@.len() ==> order@[k] < items@.len(),
            r@.len() == i,
            forall|k: int| 0 <= k < i ==> #[trigger] r@[k]@ == items@[order@[k] as int]@,
        decreases order@.len() - i,
    {
        r.push(items[order[i]].duplicate());
        i += 1;
    }
    proof {
        let so = stable_order(int_keys(keys@), items.deep_view().len());
        assert(so =~= crate::order::int_indices(order@));
        assert(r.deep_view() =~= so.map_values(|j: int| items.deep_view()[j]));
    }
    r
}

/// The image ranking keys of the items.
fn image_keys(items: &Vec<MediaItem>) -> (keys: Vec<(u128, u128)>)
    ensures
        int_keys(keys@) == items.deep_view().map_values(|it: MediaItemView| image_rank(it)),
        keys@.len() == items@.len(),
{
    let mut keys: Vec<(u128, u128)> = Vec::new();
    let mut i: usize = 0;
    while i < items.len()
        invariant
            i <= items.len(),
            keys@.len() == i,
            forall|k: int|
                0 <= k < i ==> (#[trigger] keys@[k]).0 as int == area_of(items@[k].dimensions)
                    && keys@[k].1 as int == opt_size(items@[k].file_size_bytes),
        decreases items.len() - i,
    {
        let a = area(&items[i].dimensions);
        let sz: u128 = match items[i].file_size_bytes {
            Some(x) => x as u128,
            None => 0,
        };
        keys.push((a, sz));
        i += 1;
    }
    assert(int_keys(keys@) =~= items.deep_view().map_values(|it: MediaItemView| image_rank(it)));
    keys
}

/// The quality label guessed from a video URL.
fn infer_video_quality_label(url: &str) -> (r: Option<String>)
    ensures
        r.deep_view() == quality_label(url@),
{
    let lower = to_lower(url);
    let l = char_vec(lower.as_str());
    if contains_lit(&l, "4k") || contains_lit(&l, "2160") {
        Some("4K".to_owned())
    } else if contains_lit(&l, "1080") {
        Some("1080p".to_owned())
    } else if contains_lit(&l, "720") {
        Some("720p".to_owned())
    } else if contains_lit(&l, "480") {
        Some("480p".to_owned())
    } else if contains_lit(&l, "audio") {
        Some("Audio Track".to_owned())
    } else {
        None
    }
}

/// The renditions `vs`, relabelled when asked.
pub open spec fn maybe_relabeled(vs: Seq<VariantView>, relabel: bool) -> Seq<VariantView> {
    if relabel {
        relabel_all(vs)
    } else {
        vs
    }
}

/// Appends to `collected` each rendition of `vs` (relabelled if asked) whose
/// URL is not collected yet.
fn collect_new_variants(
    collected: &mut Vec<MediaVariant>,
    vs: &Vec<MediaVariant>,
    relabel: bool,
    Ghost(prefix): Ghost<Seq<VariantView>>,
)
    requires
        old(collected).deep_view() == unique_by_url(prefix),
    ensures
        final(collected).deep_view() == unique_by_url(
            prefix + maybe_relabeled(vs.deep_view(), relabel),
        ),
{
    let ghost added = maybe_relabeled(vs.deep_view(), relabel);
    let mut j: usize = 0;
    while j < vs.len()
        invariant
            j <= vs.len(),
            added == maybe_relabeled(vs.deep_view(), relabel),
            added.len() == vs.deep_view().len(),
            collected.deep_view() == unique_by_url(prefix + added.take(j as int)),
        decreases vs.len() - j,
    {
        let v = &vs[j];
        let seen = url_collected(collected, &v.url);
        let ghost before = collected.deep_view();
        if !seen {
            let mut copy = v.duplicate();
            if relabel && copy.label.is_none() {
                copy.label = infer_video_quality_label(v.url.as_str());
            }
            collected.push(copy);
            assert(collected.deep_view() =~= before.push(added[j as int]));
        }
        proof {
            assert(added[j as int].url == v.url@);
            assert((prefix + added.take(j + 1)).drop_last() =~= prefix + added.take(j as int));
            assert((prefix + added.take(j + 1)).last() == added[j as int]);
        }
        j += 1;
    }
    assert(added.take(vs.len() as int) =~= added);
}

/// Whether a rendition with this URL is already collected.
fn url_collected(collected: &Vec<MediaVariant>, url: &String) -> (r: bool)
    ensures
        r == variant_urls(collected.deep_view()).contains(url@),
{
    let mut k: usize = 0;
    while k < collected.len()
        invariant
            k <= collected.len(),
            forall|m: int| 0 <= m < k ==> collected@[m].url@ != url@,
        decreases collected.len() - k,
    {
        if collected[k].url == *url {
            assert(variant_urls(collected.deep_view())[k as int] == url@);
            return true;
        }
        k += 1;
    }
    assert forall|m: int| 0 <= m < collected.deep_view().len() implies variant_urls(
        collected.deep_view(),
    )[m] != url@ by {
        assert(collected@[m].url@ != url@);
    }
    false
}

/// Every distinct rendition of the items, item after item, relabelled if asked.
fn collect_all_variants(items: &Vec<MediaItem>, relabel: bool) -> (r: Vec<MediaVariant>)
    ensures
        r.deep_view() == unique_by_url(maybe_relabeled(all_variants(items.deep_view()), relabel)),
{
    let mut r: Vec<MediaVariant> = Vec::new();
    let mut i: usize = 0;
    proof {
        assert(maybe_relabeled(all_variants(items.deep_view().take(0)), relabel) =~= Seq::<
            VariantView,
        >::empty());
    }
    while i < items.len()
        invariant
            i <= items.len(),
            r.deep_view() == unique_by_url(
                maybe_relabeled(all_variants(items.deep_view().take(i as int)), relabel),
            ),
        decreases items.len() - i,
    {
        let ghost pre = maybe_relabeled(all_variants(items.deep_view().take(i as int)), relabel);
        collect_new_variants(&mut r, &items[i].variants, relabel, Ghost(pre));
        proof {
            let t = items.deep_view().take(i + 1);
            assert(t.drop_last() =~= items.deep_view().take(i as int));
            assert(t.last() == items[i as int]@);
            assert(maybe_relabeled(all_variants(t), relabel) =~= pre + maybe_relabeled(
                items[i as int].variants.deep_view(),
                relabel,
            ));
        }
        i += 1;
    }
    assert(items.deep_view().take(items.len() as int) =~= items.deep_view());
    r
}

/// Merges the resolutions of one image into its best member.
fn merge_image_group(items: Vec<MediaItem>) -> (r: Option<MediaItem>)
    ensures
        r.deep_view() == merged_images(items.deep_view()),
{
    if items.len() == 0 {
        return None;
    }
    let keys = image_keys(&items);
    let sorted = sort_items(&items, &keys);
    let collected = collect_all_variants(&sorted, false);
    let mut best = sorted[sorted.len() - 1].duplicate();
    best.variants = collected;
    proof {
        let s = sorted_by(items.deep_view(), items.deep_view().map_values(|it: MediaItemView| image_rank(it)));
        assert(sorted.deep_view() == s);
        assert(s.last() == sorted[sorted@.len() - 1]@);
        assert(best@ == with_variants(s.last(), unique_by_url(all_variants(s))));
    }
    Some(best)
}

/// The audio track of the first member that is or carries one.
fn find_audio_track(items: &Vec<MediaItem>) -> (r: Option<String>)
    ensures
        r.deep_view() == audio_track(items.deep_view()),
{
    let mut i: usize = 0;
    assert(items.deep_view().skip(0) =~= items.deep_view());
    while i < items.len()
        invariant
            i <= items.len(),
            audio_track(items.deep_view().skip(i as int)) == audio_track(items.deep_view()),
        decreases items.len() - i,
    {
        let ghost rest = items.deep_view().skip(i as int);
        assert(rest[0] == items[i as int]@);
        let lower = to_lower(items[i].high_res_url.as_str());
        let l = char_vec(lower.as_str());
        if contains_lit(&l, "audio") || items[i].audio_url.is_some() {
            return match &items[i].audio_url {
                Some(a) => Some(copy_string(a)),
                None => Some(copy_string(&items[i].high_res_url)),
            };
        }
        assert(rest.drop_first() =~= items.deep_view().skip(i + 1));
        i += 1;
    }
    None
}

/// The members that are not audio-only streams.
fn retain_non_audio(items: &Vec<MediaItem>) -> (r: Vec<MediaItem>)
    ensures
        r.deep_view() == non_audio(items.deep_view()),
{
    let mut r: Vec<MediaItem> = Vec::new();
    let mut i: usize = 0;
    while i < items.len()
        invariant
            i <= items.len(),
            r.deep_view() == non_audio(items.deep_view().take(i as int)),
        decreases items.len() - i,
    {
        proof {
            assert(items.deep_view().take(i + 1).drop_last() =~= items.deep_view().take(i as int));
        }
        let lower = to_lower(items[i].high_res_url.as_str());
        let l = char_vec(lower.as_str());
        if !contains_lit(&l, "audio_") {
            let ghost before = r.deep_view();
            r.push(items[i].duplicate());
            assert(r.deep_view() =~= before.push(items.deep_view()[i as int]));
        }
        i += 1;
    }
    assert(items.deep_view().take(items.len() as int) =~= items.deep_view());
    r
}

/// The resolution rank guessed from a video URL.
fn rank_of(url: &str) -> (r: u128)
    ensures
        r as int == resolution_rank(url@),
{
    let u = char_vec(url);
    if contains_lit(&u, "4k") || contains_lit(&u, "2160") {
        4000
    } else if contains_lit(&u, "1080") {
        2000
    } else if contains_lit(&u, "720") {
        1000
    } else if contains_lit(&u, "480") {
        500
    } else {
        0
    }
}

/// The video ranking keys of the items.
fn video_keys(items: &Vec<MediaItem>) -> (keys: Vec<(u128, u128)>)
    ensures
        int_keys(keys@) == items.deep_view().map_values(|it: MediaItemView| video_rank(it)),
        keys@.len() == items@.len(),
{
    let mut keys: Vec<(u128, u128)> = Vec::new();
    let mut i: usize = 0;
    while i < items.len()
        invariant
            i <= items.len(),
            keys@.len() == i,
            forall|k: int|
                0 <= k < i ==> (#[trigger] keys@[k]).0 as int == area_of(items@[k].dimensions)
                    && keys@[k].1 as int == resolution_rank(items@[k].high_res_url@),
        decreases items.len() - i,
    {
        let a = area(&items[i].dimensions);
        let rk = rank_of(items[i].high_res_url.as_str());
        keys.push((a, rk));
        i += 1;
    }
    assert(int_keys(keys@) =~= items.deep_view().map_values(|it: MediaItemView| video_rank(it)));
    keys
}

/// Merges the renditions of one video stream into its best member, linking
/// the group's audio track and keeping every rendition.
fn merge_video_group(items: Vec<MediaItem>) -> (r: Option<MediaItem>)
    ensures
        r.deep_view() == merged_videos(items.deep_view()),
{
    let audio = find_audio_track(&items);
    let collected = collect_all_variants(&items, true);
    let kept = retain_non_audio(&items);
    if kept.len() == 0 {
        return None;
    }
    let keys = video_keys(&kept);
    let sorted = sort_items(&kept, &keys);
    let mut best = sorted[sorted.len() - 1].duplicate();
    if best.audio_url.is_none() {
        best.audio_url = audio;
    }
    best.variants = collected;
    proof {
        let kv = non_audio(items.deep_view());
        let s = sorted_by(kv, kv.map_values(|it: MediaItemView| video_rank(it)));
        assert(sorted.deep_view() == s);
        assert(s.last() == sorted[sorted@.len() - 1]@);
    }
    Some(best)
}

/// Collapses alternate resolutions into single items: HLS renditions of one
/// stream and resolutions of one image each become one item carrying all of
/// their renditions; other videos pass through unchanged.
pub fn deduplicate_media(items: Vec<MediaItem>) -> (r: Vec<MediaItem>)
    ensures
        r.deep_view() == deduplicated(items.deep_view()),
{
    let ghost iv = items.deep_view();
    let mut out: Vec<MediaItem> = Vec::new();

    let vkeys = distinct_group_keys(&items, GroupKind::Video);
    let mut i: usize = 0;
    while i < vkeys.len()
        invariant
            i <= vkeys.len(),
            iv == items.deep_view(),
            vkeys.deep_view() == distinct_keys(iv, GroupKind::Video),
            out.deep_view() == merged_for_keys(iv, GroupKind::Video, vkeys.deep_view().take(i as int)),
        decreases vkeys.len() - i,
    {
        proof {
            assert(vkeys.deep_view().take(i + 1).drop_last() =~= vkeys.deep_view().take(i as int));
        }
        let members = collect_group(&items, GroupKind::Video, &vkeys[i]);
        if let Some(m) = merge_video_group(members) {
            let ghost before = out.deep_view();
            out.push(m);
            assert(out.deep_view() =~= before.push(m@));
        }
        i += 1;
    }
    assert(vkeys.deep_view().take(vkeys.len() as int) =~= vkeys.deep_view());
    let ghost part1 = out.deep_view();

    let ikeys = distinct_group_keys(&items, GroupKind::Image);
    let mut j: usize = 0;
    assert(part1 + merged_for_keys(iv, GroupKind::Image, ikeys.deep_view().take(0)) =~= part1);
    while j < ikeys.len()
        invariant
            j <= ikeys.len(),
            iv == items.deep_view(),
            ikeys.deep_view() == distinct_keys(iv, GroupKind::Image),
            out.deep_view() == part1 + merged_for_keys(
                iv,
                GroupKind::Image,
                ikeys.deep_view().take(j as int),
            ),
        decreases ikeys.len() - j,
    {
        proof {
            assert(ikeys.deep_view().take(j + 1).drop_last() =~= ikeys.deep_view().take(j as int));
        }
        let members = collect_group(&items, GroupKind::Image, &ikeys[j]);
        if let Some(m) = merge_image_group(members) {
            let ghost before = out.deep_view();
            out.push(m);
            assert(out.deep_view() =~= before.push(m@));
        }
        j += 1;
    }
    assert(ikeys.deep_view().take(ikeys.len() as int) =~= ikeys.deep_view());
    let ghost part2 = out.deep_view();

    let rest = collect_passthrough(&items);
    let mut k: usize = 0;
    while k < rest.len()
        invariant
            k <= rest.len(),
            out.deep_view() == part2 + rest.deep_view().take(k as int),
        decreases rest.len() - k,
    {
        let ghost before = out.deep_view();
        let d = rest[k].duplicate();
        out.push(d);
        assert(d@ == rest.deep_view()[k as int]);
        assert(out.deep_view() =~= before.push(d@));
        assert(rest.deep_view().take(k + 1) =~= rest.deep_view().take(k as int).push(d@));
        assert(out.deep_view() =~= part2 + rest.deep_view().take(k + 1));
        k += 1;
    }
    assert(rest.deep_view().take(rest.len() as int) =~= rest.deep_view());
    out
}

/// The last of `items` sorted by `rank` is a member whose rank is at least
/// that of every member.
proof fn lemma_sorted_last_is_top(items: Seq<MediaItemView>, ranks: Seq<(int, int)>)
    requires
        items.len() > 0,
        ranks.len() == items.len(),
    ensures
        items.contains(sorted_by(items, ranks).last()),
        exists|t: int|
            0 <= t < items.len() && items[t] == sorted_by(items, ranks).last() && forall|j: int|
                0 <= j < items.len() ==> key_le(#[trigger] ranks[j], ranks[t]),
{
    lemma_stable_order(ranks, items.len());
    let so = stable_order(ranks, items.len());
    let s = sorted_by(items, ranks);
    let n = items.len() as int;
    let t = so[n - 1];
    assert(s == so.map_values(|i: int| items[i]));
    assert(s.last() == items[t]);
    assert forall|j: int| 0 <= j < n implies key_le(#[trigger] ranks[j], ranks[t]) by {
        assert(so.contains(j));
        let k = choose|k: int| 0 <= k < so.len() && so[k] == j;
        if k < n - 1 {
            assert(key_le(ranks[so[k]], ranks[so[n - 1]]));
        }
    }
    assert(items.contains(s.last()));
}

/// An image group is represented by a member of the highest rank (pixel
/// area, then byte size), carrying the renditions of the group.
pub proof fn lemma_merged_image_is_largest(items: Seq<MediaItemView>)
    requires
        items.len() > 0,
    ensures
        exists|t: int|
            0 <= t < items.len() && merged_images(items) == Some(
                with_variants(
                    items[t],
                    unique_by_url(
                        all_variants(
                            sorted_by(items, items.map_values(|it: MediaItemView| image_rank(it))),
                        ),
                    ),
                ),
            ) && forall|j: int|
                0 <= j < items.len() ==> key_le(image_rank(#[trigger] items[j]), image_rank(items[t])),
{
    let ranks = items.map_values(|it: MediaItemView| image_rank(it));
    lemma_sorted_last_is_top(items, ranks);
    let t = choose|t: int|
        0 <= t < items.len() && items[t] == sorted_by(items, ranks).last() && forall|j: int|
            0 <= j < items.len() ==> key_le(#[trigger] ranks[j], ranks[t]);
    assert forall|j: int| 0 <= j < items.len() implies key_le(
        image_rank(#[trigger] items[j]),
        image_rank(items[t]),
    ) by {
        assert(ranks[j] == image_rank(items[j]));
    }
}

/// No member kept as a video candidate is an audio-only stream.
proof fn lemma_non_audio_lacks_audio(items: Seq<MediaItemView>)
    ensures
        forall|k: int|
            0 <= k < non_audio(items).len() ==> !has_sub(
                lowercase((#[trigger] non_audio(items)[k]).high_res_url),
                "audio_"@,
            ),
    decreases items.len(),
{
    if items.len() > 0 {
        lemma_non_audio_lacks_audio(items.drop_last());
        let r = non_audio(items.drop_last());
        let g = non_audio(items);
        assert forall|k: int| 0 <= k < g.len() implies !has_sub(lowercase((#[trigger] g[k]).high_res_url), "audio_"@) by {
            if k < r.len() {
                assert(g[k] == r[k]);
            }
        }
    }
}

/// A video group is represented by a non-audio member of the highest rank
/// (pixel area, then the resolution its URL names), never by an audio-only
/// stream.
pub proof fn lemma_merged_video_is_best(items: Seq<MediaItemView>)
    requires
        non_audio(items).len() > 0,
    ensures
        merged_videos(items) is Some,
        exists|t: int|
            0 <= t < non_audio(items).len() && merged_videos(items).unwrap().high_res_url == non_audio(
                items,
            )[t].high_res_url && merged_videos(items).unwrap().dimensions == non_audio(items)[t].dimensions
                && merged_videos(items).unwrap().media_type == non_audio(items)[t].media_type
                && merged_videos(items).unwrap().mime_type == non_audio(items)[t].mime_type
                && !has_sub(lowercase(merged_videos(items).unwrap().high_res_url), "audio_"@)
                && forall|j: int|
                0 <= j < non_audio(items).len() ==> key_le(
                    video_rank(#[trigger] non_audio(items)[j]),
                    video_rank(non_audio(items)[t]),
                ),
{
    let kept = non_audio(items);
    let ranks = kept.map_values(|it: MediaItemView| video_rank(it));
    lemma_sorted_last_is_top(kept, ranks);
    lemma_non_audio_lacks_audio(items);
    let t = choose|t: int|
        0 <= t < kept.len() && kept[t] == sorted_by(kept, ranks).last() && forall|j: int|
            0 <= j < kept.len() ==> key_le(#[trigger] ranks[j], ranks[t]);
    assert forall|j: int| 0 <= j < kept.len() implies key_le(
        video_rank(#[trigger] kept[j]),
        video_rank(kept[t]),
    ) by {
        assert(ranks[j] == video_rank(kept[j]));
    }
}

/// A merged group carries each rendition URL at most once.
pub proof fn lemma_unique_by_url_distinct(vs: Seq<VariantView>)
    ensures
        variant_urls(unique_by_url(vs)).no_duplicates(),
    decreases vs.len(),
{
    if vs.len() > 0 {
        lemma_unique_by_url_distinct(vs.drop_last());
        let r = unique_by_url(vs.drop_last());
        if !variant_urls(r).contains(vs.last().url) {
            let u = variant_urls(r.push(vs.last()));
            assert(u == variant_urls(r).push(vs.last().url));
            assert forall|a: int, b: int| 0 <= a < b < u.len() implies u[a] != u[b] by {
                if b == u.len() - 1 {
                    assert(variant_urls(r)[a] == u[a]);
                }
            }
        }
    }
}

/// Two items that agree on what the filters read: kind, MIME type, main
/// URL and dimensions.
pub open spec fn same_core(x: MediaItemView, y: MediaItemView) -> bool {
    &&& x.media_type == y.media_type
    &&& x.mime_type == y.mime_type
    &&& x.high_res_url == y.high_res_url
    &&& x.dimensions == y.dimensions
}

/// Every item of `out` agrees on its core with some item of `items`.
pub open spec fn cores_from(out: Seq<MediaItemView>, items: Seq<MediaItemView>) -> bool {
    forall|i: int|
        0 <= i < out.len() ==> exists|j: int| 0 <= j < items.len() && same_core(#[trigger] out[i], items[j])
}

proof fn lemma_group_members_from(items: Seq<MediaItemView>, kind: GroupKind, k: Seq<char>)
    ensures
        forall|i: int| 0 <= i < group_members(items, kind, k).len() ==> items.contains(
            #[trigger] group_members(items, kind, k)[i],
        ),
    decreases items.len(),
{
    if items.len() > 0 {
        let t = items.drop_last();
        lemma_group_members_from(t, kind, k);
        let r = group_members(t, kind, k);
        let g = group_members(items, kind, k);
        assert forall|i: int| 0 <= i < g.len() implies items.contains(#[trigger] g[i]) by {
            if i < r.len() {
                assert(g[i] == r[i]);
                let j = choose|j: int| 0 <= j < t.len() && t[j] == r[i];
                assert(items[j] == r[i]);
            } else {
                assert(g[i] == items[items.len() - 1]);
            }
        }
    }
}

proof fn lemma_non_audio_from(items: Seq<MediaItemView>)
    ensures
        forall|i: int| 0 <= i < non_audio(items).len() ==> items.contains(#[trigger] non_audio(items)[i]),
    decreases items.len(),
{
    if items.len() > 0 {
        let t = items.drop_last();
        lemma_non_audio_from(t);
        let r = non_audio(t);
        let g = non_audio(items);
        assert forall|i: int| 0 <= i < g.len() implies items.contains(#[trigger] g[i]) by {
            if i < r.len() {
                assert(g[i] == r[i]);
                let j = choose|j: int| 0 <= j < t.len() && t[j] == r[i];
                assert(items[j] == r[i]);
            } else {
                assert(g[i] == items[items.len() - 1]);
            }
        }
    }
}

proof fn lemma_passthrough_from(items: Seq<MediaItemView>)
    ensures
        cores_from(passthrough(items), items),
    decreases items.len(),
{
    if items.len() > 0 {
        let t = items.drop_last();
        lemma_passthrough_from(t);
        let r = passthrough(t);
        let g = passthrough(items);
        assert forall|i: int| 0 <= i < g.len() implies exists|j: int|
            0 <= j < items.len() && same_core(#[trigger] g[i], items[j]) by {
            if i < r.len() {
                assert(g[i] == r[i]);
                let j = choose|j: int| 0 <= j < t.len() && same_core(r[i], t[j]);
                assert(items[j] == t[j]);
            } else {
                assert(g[i] == items[items.len() - 1]);
            }
        }
    }
}

proof fn lemma_merged_from(kind: GroupKind, members: Seq<MediaItemView>, items: Seq<MediaItemView>)
    requires
        forall|i: int| 0 <= i < members.len() ==> items.contains(#[trigger] members[i]),
    ensures
        merged(kind, members) matches Some(m) ==> exists|j: int|
            0 <= j < items.len() && same_core(m, #[trigger] items[j]),
{
    match kind {
        GroupKind::Image => {
            if members.len() > 0 {
                lemma_merged_image_is_largest(members);
                let t = choose|t: int|
                    0 <= t < members.len() && merged_images(members) == Some(
                        with_variants(
                            members[t],
                            unique_by_url(
                                all_variants(
                                    sorted_by(members, members.map_values(|it: MediaItemView| image_rank(it))),
                                ),
                            ),
                        ),
                    ) && forall|j: int|
                        0 <= j < members.len() ==> key_le(
                            image_rank(#[trigger] members[j]),
                            image_rank(members[t]),
                        );
                assert(items.contains(members[t]));
                let j = choose|j: int| 0 <= j < items.len() && items[j] == members[t];
                assert(same_core(merged_images(members).unwrap(), items[j]));
            }
        },
        GroupKind::Video => {
            if non_audio(members).len() > 0 {
                lemma_merged_video_is_best(members);
                lemma_non_audio_from(members);
                let na = non_audio(members);
                let m = merged_videos(members).unwrap();
                let t = choose|t: int|
                    0 <= t < na.len() && m.high_res_url == na[t].high_res_url && m.dimensions
                        == na[t].dimensions && m.media_type == na[t].media_type && m.mime_type
                        == na[t].mime_type && forall|j: int|
                        0 <= j < na.len() ==> key_le(video_rank(#[trigger] na[j]), video_rank(na[t]));
                assert(members.contains(na[t]));
                let u = choose|u: int| 0 <= u < members.len() && members[u] == na[t];
                assert(items.contains(members[u]));
                let j = choose|j: int| 0 <= j < items.len() && items[j] == members[u];
                assert(same_core(m, items[j]));
            }
        },
    }
}

proof fn lemma_merged_for_keys_from(items: Seq<MediaItemView>, kind: GroupKind, keys: Seq<Seq<char>>)
    ensures
        cores_from(merged_for_keys(items, kind, keys), items),
    decreases keys.len(),
{
    if keys.len() > 0 {
        lemma_merged_for_keys_from(items, kind, keys.drop_last());
        let r = merged_for_keys(items, kind, keys.drop_last());
        let g = merged_for_keys(items, kind, keys);
        let members = group_members(items, kind, keys.last());
        lemma_group_members_from(items, kind, keys.last());
        lemma_merged_from(kind, members, items);
        assert forall|i: int| 0 <= i < g.len() implies exists|j: int|
            0 <= j < items.len() && same_core(#[trigger] g[i], items[j]) by {
            if i < r.len() {
                assert(g[i] == r[i]);
            } else {
                assert(g[i] == merged(kind, members).unwrap());
            }
        }
    }
}

/// Deduplication only merges: every item it gives agrees in kind, MIME
/// type, main URL and dimensions with one of the items it was given.
pub proof fn lemma_deduplicated_from_inputs(items: Seq<MediaItemView>)
    ensures
        cores_from(deduplicated(items), items),
{
    let a = merged_for_keys(items, GroupKind::Video, distinct_keys(items, GroupKind::Video));
    let b = merged_for_keys(items, GroupKind::Image, distinct_keys(items, GroupKind::Image));
    let c = passthrough(items);
    lemma_merged_for_keys_from(items, GroupKind::Video, distinct_keys(items, GroupKind::Video));
    lemma_merged_for_keys_from(items, GroupKind::Image, distinct_keys(items, GroupKind::Image));
    lemma_passthrough_from(items);
    let d = deduplicated(items);
    assert(d == a + b + c);
    assert forall|i: int| 0 <= i < d.len() implies exists|j: int|
        0 <= j < items.len() && same_core(#[trigger] d[i], items[j]) by {
        if i < a.len() {
            assert(d[i] == a[i]);
        } else if i < a.len() + b.len() {
            assert(d[i] == b[i - a.len()]);
        } else {
            assert(d[i] == c[i - a.len() - b.len()]);
        }
    }
}


// ---------------------------------------------------------------------------
// Deduplicating twice
// ---------------------------------------------------------------------------

/// Renditions whose URLs are already distinct are left as they are.
proof fn lemma_unique_fixed(vs: Seq<VariantView>)
    requires
        variant_urls(vs).no_duplicates(),
    ensures
        unique_by_url(vs) == vs,
    decreases vs.len(),
{
    if vs.len() > 0 {
        let t = vs.drop_last();
        let u = variant_urls(vs);
        let ut = variant_urls(t);
        assert(ut =~= u.drop_last());
        assert forall|a: int, b: int| 0 <= a < b < ut.len() implies ut[a] != ut[b] by {
            assert(u[a] == ut[a]);
            assert(u[b] == ut[b]);
        }
        lemma_unique_fixed(t);
        assert(u[u.len() - 1] == vs.last().url);
        assert(!ut.contains(vs.last().url)) by {
            if ut.contains(vs.last().url) {
                let a = choose|a: int| 0 <= a < ut.len() && ut[a] == vs.last().url;
                assert(u[a] == ut[a]);
            }
        }
        assert(t.push(vs.last()) =~= vs);
    }
}

/// Every rendition kept by `unique_by_url` is one of the given renditions.
proof fn lemma_unique_from(vs: Seq<VariantView>)
    ensures
        forall|i: int| 0 <= i < unique_by_url(vs).len() ==> vs.contains(#[trigger] unique_by_url(vs)[i]),
    decreases vs.len(),
{
    if vs.len() > 0 {
        let t = vs.drop_last();
        lemma_unique_from(t);
        let r = unique_by_url(t);
        let g = unique_by_url(vs);
        assert forall|i: int| 0 <= i < g.len() implies vs.contains(#[trigger] g[i]) by {
            if i < r.len() {
                assert(g[i] == r[i]);
                let j = choose|j: int| 0 <= j < t.len() && t[j] == r[i];
                assert(vs[j] == t[j]);
            } else {
                assert(g[i] == vs[vs.len() - 1]);
            }
        }
    }
}

/// Labelled renditions keep their labels when labelled again.
proof fn lemma_relabel_settled(vs: Seq<VariantView>)
    ensures
        relabel_all(unique_by_url(relabel_all(vs))) == unique_by_url(relabel_all(vs)),
{
    let y = relabel_all(vs);
    let u = unique_by_url(y);
    lemma_unique_from(y);
    assert forall|i: int| 0 <= i < u.len() implies relabeled(#[trigger] u[i]) == u[i] by {
        assert(y.contains(u[i]));
        let j = choose|j: int| 0 <= j < y.len() && y[j] == u[i];
        assert(y[j] == relabeled(vs[j]));
    }
    assert(relabel_all(u) =~= u);
}

/// The renditions of a single item are its own.
proof fn lemma_all_variants_single(m: MediaItemView)
    ensures
        all_variants(seq![m]) == m.variants,
{
    assert(seq![m].drop_last() =~= Seq::<MediaItemView>::empty());
    assert(all_variants(Seq::<MediaItemView>::empty()) == Seq::<VariantView>::empty());
    assert(Seq::<VariantView>::empty() + m.variants =~= m.variants);
}

/// A single item sorts to itself.
proof fn lemma_sorted_single(m: MediaItemView, ranks: Seq<(int, int)>)
    ensures
        sorted_by(seq![m], ranks) == seq![m],
{
    lemma_stable_order(ranks, 1);
    let so = stable_order(ranks, 1);
    assert(0 <= so[0] < 1);
    assert(sorted_by(seq![m], ranks) =~= seq![m]);
}

/// A group member carries the group's key.
proof fn lemma_group_members_keyed(items: Seq<MediaItemView>, kind: GroupKind, k: Seq<char>)
    ensures
        forall|i: int|
            0 <= i < group_members(items, kind, k).len() ==> group_key(
                kind,
                #[trigger] group_members(items, kind, k)[i],
            ) == Some(k),
    decreases items.len(),
{
    if items.len() > 0 {
        lemma_group_members_keyed(items.drop_last(), kind, k);
        let r = group_members(items.drop_last(), kind, k);
        let g = group_members(items, kind, k);
        assert forall|i: int| 0 <= i < g.len() implies group_key(kind, #[trigger] g[i]) == Some(k) by {
            if i < r.len() {
                assert(g[i] == r[i]);
            }
        }
    }
}

/// Some member is or carries an audio track, so the group has one.
proof fn lemma_audio_track_found(items: Seq<MediaItemView>, x: MediaItemView)
    requires
        items.contains(x),
        audio_source(x),
    ensures
        audio_track(items) is Some,
    decreases items.len(),
{
    if !audio_source(items[0]) {
        let j = choose|j: int| 0 <= j < items.len() && items[j] == x;
        assert(j > 0);
        assert(items.drop_first()[j - 1] == x);
        lemma_audio_track_found(items.drop_first(), x);
    }
}

/// An item that stays as it is when merged alone, with the group key `k`.
pub open spec fn settled(kind: GroupKind, x: MediaItemView, k: Seq<char>) -> bool {
    &&& group_key(kind, x) == Some(k)
    &&& merged(kind, seq![x]) == Some(x)
}

/// What a group merges to is settled under the group's key.
proof fn lemma_merged_settled(items: Seq<MediaItemView>, kind: GroupKind, k: Seq<char>)
    ensures
        merged(kind, group_members(items, kind, k)) matches Some(m) ==> settled(kind, m, k),
{
    let members = group_members(items, kind, k);
    lemma_group_members_keyed(items, kind, k);
    match kind {
        GroupKind::Image => {
            if members.len() > 0 {
                let ranks = members.map_values(|it: MediaItemView| image_rank(it));
                let s = sorted_by(members, ranks);
                lemma_sorted_last_is_top(members, ranks);
                let j = choose|j: int| 0 <= j < members.len() && members[j] == s.last();
                assert(group_key(kind, members[j]) == Some(k));
                let m = merged_images(members).unwrap();
                assert(group_key(kind, m) == Some(k));
                lemma_unique_by_url_distinct(all_variants(s));
                lemma_unique_fixed(m.variants);
                let ranks1 = seq![m].map_values(|it: MediaItemView| image_rank(it));
                lemma_sorted_single(m, ranks1);
                lemma_all_variants_single(m);
                assert(with_variants(m, m.variants) == m);
            }
        },
        GroupKind::Video => {
            let kept = non_audio(members);
            if kept.len() > 0 {
                let ranks = kept.map_values(|it: MediaItemView| video_rank(it));
                let s = sorted_by(kept, ranks);
                let best = s.last();
                lemma_sorted_last_is_top(kept, ranks);
                lemma_non_audio_from(members);
                lemma_non_audio_lacks_audio(members);
                let t = choose|t: int| 0 <= t < kept.len() && kept[t] == best;
                assert(members.contains(kept[t]));
                let j = choose|j: int| 0 <= j < members.len() && members[j] == best;
                assert(group_key(kind, members[j]) == Some(k));
                let m = merged_videos(members).unwrap();
                assert(m.high_res_url == best.high_res_url);
                assert(m.media_type == best.media_type);
                assert(group_key(kind, m) == Some(k));
                assert(!has_sub(lowercase(m.high_res_url), "audio_"@));
                // the renditions are distinct and already labelled
                let y = relabel_all(all_variants(members));
                lemma_unique_by_url_distinct(y);
                lemma_relabel_settled(all_variants(members));
                lemma_unique_fixed(m.variants);
                // the audio track is settled
                if m.audio_url is None && audio_source(m) {
                    assert(best.audio_url is None);
                    assert(audio_source(best));
                    lemma_audio_track_found(members, best);
                }
                // merging `m` alone
                let one = seq![m];
                assert(one.drop_last() =~= Seq::<MediaItemView>::empty());
                assert(non_audio(Seq::<MediaItemView>::empty()) == Seq::<MediaItemView>::empty());
                assert(non_audio(one) =~= one);
                let ranks1 = one.map_values(|it: MediaItemView| video_rank(it));
                lemma_sorted_single(m, ranks1);
                lemma_all_variants_single(m);
                if m.audio_url is None {
                    assert(!audio_source(one[0]));
                    assert(one.drop_first() =~= Seq::<MediaItemView>::empty());
                    assert(audio_track(one) == audio_track(Seq::<MediaItemView>::empty()));
                }
                assert(merged_videos(one).unwrap() == m);
            }
        },
    }
}

/// Keys found in the items are keys of some item.
proof fn lemma_distinct_keys_from(items: Seq<MediaItemView>, kind: GroupKind)
    ensures
        forall|i: int|
            #![trigger distinct_keys(items, kind)[i]]
            0 <= i < distinct_keys(items, kind).len() ==> exists|j: int|
                0 <= j < items.len() && group_key(kind, #[trigger] items[j]) == Some(
                    distinct_keys(items, kind)[i],
                ),
        distinct_keys(items, kind).no_duplicates(),
    decreases items.len(),
{
    if items.len() > 0 {
        let t = items.drop_last();
        lemma_distinct_keys_from(t, kind);
        let r = distinct_keys(t, kind);
        let g = distinct_keys(items, kind);
        assert forall|i: int| #![trigger g[i]] 0 <= i < g.len() implies exists|j: int|
            0 <= j < items.len() && group_key(kind, #[trigger] items[j]) == Some(g[i]) by {
            if i < r.len() {
                assert(g[i] == r[i]);
                let j = choose|j: int| 0 <= j < t.len() && group_key(kind, #[trigger] t[j]) == Some(r[i]);
                assert(items[j] == t[j]);
            } else {
                assert(group_key(kind, items[items.len() - 1]) == Some(g[i]));
            }
        }
        assert forall|a: int, b: int| 0 <= a < b < g.len() implies g[a] != g[b] by {
            if b >= r.len() {
                assert(g[a] == r[a]);
                assert(!r.contains(g[b]));
            } else {
                assert(g[a] == r[a]);
                assert(g[b] == r[b]);
            }
        }
    }
}

/// Items of no group of `kind` at the end add no key.
proof fn lemma_keys_none_suffix(a: Seq<MediaItemView>, b: Seq<MediaItemView>, kind: GroupKind)
    requires
        forall|i: int| 0 <= i < b.len() ==> group_key(kind, #[trigger] b[i]) is None,
    ensures
        distinct_keys(a + b, kind) == distinct_keys(a, kind),
        forall|k: Seq<char>| #[trigger] group_members(a + b, kind, k) == group_members(a, kind, k),
    decreases b.len(),
{
    if b.len() == 0 {
        assert(a + b =~= a);
    } else {
        let b1 = b.drop_last();
        assert forall|i: int| 0 <= i < b1.len() implies group_key(kind, #[trigger] b1[i]) is None by {
            assert(b1[i] == b[i]);
        }
        lemma_keys_none_suffix(a, b1, kind);
        assert((a + b).drop_last() =~= a + b1);
        assert((a + b).last() == b[b.len() - 1]);
        assert forall|k: Seq<char>| #[trigger] group_members(a + b, kind, k) == group_members(a, kind, k) by {
            assert(group_members(a + b1, kind, k) == group_members(a, kind, k));
        }
    }
}

/// Items of no group of `kind` in front add no key.
proof fn lemma_keys_none_prefix(a: Seq<MediaItemView>, b: Seq<MediaItemView>, kind: GroupKind)
    requires
        forall|i: int| 0 <= i < a.len() ==> group_key(kind, #[trigger] a[i]) is None,
    ensures
        distinct_keys(a + b, kind) == distinct_keys(b, kind),
        forall|k: Seq<char>| #[trigger] group_members(a + b, kind, k) == group_members(b, kind, k),
    decreases b.len(),
{
    if b.len() == 0 {
        let e = Seq::<MediaItemView>::empty();
        lemma_keys_none_suffix(e, a, kind);
        assert(e + a =~= a);
        assert(a + b =~= a);
        assert(distinct_keys(e, kind) == Seq::<Seq<char>>::empty());
        assert forall|k: Seq<char>| #[trigger] group_members(a + b, kind, k) == group_members(b, kind, k) by {
            assert(group_members(e + a, kind, k) == group_members(e, kind, k));
        }
    } else {
        let b1 = b.drop_last();
        lemma_keys_none_prefix(a, b1, kind);
        assert((a + b).drop_last() =~= a + b1);
        assert((a + b).last() == b.last());
        assert forall|k: Seq<char>| #[trigger] group_members(a + b, kind, k) == group_members(b, kind, k) by {
            assert(group_members(a + b1, kind, k) == group_members(b1, kind, k));
        }
    }
}

/// Merging by the same keys over items with the same groups gives the same.
proof fn lemma_merged_for_same_groups(
    x: Seq<MediaItemView>,
    y: Seq<MediaItemView>,
    kind: GroupKind,
    keys: Seq<Seq<char>>,
)
    requires
        forall|i: int| 0 <= i < keys.len() ==> group_members(x, kind, #[trigger] keys[i]) == group_members(y, kind, keys[i]),
    ensures
        merged_for_keys(x, kind, keys) == merged_for_keys(y, kind, keys),
    decreases keys.len(),
{
    if keys.len() > 0 {
        let k1 = keys.drop_last();
        assert forall|i: int| 0 <= i < k1.len() implies group_members(x, kind, #[trigger] k1[i]) == group_members(y, kind, k1[i]) by {
            assert(k1[i] == keys[i]);
        }
        lemma_merged_for_same_groups(x, y, kind, k1);
        assert(keys.last() == keys[keys.len() - 1]);
    }
}

/// An item whose key none of the items has is the only member of its group
/// once added.
proof fn lemma_members_absent(items: Seq<MediaItemView>, kind: GroupKind, k: Seq<char>)
    requires
        forall|i: int| 0 <= i < items.len() ==> group_key(kind, #[trigger] items[i]) != Some(k),
    ensures
        group_members(items, kind, k) == Seq::<MediaItemView>::empty(),
    decreases items.len(),
{
    if items.len() > 0 {
        let t = items.drop_last();
        assert forall|i: int| 0 <= i < t.len() implies group_key(kind, #[trigger] t[i]) != Some(k) by {
            assert(t[i] == items[i]);
        }
        lemma_members_absent(t, kind, k);
        assert(items.last() == items[items.len() - 1]);
    }
}

/// The merged groups for the first `j` keys, merged again, give themselves;
/// each carries the key of its group.
proof fn lemma_merged_prefix_settled(items: Seq<MediaItemView>, kind: GroupKind, j: int)
    requires
        0 <= j <= distinct_keys(items, kind).len(),
    ensures
        ({
            let keys = distinct_keys(items, kind);
            let v = merged_for_keys(items, kind, keys.take(j));
            &&& merged_for_keys(v, kind, distinct_keys(v, kind)) == v
            &&& forall|i: int|
                0 <= i < v.len() ==> exists|t: int|
                    0 <= t < j && settled(kind, #[trigger] v[i], keys[t])
        }),
    decreases j,
{
    let keys = distinct_keys(items, kind);
    let v = merged_for_keys(items, kind, keys.take(j));
    lemma_distinct_keys_from(items, kind);
    if j == 0 {
        assert(keys.take(0) =~= Seq::<Seq<char>>::empty());
        assert(v == Seq::<MediaItemView>::empty());
        assert(distinct_keys(v, kind) == Seq::<Seq<char>>::empty());
        assert(merged_for_keys(v, kind, Seq::<Seq<char>>::empty()) == Seq::<MediaItemView>::empty());
    } else {
        lemma_merged_prefix_settled(items, kind, j - 1);
        let w = merged_for_keys(items, kind, keys.take(j - 1));
        let k = keys[j - 1];
        assert(keys.take(j).drop_last() =~= keys.take(j - 1));
        assert(keys.take(j).last() == k);
        lemma_merged_settled(items, kind, k);
        match merged(kind, group_members(items, kind, k)) {
            None => {
                assert(v == w);
                assert forall|i: int| 0 <= i < v.len() implies exists|t: int|
                    0 <= t < j && settled(kind, #[trigger] v[i], keys[t]) by {
                    let t = choose|t: int| 0 <= t < j - 1 && settled(kind, #[trigger] w[i], keys[t]);
                }
            },
            Some(m) => {
                assert(v == w.push(m));
                // no earlier group has the key `k`
                assert forall|i: int| 0 <= i < w.len() implies group_key(kind, #[trigger] w[i]) != Some(k) by {
                    let t = choose|t: int| 0 <= t < j - 1 && settled(kind, #[trigger] w[i], keys[t]);
                    assert(keys[t] != keys[j - 1]);
                }
                let d = distinct_keys(w, kind);
                lemma_distinct_keys_from(w, kind);
                assert(!d.contains(k)) by {
                    if d.contains(k) {
                        let a = choose|a: int| 0 <= a < d.len() && d[a] == k;
                        let i = choose|i: int| 0 <= i < w.len() && group_key(kind, #[trigger] w[i]) == Some(d[a]);
                    }
                }
                assert(v.drop_last() =~= w);
                assert(v.last() == m);
                assert(distinct_keys(v, kind) == d.push(k));
                lemma_members_absent(w, kind, k);
                assert(group_members(v, kind, k) =~= seq![m]);
                assert forall|i: int| 0 <= i < d.len() implies group_members(v, kind, #[trigger] d[i])
                    == group_members(w, kind, d[i]) by {
                    assert(d[i] != k);
                }
                lemma_merged_for_same_groups(v, w, kind, d);
                assert(d.push(k).drop_last() =~= d);
                assert(merged_for_keys(v, kind, d.push(k)) == merged_for_keys(v, kind, d).push(m));
                assert forall|i: int| 0 <= i < v.len() implies exists|t: int|
                    0 <= t < j && settled(kind, #[trigger] v[i], keys[t]) by {
                    if i < w.len() {
                        assert(v[i] == w[i]);
                        let t = choose|t: int| 0 <= t < j - 1 && settled(kind, #[trigger] w[i], keys[t]);
                    } else {
                        assert(v[i] == m);
                        assert(settled(kind, v[i], keys[j - 1]));
                    }
                }
            },
        }
    }
}

/// Every video left as it came is a video outside any HLS group.
proof fn lemma_passthrough_plain(items: Seq<MediaItemView>)
    ensures
        forall|i: int|
            0 <= i < passthrough(items).len() ==> (#[trigger] passthrough(items)[i]).media_type
                == MediaType::Video && !has_sub(passthrough(items)[i].high_res_url, ".m3u8"@),
    decreases items.len(),
{
    if items.len() > 0 {
        lemma_passthrough_plain(items.drop_last());
        let r = passthrough(items.drop_last());
        let g = passthrough(items);
        assert forall|i: int| 0 <= i < g.len() implies (#[trigger] g[i]).media_type == MediaType::Video
            && !has_sub(g[i].high_res_url, ".m3u8"@) by {
            if i < r.len() {
                assert(g[i] == r[i]);
            }
        }
    }
}

/// Videos are left as they came piece by piece: none of the merged items,
/// and all of the plain videos.
proof fn lemma_passthrough_pieces(a: Seq<MediaItemView>, b: Seq<MediaItemView>)
    requires
        forall|i: int|
            0 <= i < b.len() ==> (#[trigger] b[i]).media_type == MediaType::Video && !has_sub(
                b[i].high_res_url,
                ".m3u8"@,
            ),
        forall|i: int|
            0 <= i < a.len() ==> !((#[trigger] a[i]).media_type == MediaType::Video && !has_sub(
                a[i].high_res_url,
                ".m3u8"@,
            )),
    ensures
        passthrough(a + b) == b,
    decreases a.len() + b.len(),
{
    if b.len() == 0 {
        assert(a + b =~= a);
        if a.len() > 0 {
            let a1 = a.drop_last();
            assert forall|i: int| 0 <= i < a1.len() implies !((#[trigger] a1[i]).media_type == MediaType::Video
                && !has_sub(a1[i].high_res_url, ".m3u8"@)) by {
                assert(a1[i] == a[i]);
            }
            lemma_passthrough_pieces(a1, b);
            assert(a1 + b =~= a1);
            assert(a.last() == a[a.len() - 1]);
        }
    } else {
        let b1 = b.drop_last();
        assert forall|i: int| 0 <= i < b1.len() implies (#[trigger] b1[i]).media_type == MediaType::Video
            && !has_sub(b1[i].high_res_url, ".m3u8"@) by {
            assert(b1[i] == b[i]);
        }
        lemma_passthrough_pieces(a, b1);
        assert((a + b).drop_last() =~= a + b1);
        assert((a + b).last() == b[b.len() - 1]);
        assert(b1.push(b.last()) =~= b);
    }
}

/// Deduplicating a deduplicated list changes nothing: every merged group
/// is alone in its group and merges to itself, and the other videos stay.
pub proof fn lemma_deduplicate_idempotent(items: Seq<MediaItemView>)
    ensures
        deduplicated(deduplicated(items)) == deduplicated(items),
{
    let kv = distinct_keys(items, GroupKind::Video);
    let ki = distinct_keys(items, GroupKind::Image);
    let v = merged_for_keys(items, GroupKind::Video, kv);
    let im = merged_for_keys(items, GroupKind::Image, ki);
    let p = passthrough(items);
    let out = deduplicated(items);
    assert(out == v + im + p);
    lemma_merged_prefix_settled(items, GroupKind::Video, kv.len() as int);
    lemma_merged_prefix_settled(items, GroupKind::Image, ki.len() as int);
    assert(kv.take(kv.len() as int) =~= kv);
    assert(ki.take(ki.len() as int) =~= ki);
    lemma_passthrough_plain(items);
    // what each part is
    assert forall|i: int| 0 <= i < v.len() implies group_key(GroupKind::Image, #[trigger] v[i]) is None
        && !(v[i].media_type == MediaType::Video && !has_sub(v[i].high_res_url, ".m3u8"@)) by {
        let t = choose|t: int| 0 <= t < kv.len() && settled(GroupKind::Video, #[trigger] v[i], kv[t]);
    }
    assert forall|i: int| 0 <= i < im.len() implies group_key(GroupKind::Video, #[trigger] im[i]) is None
        && !(im[i].media_type == MediaType::Video && !has_sub(im[i].high_res_url, ".m3u8"@)) by {
        let t = choose|t: int| 0 <= t < ki.len() && settled(GroupKind::Image, #[trigger] im[i], ki[t]);
    }
    assert forall|i: int| 0 <= i < p.len() implies group_key(GroupKind::Video, #[trigger] p[i]) is None
        && group_key(GroupKind::Image, p[i]) is None by {}
    // video groups: only the merged videos have one
    let vi = v + im;
    assert forall|i: int| 0 <= i < im.len() implies group_key(GroupKind::Video, #[trigger] im[i]) is None by {}
    lemma_keys_none_suffix(v, im, GroupKind::Video);
    lemma_keys_none_suffix(vi, p, GroupKind::Video);
    let dv = distinct_keys(v, GroupKind::Video);
    assert(distinct_keys(out, GroupKind::Video) == dv);
    assert forall|i: int| 0 <= i < dv.len() implies group_members(out, GroupKind::Video, #[trigger] dv[i])
        == group_members(v, GroupKind::Video, dv[i]) by {
        assert(group_members(vi + p, GroupKind::Video, dv[i]) == group_members(vi, GroupKind::Video, dv[i]));
        assert(group_members(v + im, GroupKind::Video, dv[i]) == group_members(v, GroupKind::Video, dv[i]));
    }
    lemma_merged_for_same_groups(out, v, GroupKind::Video, dv);
    // image groups: only the merged images have one
    lemma_keys_none_prefix(v, im, GroupKind::Image);
    lemma_keys_none_suffix(vi, p, GroupKind::Image);
    let di = distinct_keys(im, GroupKind::Image);
    assert(distinct_keys(out, GroupKind::Image) == di);
    assert forall|i: int| 0 <= i < di.len() implies group_members(out, GroupKind::Image, #[trigger] di[i])
        == group_members(im, GroupKind::Image, di[i]) by {
        assert(group_members(vi + p, GroupKind::Image, di[i]) == group_members(vi, GroupKind::Image, di[i]));
        assert(group_members(v + im, GroupKind::Image, di[i]) == group_members(im, GroupKind::Image, di[i]));
    }
    lemma_merged_for_same_groups(out, im, GroupKind::Image, di);
    // the plain videos stay
    assert forall|i: int| 0 <= i < vi.len() implies !((#[trigger] vi[i]).media_type == MediaType::Video
        && !has_sub(vi[i].high_res_url, ".m3u8"@)) by {
        if i < v.len() {
            assert(vi[i] == v[i]);
        } else {
            assert(vi[i] == im[i - v.len()]);
        }
    }
    lemma_passthrough_pieces(vi, p);
    assert(deduplicated(out) == v + im + p);
}


// ---------------------------------------------------------------------------
// Resolution ranks
// ---------------------------------------------------------------------------

/// The URL names a 4K stream: `4k` or `2160` occurs in it.
pub open spec fn names_uhd(url: Seq<char>) -> bool {
    has_sub(url, "4k"@) || has_sub(url, "2160"@)
}

/// The highest resolution a URL names, from 4 (4K or 2160) down through
/// 1080, 720 and 480 to 0 (none of them).
pub open spec fn named_level(url: Seq<char>) -> int {
    if names_uhd(url) {
        4
    } else if has_sub(url, "1080"@) {
        3
    } else if has_sub(url, "720"@) {
        2
    } else if has_sub(url, "480"@) {
        1
    } else {
        0
    }
}

/// The resolution rank guessed from a URL is strictly monotone in the
/// resolution the URL names: 4K or 2160 above 1080, above 720, above 480,
/// above a URL naming none of them; URLs naming the same one rank equal.
pub proof fn lemma_resolution_rank_monotone(a: Seq<char>, b: Seq<char>)
    ensures
        named_level(a) > named_level(b) ==> resolution_rank(a) > resolution_rank(b),
        named_level(a) == named_level(b) ==> resolution_rank(a) == resolution_rank(b),
        named_level(a) == 0 ==> resolution_rank(a) == 0,
{
}

/// Among the renditions of an HLS group whose pixel areas are all equal
/// (or all unknown), the merged master is one that names 4K or 2160 as
/// soon as any of them does.
pub proof fn lemma_merged_video_prefers_uhd(items: Seq<MediaItemView>)
    requires
        forall|i: int, j: int|
            0 <= i < non_audio(items).len() && 0 <= j < non_audio(items).len() ==> area_of(
                (#[trigger] non_audio(items)[i]).dimensions,
            ) == area_of((#[trigger] non_audio(items)[j]).dimensions),
        exists|i: int| 0 <= i < non_audio(items).len() && names_uhd((#[trigger] non_audio(items)[i]).high_res_url),
    ensures
        merged_videos(items) is Some,
        names_uhd(merged_videos(items).unwrap().high_res_url),
{
    let na = non_audio(items);
    let i = choose|i: int| 0 <= i < na.len() && names_uhd((#[trigger] na[i]).high_res_url);
    lemma_merged_video_is_best(items);
    let m = merged_videos(items).unwrap();
    let t = choose|t: int|
        0 <= t < na.len() && m.high_res_url == na[t].high_res_url && m.dimensions == na[t].dimensions
            && m.media_type == na[t].media_type && m.mime_type == na[t].mime_type
            && !has_sub(lowercase(m.high_res_url), "audio_"@)
            && forall|j: int| 0 <= j < na.len() ==> key_le(video_rank(#[trigger] na[j]), video_rank(na[t]));
    assert(key_le(video_rank(na[i]), video_rank(na[t])));
    assert(area_of(na[i].dimensions) == area_of(na[t].dimensions));
    lemma_resolution_rank_monotone(na[i].high_res_url, na[t].high_res_url);
}

} // verus!
