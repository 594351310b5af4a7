//! The filter pipeline run on extracted metadata: drop junk and undersized
//! items, then collapse alternate resolutions.
use vstd::prelude::*;

use crate::dimensions::{default_dimension_config, is_valid_size, valid_size, DimensionFilterConfig};
use crate::grouping::{deduplicate_media, deduplicated, lemma_deduplicated_from_inputs, same_core};
use crate::models::{ExtractedMediaMetadata, MediaItem, MediaItemView};
use crate::rules::{chunk_url, is_junk_item, junk_item, lemma_chunks_are_junk};

verus! {

/// The items that survive the first prune: not junk and of acceptable size.
pub open spec fn kept_items(items: Seq<MediaItemView>, c: DimensionFilterConfig) -> Seq<MediaItemView>
    decreases items.len(),
{
    if items.len() == 0 {
        seq![]
    } else {
        let r = kept_items(items.drop_last(), c);
        let it = items.last();
        if !junk_item(it) && valid_size(it, c) {
            r.push(it)
        } else {
            r
        }
    }
}

/// The items after the whole pipeline.
pub open spec fn filtered_items(items: Seq<MediaItemView>, c: DimensionFilterConfig) -> Seq<MediaItemView> {
    deduplicated(kept_items(items, c))
}

/// Whether two extracted records agree on everything but their items.
pub open spec fn same_but_items(a: ExtractedMediaMetadata, b: ExtractedMediaMetadata) -> bool {
    &&& a.platform == b.platform
    &&& a.author == b.author
    &&& a.caption == b.caption
    &&& a.post_text == b.post_text
    &&& a.published_at == b.published_at
    &&& a.tags == b.tags
    &&& a.next_page_url == b.next_page_url
    &&& a.discovered_post_urls == b.discovered_post_urls
    &&& a.embedded_player_urls == b.embedded_player_urls
}

fn prune(items: &Vec<MediaItem>, config: &DimensionFilterConfig) -> (r: Vec<MediaItem>)
    ensures
        r.deep_view() == kept_items(items.deep_view(), *config),
{
    let mut r: Vec<MediaItem> = Vec::new();
    let mut i: usize = 0;
    while i < items.len()
        invariant
            i <= items.len(),
            r.deep_view() == kept_items(items.deep_view().take(i as int), *config),
        decreases items.len() - i,
    {
        proof {
            assert(items.deep_view().take(i + 1).drop_last() =~= items.deep_view().take(i as int));
        }
        if !is_junk_item(&items[i]) && is_valid_size(&items[i], config) {
            let ghost before = r.deep_view();
            let d = items[i].duplicate();
            r.push(d);
            assert(r.deep_view() =~= before.push(items.deep_view()[i as int]));
        }
        i += 1;
    }
    assert(items.deep_view().take(items.len() as int) =~= items.deep_view());
    r
}

/// Applies the filters with the given thresholds: drops items with invalid
/// protocols, non-media MIME types, stream chunks, junk paths or bad sizes,
/// then collapses alternate resolutions. Only the items change.
pub fn apply_custom_filters<'a>(
    meta: &'a mut ExtractedMediaMetadata,
    config: &DimensionFilterConfig,
) -> (r: &'a mut ExtractedMediaMetadata)
    ensures
        r.items.deep_view() == filtered_items(old(meta).items.deep_view(), *config),
        same_but_items(*r, *old(meta)),
        *final(meta) == *final(r),
{
    let kept = prune(&meta.items, config);
    meta.items = deduplicate_media(kept);
    meta
}

/// Applies the filters with the default thresholds.
pub fn apply_default_filters(meta: &mut ExtractedMediaMetadata) -> (r: &mut ExtractedMediaMetadata)
    ensures
        r.items.deep_view() == filtered_items(
            old(meta).items.deep_view(),
            default_dimension_config(),
        ),
        same_but_items(*r, *old(meta)),
        *final(meta) == *final(r),
{
    let dim_config = DimensionFilterConfig::default();
    apply_custom_filters(meta, &dim_config)
}

/// The first prune keeps only items that are neither junk nor undersized,
/// each taken from the input, in their order, never more than there were.
pub proof fn lemma_prune_keeps_valid_items(items: Seq<MediaItemView>, c: DimensionFilterConfig)
    ensures
        kept_items(items, c).len() <= items.len(),
        forall|i: int|
            0 <= i < kept_items(items, c).len() ==> !junk_item(#[trigger] kept_items(items, c)[i]) && valid_size(
                kept_items(items, c)[i],
                c,
            ) && items.contains(kept_items(items, c)[i]),
    decreases items.len(),
{
    if items.len() > 0 {
        lemma_prune_keeps_valid_items(items.drop_last(), c);
        let r = kept_items(items.drop_last(), c);
        assert forall|i: int| 0 <= i < r.len() implies items.contains(#[trigger] r[i]) by {
            let j = choose|j: int| 0 <= j < items.drop_last().len() && items.drop_last()[j] == r[i];
            assert(items[j] == r[i]);
        }
        assert(items[items.len() - 1] == items.last());
    }
}

/// Pruning what was already pruned changes nothing.
pub proof fn lemma_prune_idempotent(items: Seq<MediaItemView>, c: DimensionFilterConfig)
    ensures
        kept_items(kept_items(items, c), c) == kept_items(items, c),
    decreases items.len(),
{
    if items.len() > 0 {
        lemma_prune_idempotent(items.drop_last(), c);
        let r = kept_items(items.drop_last(), c);
        let it = items.last();
        if !junk_item(it) && valid_size(it, c) {
            assert(r.push(it).drop_last() =~= r);
        }
    }
}

/// After the whole pipeline no junk or undersized item remains.
pub proof fn lemma_filtered_items_are_clean(items: Seq<MediaItemView>, c: DimensionFilterConfig)
    ensures
        forall|i: int|
            0 <= i < filtered_items(items, c).len() ==> !junk_item(#[trigger] filtered_items(items, c)[i])
                && valid_size(filtered_items(items, c)[i], c),
{
    let kept = kept_items(items, c);
    lemma_prune_keeps_valid_items(items, c);
    lemma_deduplicated_from_inputs(kept);
    let out = filtered_items(items, c);
    assert forall|i: int| 0 <= i < out.len() implies !junk_item(#[trigger] out[i]) && valid_size(out[i], c) by {
        let j = choose|j: int| 0 <= j < kept.len() && same_core(out[i], kept[j]);
        assert(!junk_item(kept[j]) && valid_size(kept[j], c));
    }
}


/// No item whose main URL is a stream chunk (`.ts`, `.m4s` or `.aac`)
/// survives the filters.
pub proof fn lemma_filters_drop_chunks(items: Seq<MediaItemView>, c: DimensionFilterConfig)
    ensures
        forall|i: int|
            0 <= i < filtered_items(items, c).len() ==> !chunk_url(
                (#[trigger] filtered_items(items, c)[i]).high_res_url,
            ),
{
    lemma_filtered_items_are_clean(items, c);
    let out = filtered_items(items, c);
    assert forall|i: int| 0 <= i < out.len() implies !chunk_url((#[trigger] out[i]).high_res_url) by {
        lemma_chunks_are_junk(out[i]);
    }
}

} // verus!
