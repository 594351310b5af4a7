//! Saving an asset's tags: merging the offered tags by name, linking them
//! to the user's tag rows, and the text the search index gets.
use vstd::prelude::*;

use crate::records::TagRepo;
use crate::text::{
    char_vec, concat, concat3, copy_string, equals_lit, join_with, lowercase, same_string,
    string_of, to_lower, trim, trim_ws, CharClass,
};

verus! {

/// The confidence rank of a full confidence of 1.0: ranks order tags as
/// their confidences do; for a non-negative confidence the rank is the bit
/// pattern of its 32-bit float.
pub const FULL_CONFIDENCE_RANK: i64 = 1065353216;

/// A tag offered for an asset.
#[derive(Debug)]
pub struct IngestionTagInput {
    pub name: String,
    /// Orders tags as their confidences do (see `FULL_CONFIDENCE_RANK`).
    pub confidence_rank: i64,
    /// 0 general or model, 1 hashtag, 2 author.
    pub category: i32,
    /// `model`, `manual` or `scraped`.
    pub source: String,
}

/// An offered tag seen as plain values.
pub struct TagInputView {
    pub name: Seq<char>,
    pub confidence_rank: i64,
    pub category: i32,
    pub source: Seq<char>,
}

impl View for IngestionTagInput {
    type V = TagInputView;

    open spec fn view(&self) -> TagInputView {
        TagInputView {
            name: self.name@,
            confidence_rank: self.confidence_rank,
            category: self.category,
            source: self.source@,
        }
    }
}

impl DeepView for IngestionTagInput {
    type V = TagInputView;

    open spec fn deep_view(&self) -> TagInputView {
        self.view()
    }
}

impl IngestionTagInput {
    /// A tag from the tagging model.
    pub fn new_ai(name: &str, confidence_rank: i64) -> (r: Self)
        ensures
            r@ == (TagInputView { name: name@, confidence_rank, category: 0, source: "model"@ }),
    {
        IngestionTagInput { name: name.to_owned(), confidence_rank, category: 0, source: "model".to_owned() }
    }

    /// A hashtag of the source post, at full confidence.
    pub fn new_hashtag(name: &str) -> (r: Self)
        ensures
            r@ == (TagInputView {
                name: name@,
                confidence_rank: FULL_CONFIDENCE_RANK,
                category: 1,
                source: "scraped"@,
            }),
    {
        IngestionTagInput {
            name: name.to_owned(),
            confidence_rank: FULL_CONFIDENCE_RANK,
            category: 1,
            source: "scraped".to_owned(),
        }
    }

    /// The author of the source post, at full confidence.
    pub fn new_author(name: &str) -> (r: Self)
        ensures
            r@ == (TagInputView {
                name: name@,
                confidence_rank: FULL_CONFIDENCE_RANK,
                category: 2,
                source: "scraped"@,
            }),
    {
        IngestionTagInput {
            name: name.to_owned(),
            confidence_rank: FULL_CONFIDENCE_RANK,
            category: 2,
            source: "scraped".to_owned(),
        }
    }
}

/// A tag kept after merging: the offered tag it comes from, the name it
/// is saved under, and the key it was merged by.
pub struct KeptTag {
    pub input: usize,
    pub name: String,
    pub key: String,
}

/// A kept tag seen as plain values.
pub struct KeptTagView {
    pub input: int,
    pub name: Seq<char>,
    pub key: Seq<char>,
}

impl View for KeptTag {
    type V = KeptTagView;

    open spec fn view(&self) -> KeptTagView {
        KeptTagView { input: self.input as int, name: self.name@, key: self.key@ }
    }
}

impl DeepView for KeptTag {
    type V = KeptTagView;

    open spec fn deep_view(&self) -> KeptTagView {
        self.view()
    }
}

/// The merge key of a tag name: trimmed and lowercase.
pub open spec fn tag_key(name: Seq<char>) -> Seq<char> {
    lowercase(trim(name, CharClass::Whitespace))
}

/// The position of the kept tag with a key.
pub open spec fn key_position(kept: Seq<KeptTagView>, key: Seq<char>) -> Option<int>
    decreases kept.len(),
{
    if kept.len() == 0 {
        None
    } else if kept.last().key == key {
        Some(kept.len() - 1)
    } else {
        key_position(kept.drop_last(), key)
    }
}

/// The offered tags merged by key, in order of first appearance: a tag
/// with an empty key is dropped; the first tag of a key is kept under its
/// key; a later tag of the same key with a strictly higher confidence takes
/// its place as it was offered, under the name it was offered with.
pub open spec fn merged_tags(tags: Seq<TagInputView>) -> Seq<KeptTagView>
    decreases tags.len(),
{
    if tags.len() == 0 {
        seq![]
    } else {
        let r = merged_tags(tags.drop_last());
        let i = tags.len() - 1;
        let t = tags.last();
        let key = tag_key(t.name);
        if key.len() == 0 {
            r
        } else {
            match key_position(r, key) {
                Some(p) => if t.confidence_rank > tags[r[p].input].confidence_rank {
                    r.update(p, KeptTagView { input: i, name: t.name, key })
                } else {
                    r
                },
                None => r.push(KeptTagView { input: i, name: key, key }),
            }
        }
    }
}

proof fn lemma_merged_inputs(tags: Seq<TagInputView>)
    ensures
        forall|k: int| 0 <= k < merged_tags(tags).len() ==> 0 <= #[trigger] merged_tags(tags)[k].input < tags.len(),
    decreases tags.len(),
{
    if tags.len() > 0 {
        lemma_merged_inputs(tags.drop_last());
        let r = merged_tags(tags.drop_last());
        assert forall|k: int| 0 <= k < r.len() implies #[trigger] r[k].input < tags.len() by {}
        lemma_key_position(r, tag_key(tags.last().name));
    }
}

proof fn lemma_key_position(kept: Seq<KeptTagView>, key: Seq<char>)
    ensures
        key_position(kept, key) matches Some(p) ==> 0 <= p < kept.len() && kept[p].key == key,
        key_position(kept, key) is None ==> forall|k: int| 0 <= k < kept.len() ==> (#[trigger] kept[k]).key != key,
    decreases kept.len(),
{
    if kept.len() > 0 {
        lemma_key_position(kept.drop_last(), key);
        if kept.last().key != key {
            assert forall|k: int| 0 <= k < kept.len() - 1 implies #[trigger] kept[k].key == kept.drop_last()[k].key by {}
        }
    }
}

/// The kept tags seen as plain values.
pub open spec fn kept_views(kept: Seq<KeptTag>) -> Seq<KeptTagView> {
    kept.map_values(|k: KeptTag| k@)
}

/// Finds the kept tag with a key.
fn find_key(kept: &Vec<KeptTag>, key: &String) -> (r: Option<usize>)
    ensures
        r matches Some(p) ==> key_position(kept_views(kept@), key@) == Some(p as int),
        r is None ==> key_position(kept_views(kept@), key@) is None,
{
    let ghost kv = kept_views(kept@);
    let mut i: usize = kept.len();
    assert(kv.take(kv.len() as int) =~= kv);
    while i > 0
        invariant
            i <= kept@.len(),
            kv == kept_views(kept@),
            key_position(kv.take(i as int), key@) == key_position(kv, key@),
        decreases i,
    {
        let ghost pre = kv.take(i as int);
        assert(pre.last() == kv[i - 1]);
        assert(pre.drop_last() =~= kv.take(i - 1));
        if same_string(&kept[i - 1].key, key) {
            return Some(i - 1);
        }
        i -= 1;
    }
    None
}

impl TagRepo {
    /// Merges the offered tags by key, keeping the more confident.
    pub fn merge_tags(tags: &Vec<IngestionTagInput>) -> (r: Vec<KeptTag>)
        ensures
            kept_views(r@) == merged_tags(tags.deep_view()),
            forall|k: int| 0 <= k < r@.len() ==> #[trigger] r@[k].input < tags@.len(),
    {
        let ghost tv = tags.deep_view();
        let mut kept: Vec<KeptTag> = Vec::new();
        let mut i: usize = 0;
        while i < tags.len()
            invariant
                i <= tags@.len(),
                tv == tags.deep_view(),
                kept_views(kept@) == merged_tags(tv.take(i as int)),
            decreases tags.len() - i,
        {
            let ghost pre = tv.take(i + 1);
            assert(pre.drop_last() =~= tv.take(i as int));
            assert(pre.last() == tv[i as int]);
            proof {
                lemma_merged_inputs(tv.take(i as int));
                lemma_key_position(kept_views(kept@), tag_key(tv[i as int].name));
            }
            let t = &tags[i];
            let nv = char_vec(t.name.as_str());
            let trimmed = string_of(&trim_ws(&nv));
            let key = to_lower(trimmed.as_str());
            let kvv = char_vec(key.as_str());
            if kvv.len() > 0 {
                match find_key(&kept, &key) {
                    Some(p) => {
                        let current = kept[p].input;
                        assert(kept_views(kept@)[p as int] == kept@[p as int]@);
                        assert(merged_tags(tv.take(i as int))[p as int].input == current as int);
                        assert(current < i);
                        assert(tv.take(i as int)[current as int] == tv[current as int]);
                        if t.confidence_rank > tags[current].confidence_rank {
                            let ghost before = kept_views(kept@);
                            kept.set(p, KeptTag { input: i, name: copy_string(&t.name), key });
                            assert(kept_views(kept@) =~= before.update(
                                p as int,
                                KeptTagView { input: i as int, name: tv[i as int].name, key: tag_key(tv[i as int].name) },
                            ));
                        }
                    },
                    None => {
                        let ghost before = kept_views(kept@);
                        kept.push(KeptTag { input: i, name: copy_string(&key), key });
                        assert(kept_views(kept@) =~= before.push(
                            KeptTagView { input: i as int, name: tag_key(tv[i as int].name), key: tag_key(tv[i as int].name) },
                        ));
                    },
                }
            }
            i += 1;
        }
        assert(tv.take(tv.len() as int) =~= tv);
        proof {
            lemma_merged_inputs(tv);
            assert(tv.len() == tags@.len());
            assert(kept_views(kept@) == merged_tags(tv));
            assert forall|k: int| 0 <= k < kept@.len() implies #[trigger] kept@[k].input < tags@.len() by {
                assert(kept_views(kept@)[k] == kept@[k]@);
                assert(kept_views(kept@)[k] == merged_tags(tv)[k]);
                assert(merged_tags(tv)[k].input < tv.len());
            }
        }
        kept
    }
}

/// The id of the user's tag whose name, lowercase, is `key` (the last
/// such row when several match).
pub open spec fn row_lookup(rows: Seq<(i64, Seq<char>)>, key: Seq<char>) -> Option<i64>
    decreases rows.len(),
{
    if rows.len() == 0 {
        None
    } else if lowercase(rows.last().1) == key {
        Some(rows.last().0)
    } else {
        row_lookup(rows.drop_last(), key)
    }
}

/// Tag rows seen as plain values.
pub open spec fn row_views(rows: Seq<(i64, String)>) -> Seq<(i64, Seq<char>)> {
    rows.map_values(|r: (i64, String)| (r.0, r.1@))
}

/// Looks a key up among tag rows.
pub fn lookup_tag_row(rows: &Vec<(i64, String)>, key: &str) -> (r: Option<i64>)
    ensures
        r == row_lookup(row_views(rows@), key@),
{
    let ghost rv = row_views(rows@);
    let k = key.to_owned();
    let mut i: usize = rows.len();
    assert(rv.take(rv.len() as int) =~= rv);
    while i > 0
        invariant
            i <= rows@.len(),
            rv == row_views(rows@),
            k@ == key@,
            row_lookup(rv.take(i as int), key@) == row_lookup(rv, key@),
        decreases i,
    {
        let ghost pre = rv.take(i as int);
        assert(pre.last() == (rows@[i - 1].0, rows@[i - 1].1@));
        assert(pre.drop_last() =~= rv.take(i - 1));
        let low = to_lower(rows[i - 1].1.as_str());
        if same_string(&low, &k) {
            return Some(rows[i - 1].0);
        }
        i -= 1;
    }
    None
}

/// The link source recorded for a tag source: scraped tags link as
/// `SCRAPE`, manual ones as `USER`, the rest as `AI`.
pub open spec fn link_source(source: Seq<char>) -> Seq<char> {
    if source == "scraped"@ {
        "SCRAPE"@
    } else if source == "manual"@ {
        "USER"@
    } else {
        "AI"@
    }
}

/// A link of an asset to a tag row, with the offered tag it comes from.
#[derive(Debug)]
pub struct TagLink {
    pub tag_id: i64,
    pub input: usize,
    pub source: String,
}

/// A link seen as plain values.
pub struct TagLinkView {
    pub tag_id: i64,
    pub input: int,
    pub source: Seq<char>,
}

impl View for TagLink {
    type V = TagLinkView;

    open spec fn view(&self) -> TagLinkView {
        TagLinkView { tag_id: self.tag_id, input: self.input as int, source: self.source@ }
    }
}

/// The links of kept tags, in order: each kept tag whose saved name
/// matches a tag row.
pub open spec fn tag_links(kept: Seq<KeptTagView>, tags: Seq<TagInputView>, rows: Seq<(i64, Seq<char>)>) -> Seq<TagLinkView>
    decreases kept.len(),
{
    if kept.len() == 0 {
        seq![]
    } else {
        let r = tag_links(kept.drop_last(), tags, rows);
        let k = kept.last();
        match row_lookup(rows, k.name) {
            Some(id) => r.push(TagLinkView { tag_id: id, input: k.input, source: link_source(tags[k.input].source) }),
            None => r,
        }
    }
}

/// Link views.
pub open spec fn link_views(links: Seq<TagLink>) -> Seq<TagLinkView> {
    links.map_values(|l: TagLink| l@)
}

/// The names of kept tags.
pub open spec fn kept_names(kept: Seq<KeptTagView>) -> Seq<Seq<char>> {
    kept.map_values(|k: KeptTagView| k.name)
}

/// The text the search index gets: the kept names, space separated.
pub open spec fn search_text(kept: Seq<KeptTagView>) -> Seq<char> {
    join_with(kept_names(kept), " "@)
}

/// Computes `link_source`.
fn link_source_of(source: &str) -> (r: String)
    ensures
        r@ == link_source(source@),
{
    let v = char_vec(source);
    if equals_lit(&v, "scraped") {
        "SCRAPE".to_owned()
    } else if equals_lit(&v, "manual") {
        "USER".to_owned()
    } else {
        "AI".to_owned()
    }
}

impl TagRepo {
    /// The links of kept tags to the user's tag rows.
    pub fn link_kept_tags(kept: &Vec<KeptTag>, tags: &Vec<IngestionTagInput>, rows: &Vec<(i64, String)>) -> (r: Vec<TagLink>)
        requires
            forall|k: int| 0 <= k < kept@.len() ==> #[trigger] kept@[k].input < tags@.len(),
        ensures
            link_views(r@) == tag_links(kept_views(kept@), tags.deep_view(), row_views(rows@)),
    {
        let ghost kv = kept_views(kept@);
        let mut out: Vec<TagLink> = Vec::new();
        let mut i: usize = 0;
        while i < kept.len()
            invariant
                i <= kept@.len(),
                kv == kept_views(kept@),
                forall|k: int| 0 <= k < kept@.len() ==> #[trigger] kept@[k].input < tags@.len(),
                link_views(out@) == tag_links(kv.take(i as int), tags.deep_view(), row_views(rows@)),
            decreases kept.len() - i,
        {
            let ghost pre = kv.take(i + 1);
            assert(pre.drop_last() =~= kv.take(i as int));
            assert(pre.last() == kept@[i as int]@);
            let k = &kept[i];
            match lookup_tag_row(rows, k.name.as_str()) {
                Some(id) => {
                    let ghost before = link_views(out@);
                    let src = link_source_of(tags[k.input].source.as_str());
                    out.push(TagLink { tag_id: id, input: k.input, source: src });
                    assert(tags.deep_view()[k.input as int] == tags@[k.input as int]@);
                    assert(link_views(out@) =~= before.push(out@.last()@));
                },
                None => {},
            }
            i += 1;
        }
        assert(kv.take(kv.len() as int) =~= kv);
        out
    }

    /// The search index text of kept tags.
    pub fn search_terms(kept: &Vec<KeptTag>) -> (r: String)
        ensures
            r@ == search_text(kept_views(kept@)),
    {
        let ghost kv = kept_views(kept@);
        let mut names: Vec<Vec<char>> = Vec::new();
        let mut i: usize = 0;
        while i < kept.len()
            invariant
                i <= kept@.len(),
                kv == kept_views(kept@),
                names.deep_view() == kept_names(kv).take(i as int),
            decreases kept.len() - i,
        {
            let ghost before = names.deep_view();
            let n = char_vec(kept[i].name.as_str());
            proof {
                crate::text::lemma_char_vec_deep_view(n);
            }
            names.push(n);
            assert(names.deep_view() =~= before.push(kv[i as int].name));
            assert(kept_names(kv).take(i + 1) =~= kept_names(kv).take(i as int).push(kv[i as int].name));
            i += 1;
        }
        assert(kept_names(kv).take(kv.len() as int) =~= kept_names(kv));
        let sep = char_vec(" ");
        let joined = crate::text::join_chars(&names, &sep);
        string_of(&joined)
    }
}

/// Merged tags have distinct, non-empty keys.
pub proof fn lemma_merged_keys_distinct(tags: Seq<TagInputView>)
    ensures
        forall|i: int, j: int|
            0 <= i < j < merged_tags(tags).len() ==> (#[trigger] merged_tags(tags)[i]).key != (
            #[trigger] merged_tags(tags)[j]).key,
        forall|i: int| 0 <= i < merged_tags(tags).len() ==> (#[trigger] merged_tags(tags)[i]).key.len() > 0,
    decreases tags.len(),
{
    if tags.len() > 0 {
        lemma_merged_keys_distinct(tags.drop_last());
        let r = merged_tags(tags.drop_last());
        let t = tags.last();
        let key = tag_key(t.name);
        lemma_key_position(r, key);
        if key.len() > 0 {
            match key_position(r, key) {
                Some(p) => {
                    let w = merged_tags(tags);
                    assert forall|i: int, j: int| 0 <= i < j < w.len() implies (#[trigger] w[i]).key != (#[trigger] w[j]).key by {
                        assert(w[i].key == r[i].key);
                        assert(w[j].key == r[j].key);
                    }
                },
                None => {
                    let w = r.push(KeptTagView { input: tags.len() - 1, name: key, key });
                    assert forall|i: int, j: int| 0 <= i < j < w.len() implies (#[trigger] w[i]).key != (#[trigger] w[j]).key by {
                        if j == w.len() - 1 {
                            assert(w[i] == r[i]);
                        }
                    }
                },
            }
        }
    }
}

/// A kept tag comes from a tag of its key, whose confidence no other tag of
/// that key exceeds.
pub open spec fn keeps_highest(tags: Seq<TagInputView>, kept: KeptTagView) -> bool {
    &&& 0 <= kept.input < tags.len()
    &&& tag_key(tags[kept.input].name) == kept.key
    &&& forall|j: int|
        0 <= j < tags.len() && #[trigger] tag_key(tags[j].name) == kept.key
            ==> tags[j].confidence_rank <= tags[kept.input].confidence_rank
}

/// Merging keeps one tag for every non-empty key that occurs (the keys
/// being distinct), and that tag has the highest confidence of its key.
#[verifier::rlimit(40)]
pub proof fn lemma_merged_keeps_highest(tags: Seq<TagInputView>)
    ensures
        forall|k: int| 0 <= k < merged_tags(tags).len() ==> keeps_highest(tags, #[trigger] merged_tags(tags)[k]),
        forall|j: int|
            #![trigger tags[j]]
            0 <= j < tags.len() && tag_key(tags[j].name).len() > 0 ==> exists|k: int|
                0 <= k < merged_tags(tags).len() && (#[trigger] merged_tags(tags)[k]).key == tag_key(tags[j].name),
    decreases tags.len(),
{
    if tags.len() > 0 {
        let t = tags.drop_last();
        let i = tags.len() - 1;
        let x = tags.last();
        let key = tag_key(x.name);
        lemma_merged_keeps_highest(t);
        lemma_merged_keys_distinct(t);
        let r = merged_tags(t);
        let m = merged_tags(tags);
        lemma_key_position(r, key);
        assert(tags[i] == x);
        assert forall|j: int| 0 <= j < t.len() implies #[trigger] t[j] == tags[j] by {}
        if key.len() == 0 {
            assert(m == r);
            assert forall|k: int| 0 <= k < m.len() implies keeps_highest(tags, #[trigger] m[k]) by {
                assert(keeps_highest(t, r[k]));
                assert(t[r[k].input] == tags[r[k].input]);
                assert forall|j: int| 0 <= j < tags.len() && #[trigger] tag_key(tags[j].name) == m[k].key implies tags[j].confidence_rank
                    <= tags[m[k].input].confidence_rank by {
                    if j < t.len() {
                        assert(t[j] == tags[j]);
                    }
                }
            }
            assert forall|j: int|
                #![trigger tags[j]]
                0 <= j < tags.len() && tag_key(tags[j].name).len() > 0 implies exists|k: int|
                    0 <= k < m.len() && (#[trigger] m[k]).key == tag_key(tags[j].name) by {
                assert(j < t.len());
                assert(t[j] == tags[j]);
            }
        } else {
            match key_position(r, key) {
                Some(p) => {
                    let q = r[p].input;
                    assert(keeps_highest(t, r[p]));
                    assert(t[q] == tags[q]);
                    if x.confidence_rank > tags[q].confidence_rank {
                        let nk = KeptTagView { input: i, name: x.name, key };
                        assert(m == r.update(p, nk));
                        assert forall|k: int| 0 <= k < m.len() implies keeps_highest(tags, #[trigger] m[k]) by {
                            if k == p {
                                assert forall|j: int| 0 <= j < tags.len() && #[trigger] tag_key(tags[j].name) == m[k].key implies tags[j].confidence_rank
                                    <= tags[m[k].input].confidence_rank by {
                                    if j < t.len() {
                                        assert(t[j] == tags[j]);
                                        assert(tag_key(t[j].name) == r[p].key);
                                    }
                                }
                            } else {
                                assert(m[k] == r[k]);
                                assert(keeps_highest(t, r[k]));
                                assert(r[k].key != r[p].key);
                                assert(t[r[k].input] == tags[r[k].input]);
                                assert forall|j: int| 0 <= j < tags.len() && #[trigger] tag_key(tags[j].name) == m[k].key implies tags[j].confidence_rank
                                    <= tags[m[k].input].confidence_rank by {
                                    if j < t.len() {
                                        assert(t[j] == tags[j]);
                                    }
                                }
                            }
                        }
                        assert forall|j: int|
                            #![trigger tags[j]]
                            0 <= j < tags.len() && tag_key(tags[j].name).len() > 0 implies exists|k: int|
                                0 <= k < m.len() && (#[trigger] m[k]).key == tag_key(tags[j].name) by {
                            if j < t.len() {
                                assert(t[j] == tags[j]);
                                let k0 = choose|k: int| 0 <= k < r.len() && (#[trigger] r[k]).key == tag_key(t[j].name);
                                if k0 == p {
                                    assert(m[p].key == key);
                                } else {
                                    assert(m[k0] == r[k0]);
                                }
                            } else {
                                assert(m[p].key == key);
                            }
                        }
                    } else {
                        assert(m == r);
                        assert forall|k: int| 0 <= k < m.len() implies keeps_highest(tags, #[trigger] m[k]) by {
                            assert(keeps_highest(t, r[k]));
                            assert(t[r[k].input] == tags[r[k].input]);
                            assert forall|j: int| 0 <= j < tags.len() && #[trigger] tag_key(tags[j].name) == m[k].key implies tags[j].confidence_rank
                                <= tags[m[k].input].confidence_rank by {
                                if j < t.len() {
                                    assert(t[j] == tags[j]);
                                } else if k != p {
                                    assert(r[k].key != r[p].key);
                                }
                            }
                        }
                        assert forall|j: int|
                            #![trigger tags[j]]
                            0 <= j < tags.len() && tag_key(tags[j].name).len() > 0 implies exists|k: int|
                                0 <= k < m.len() && (#[trigger] m[k]).key == tag_key(tags[j].name) by {
                            if j < t.len() {
                                assert(t[j] == tags[j]);
                            } else {
                                assert(m[p].key == key);
                            }
                        }
                    }
                },
                None => {
                    let nk = KeptTagView { input: i, name: key, key };
                    assert(m == r.push(nk));
                    assert forall|k: int| 0 <= k < m.len() implies keeps_highest(tags, #[trigger] m[k]) by {
                        if k == r.len() {
                            assert forall|j: int| 0 <= j < tags.len() && #[trigger] tag_key(tags[j].name) == m[k].key implies tags[j].confidence_rank
                                <= tags[m[k].input].confidence_rank by {
                                if j < t.len() {
                                    assert(t[j] == tags[j]);
                                    assert(tag_key(t[j].name).len() > 0);
                                    let k0 = choose|k: int| 0 <= k < r.len() && (#[trigger] r[k]).key == tag_key(t[j].name);
                                    assert(r[k0].key != key);
                                }
                            }
                        } else {
                            assert(m[k] == r[k]);
                            assert(keeps_highest(t, r[k]));
                            assert(r[k].key != key);
                            assert(t[r[k].input] == tags[r[k].input]);
                            assert forall|j: int| 0 <= j < tags.len() && #[trigger] tag_key(tags[j].name) == m[k].key implies tags[j].confidence_rank
                                <= tags[m[k].input].confidence_rank by {
                                if j < t.len() {
                                    assert(t[j] == tags[j]);
                                }
                            }
                        }
                    }
                    assert forall|j: int|
                        #![trigger tags[j]]
                        0 <= j < tags.len() && tag_key(tags[j].name).len() > 0 implies exists|k: int|
                            0 <= k < m.len() && (#[trigger] m[k]).key == tag_key(tags[j].name) by {
                        if j < t.len() {
                            assert(t[j] == tags[j]);
                            let k0 = choose|k: int| 0 <= k < r.len() && (#[trigger] r[k]).key == tag_key(t[j].name);
                            assert(m[k0] == r[k0]);
                        } else {
                            assert(m[r.len() as int].key == key);
                        }
                    }
                },
            }
        }
    }
}

} // verus!
