//! HLS master playlists: the renditions a playlist offers, with their
//! bandwidth, resolution and matching audio group, in ascending bandwidth.
use vstd::prelude::*;

use crate::models::MediaDimensions;
use crate::order::{int_keys, key_le, lemma_stable_order, stable_order, stable_sorted_indices};
use crate::text::{
    begins, char_vec, concat3, contains_lit, copy_opt, copy_string, equals_lit, has_sub,
    is_prefix, parse_unsigned, parse_unsigned_chars, rsplit_once, slice_vec, split_chars,
    split_first, split_last, split_on, split_once, string_of, trim, trim_class, trim_ws,
    CharClass,
};

verus! {

/// One rendition announced by a master playlist.
#[derive(Debug, Clone)]
pub struct HlsVariant {
    pub resolution: String,
    pub dimensions: Option<MediaDimensions>,
    pub bandwidth: u64,
    pub video_url: String,
    pub audio_url: Option<String>,
}

/// A rendition seen as plain values.
pub struct HlsVariantView {
    pub resolution: Seq<char>,
    pub dimensions: Option<MediaDimensions>,
    pub bandwidth: u64,
    pub video_url: Seq<char>,
    pub audio_url: Option<Seq<char>>,
}

impl View for HlsVariant {
    type V = HlsVariantView;

    open spec fn view(&self) -> HlsVariantView {
        HlsVariantView {
            resolution: self.resolution@,
            dimensions: self.dimensions,
            bandwidth: self.bandwidth,
            video_url: self.video_url@,
            audio_url: self.audio_url.deep_view(),
        }
    }
}

impl DeepView for HlsVariant {
    type V = HlsVariantView;

    open spec fn deep_view(&self) -> HlsVariantView {
        self.view()
    }
}

impl HlsVariant {
    /// A copy of this rendition.
    pub fn duplicate(&self) -> (r: HlsVariant)
        ensures
            r@ == self@,
    {
        HlsVariant {
            resolution: copy_string(&self.resolution),
            dimensions: self.dimensions,
            bandwidth: self.bandwidth,
            video_url: copy_string(&self.video_url),
            audio_url: copy_opt(&self.audio_url),
        }
    }
}

// ---------------------------------------------------------------------------
// Lines and attributes
// ---------------------------------------------------------------------------

/// A line without its trailing carriage return.
pub open spec fn strip_cr(l: Seq<char>) -> Seq<char> {
    if l.len() > 0 && l.last() == '\r' {
        l.drop_last()
    } else {
        l
    }
}

/// The lines of a text, as `str::lines` gives them: split at `\n`, a `\r`
/// before a `\n` removed, no final empty line.
pub open spec fn text_lines(s: Seq<char>) -> Seq<Seq<char>> {
    let p = split_on(s, '\n');
    let init = p.drop_last().map_values(|l: Seq<char>| strip_cr(l));
    if p.last().len() == 0 {
        init
    } else {
        init.push(p.last())
    }
}

/// `s` with every leading copy of `p` removed (as `str::trim_start_matches`
/// does for a non-empty string pattern).
pub open spec fn strip_prefixes(s: Seq<char>, p: Seq<char>) -> Seq<char>
    decreases s.len(),
{
    if p.len() > 0 && is_prefix(p, s) {
        strip_prefixes(s.subrange(p.len() as int, s.len() as int), p)
    } else {
        s
    }
}

/// An attribute value: trimmed, then stripped of surrounding quotes.
pub open spec fn attr_value(v: Seq<char>) -> Seq<char> {
    trim(trim(v, CharClass::Whitespace), CharClass::Only('"'))
}

/// The audio group and URI announced by one `#EXT-X-MEDIA` attribute list,
/// later attributes overriding earlier ones.
pub open spec fn media_attrs(parts: Seq<Seq<char>>) -> (Option<Seq<char>>, Option<Seq<char>>)
    decreases parts.len(),
{
    if parts.len() == 0 {
        (None, None)
    } else {
        let (g, u) = media_attrs(parts.drop_last());
        match split_once(parts.last(), '=') {
            Some(kv) => {
                let k = trim(kv.0, CharClass::Whitespace);
                if k == "GROUP-ID"@ {
                    (Some(attr_value(kv.1)), u)
                } else if k == "URI"@ {
                    (g, Some(attr_value(kv.1)))
                } else {
                    (g, u)
                }
            },
            None => (g, u),
        }
    }
}

/// The state built from a `#EXT-X-STREAM-INF` attribute list: bandwidth,
/// resolution text, dimensions and audio group.
pub struct StreamAttrs {
    pub bandwidth: u64,
    pub resolution: Seq<char>,
    pub dimensions: Option<MediaDimensions>,
    pub audio: Option<Seq<char>>,
}

/// Dimensions parsed from `WxH`.
pub open spec fn parse_resolution(r: Seq<char>) -> Option<MediaDimensions> {
    match split_once(r, 'x') {
        Some(wh) => match (
            parse_unsigned(wh.0, usize::MAX as nat),
            parse_unsigned(wh.1, usize::MAX as nat),
        ) {
            (Some(w), Some(h)) => Some(MediaDimensions { width: w as usize, height: h as usize }),
            _ => None,
        },
        None => None,
    }
}

/// The stream attributes, later attributes overriding earlier ones; an
/// unparsable bandwidth counts as zero and an unparsable resolution leaves
/// the dimensions as they were.
pub open spec fn stream_attrs(parts: Seq<Seq<char>>) -> StreamAttrs
    decreases parts.len(),
{
    if parts.len() == 0 {
        StreamAttrs { bandwidth: 0, resolution: "Unknown"@, dimensions: None, audio: None }
    } else {
        let a = stream_attrs(parts.drop_last());
        match split_once(parts.last(), '=') {
            Some(kv) => {
                let k = trim(kv.0, CharClass::Whitespace);
                let v = trim(kv.1, CharClass::Whitespace);
                if k == "BANDWIDTH"@ {
                    StreamAttrs {
                        bandwidth: match parse_unsigned(v, u64::MAX as nat) {
                            Some(b) => b as u64,
                            None => 0,
                        },
                        ..a
                    }
                } else if k == "RESOLUTION"@ {
                    StreamAttrs {
                        resolution: v,
                        dimensions: match parse_resolution(v) {
                            Some(d) => Some(d),
                            None => a.dimensions,
                        },
                        ..a
                    }
                } else if k == "AUDIO"@ {
                    StreamAttrs { audio: Some(attr_value(kv.1)), ..a }
                } else {
                    a
                }
            },
            None => a,
        }
    }
}

/// A rendition link relative to the master playlist: kept when absolute,
/// else put beside the playlist (or kept when the playlist URL has no `/`).
pub open spec fn resolved_url(base: Seq<char>, rel: Seq<char>) -> Seq<char> {
    if is_prefix("http://"@, rel) || is_prefix("https://"@, rel) {
        rel
    } else {
        match rsplit_once(base, '/') {
            Some(pr) => pr.0 + seq!['/'] + rel,
            None => rel,
        }
    }
}

/// The audio groups declared by the playlist's lines, in order.
pub open spec fn audio_groups(lines: Seq<Seq<char>>, master: Seq<char>) -> Seq<(Seq<char>, Seq<char>)>
    decreases lines.len(),
{
    if lines.len() == 0 {
        seq![]
    } else {
        let r = audio_groups(lines.drop_last(), master);
        let l = lines.last();
        if is_prefix("#EXT-X-MEDIA:"@, l) && has_sub(l, "TYPE=AUDIO"@) {
            match media_attrs(split_on(strip_prefixes(l, "#EXT-X-MEDIA:"@), ',')) {
                (Some(g), Some(u)) => r.push((g, resolved_url(master, u))),
                _ => r,
            }
        } else {
            r
        }
    }
}

/// The URI of the last declaration of group `g`.
pub open spec fn group_lookup(groups: Seq<(Seq<char>, Seq<char>)>, g: Seq<char>) -> Option<Seq<char>>
    decreases groups.len(),
{
    if groups.len() == 0 {
        None
    } else if groups.last().0 == g {
        Some(groups.last().1)
    } else {
        group_lookup(groups.drop_last(), g)
    }
}

/// The rendition announced by line `i`, if that line is a stream header
/// followed by a stream path.
pub open spec fn variant_at(
    lines: Seq<Seq<char>>,
    i: int,
    master: Seq<char>,
    groups: Seq<(Seq<char>, Seq<char>)>,
) -> Option<HlsVariantView> {
    let l = lines[i];
    if is_prefix("#EXT-X-STREAM-INF:"@, l) && i + 1 < lines.len() {
        let a = stream_attrs(split_on(strip_prefixes(l, "#EXT-X-STREAM-INF:"@), ','));
        let path = trim(lines[i + 1], CharClass::Whitespace);
        if path.len() > 0 && !is_prefix(seq!['#'], path) {
            Some(
                HlsVariantView {
                    resolution: a.resolution,
                    dimensions: a.dimensions,
                    bandwidth: a.bandwidth,
                    video_url: resolved_url(master, path),
                    audio_url: match a.audio {
                        Some(g) => group_lookup(groups, g),
                        None => None,
                    },
                },
            )
        } else {
            None
        }
    } else {
        None
    }
}

/// The renditions announced by the first `n` lines, in playlist order.
pub open spec fn variants_upto(
    lines: Seq<Seq<char>>,
    n: int,
    master: Seq<char>,
    groups: Seq<(Seq<char>, Seq<char>)>,
) -> Seq<HlsVariantView>
    decreases n,
{
    if n <= 0 {
        seq![]
    } else {
        let r = variants_upto(lines, n - 1, master, groups);
        match variant_at(lines, n - 1, master, groups) {
            Some(v) => r.push(v),
            None => r,
        }
    }
}

/// The renditions of a master playlist, in stable ascending bandwidth order.
pub open spec fn playlist_variants(body: Seq<char>, master: Seq<char>) -> Seq<HlsVariantView> {
    let lines = text_lines(body);
    let groups = audio_groups(lines, master);
    let vs = variants_upto(lines, lines.len() as int, master, groups);
    stable_order(vs.map_values(|v: HlsVariantView| (v.bandwidth as int, 0int)), vs.len()).map_values(
        |k: int| vs[k],
    )
}

// ---------------------------------------------------------------------------
// Executable parsing
// ---------------------------------------------------------------------------

fn strip_cr_vec(l: &Vec<char>) -> (r: Vec<char>)
    ensures
        r@ == strip_cr(l@),
{
    if l.len() > 0 && l[l.len() - 1] == '\r' {
        slice_vec(l, 0, l.len() - 1)
    } else {
        slice_vec(l, 0, l.len())
    }
}

/// The lines of a text.
fn lines_of(body: &str) -> (r: Vec<Vec<char>>)
    ensures
        r.deep_view() == text_lines(body@),
{
    let chars = char_vec(body);
    let pieces = split_chars(&chars, '\n');
    proof {
        crate::text::lemma_split_on_nonempty(body@, '\n');
    }
    let n = pieces.len();
    let ghost pv = pieces.deep_view();
    let mut r: Vec<Vec<char>> = Vec::new();
    let mut i: usize = 0;
    while i + 1 < n
        invariant
            n == pieces@.len(),
            n >= 1,
            pv == pieces.deep_view(),
            i + 1 <= n,
            r.deep_view() == pv.drop_last().take(i as int).map_values(|l: Seq<char>| strip_cr(l)),
        decreases n - i,
    {
        proof {
            crate::text::lemma_char_vec_deep_view(pieces@[i as int]);
        }
        let line = strip_cr_vec(&pieces[i]);
        let ghost before = r.deep_view();
        proof {
            crate::text::lemma_char_vec_deep_view(line);
        }
        r.push(line);
        assert(pv[i as int] == pieces@[i as int]@);
        assert(r.deep_view() =~= before.push(line@));
        assert(pv.drop_last().take(i + 1) =~= pv.drop_last().take(i as int).push(pv[i as int]));
        assert(r.deep_view() =~= pv.drop_last().take(i + 1).map_values(|l: Seq<char>| strip_cr(l)));
        i += 1;
    }
    assert(pv.drop_last().take(i as int) =~= pv.drop_last());
    proof {
        crate::text::lemma_char_vec_deep_view(pieces@[n - 1]);
    }
    if pieces[n - 1].len() > 0 {
        let last = slice_vec(&pieces[n - 1], 0, pieces[n - 1].len());
        let ghost before = r.deep_view();
        proof {
            crate::text::lemma_char_vec_deep_view(last);
            assert(last@ =~= pv.last());
        }
        r.push(last);
        assert(r.deep_view() =~= before.push(pv.last()));
    }
    r
}

proof fn lemma_strip_step(s: Seq<char>, p: Seq<char>, i: int)
    requires
        p.len() > 0,
        0 <= i,
        i + p.len() <= s.len(),
        s.subrange(i, i + p.len()) == p,
    ensures
        strip_prefixes(s.subrange(i, s.len() as int), p) == strip_prefixes(
            s.subrange(i + p.len(), s.len() as int),
            p,
        ),
{
    let t = s.subrange(i, s.len() as int);
    assert(t.subrange(0, p.len() as int) =~= p);
    assert(t.subrange(p.len() as int, t.len() as int) =~= s.subrange(i + p.len(), s.len() as int));
}

/// `s` with every leading copy of `lit` removed.
fn strip_prefixes_vec(s: &Vec<char>, lit: &str) -> (r: Vec<char>)
    ensures
        r@ == strip_prefixes(s@, lit@),
{
    let p = char_vec(lit);
    if p.len() == 0 {
        return slice_vec(s, 0, s.len());
    }
    let mut i: usize = 0;
    assert(s@.subrange(0, s@.len() as int) =~= s@);
    while i <= s.len() && p.len() <= s.len() - i && crate::text::matches_at(s, &p, i)
        invariant
            i <= s.len(),
            p@ == lit@,
            p@.len() > 0,
            strip_prefixes(s@.subrange(i as int, s@.len() as int), p@) == strip_prefixes(s@, p@),
        decreases s.len() - i,
    {
        proof {
            lemma_strip_step(s@, p@, i as int);
        }
        i += p.len();
    }
    proof {
        let t = s@.subrange(i as int, s@.len() as int);
        if is_prefix(p@, t) {
            assert(t.subrange(0, p@.len() as int) =~= s@.subrange(i as int, i + p@.len()));
        }
    }
    slice_vec(s, i, s.len())
}

fn attr_value_vec(v: &Vec<char>) -> (r: Vec<char>)
    ensures
        r@ == attr_value(v@),
{
    let t = trim_ws(v);
    trim_class(&t, &CharClass::Only('"'))
}

/// The audio group and URI of one `#EXT-X-MEDIA` attribute list.
fn parse_media_attrs(parts: &Vec<Vec<char>>) -> (r: (Option<Vec<char>>, Option<Vec<char>>))
    ensures
        (r.0.deep_view(), r.1.deep_view()) == media_attrs(parts.deep_view()),
{
    let mut g: Option<Vec<char>> = None;
    let mut u: Option<Vec<char>> = None;
    let mut i: usize = 0;
    while i < parts.len()
        invariant
            i <= parts.len(),
            (g.deep_view(), u.deep_view()) == media_attrs(parts.deep_view().take(i as int)),
        decreases parts.len() - i,
    {
        proof {
            assert(parts.deep_view().take(i + 1).drop_last() =~= parts.deep_view().take(i as int));
            crate::text::lemma_char_vec_deep_view(parts@[i as int]);
        }
        match split_first(&parts[i], '=') {
            Some((k, v)) => {
                let key = trim_ws(&k);
                if equals_lit(&key, "GROUP-ID") {
                    let val = attr_value_vec(&v);
                    proof {
                        crate::text::lemma_char_vec_deep_view(val);
                    }
                    g = Some(val);
                } else if equals_lit(&key, "URI") {
                    let val = attr_value_vec(&v);
                    proof {
                        crate::text::lemma_char_vec_deep_view(val);
                    }
                    u = Some(val);
                }
            },
            None => {},
        }
        i += 1;
    }
    assert(parts.deep_view().take(parts.len() as int) =~= parts.deep_view());
    (g, u)
}

/// Dimensions parsed from `WxH`.
fn parse_resolution_vec(r: &Vec<char>) -> (d: Option<MediaDimensions>)
    ensures
        d == parse_resolution(r@),
{
    match split_first(r, 'x') {
        Some((w, h)) => {
            let pw = parse_unsigned_chars(&w, usize::MAX as u64);
            let ph = parse_unsigned_chars(&h, usize::MAX as u64);
            match (pw, ph) {
                (Some(wv), Some(hv)) => Some(
                    MediaDimensions { width: wv as usize, height: hv as usize },
                ),
                _ => None,
            }
        },
        None => None,
    }
}

/// The attributes of a `#EXT-X-STREAM-INF` line.
fn parse_stream_attrs(parts: &Vec<Vec<char>>) -> (r: (
    u64,
    Vec<char>,
    Option<MediaDimensions>,
    Option<Vec<char>>,
))
    ensures
        ({
            let a = stream_attrs(parts.deep_view());
            &&& r.0 == a.bandwidth
            &&& r.1@ == a.resolution
            &&& r.2 == a.dimensions
            &&& r.3.deep_view() == a.audio
        }),
{
    let mut bandwidth: u64 = 0;
    let mut resolution = char_vec("Unknown");
    let mut dims: Option<MediaDimensions> = None;
    let mut audio: Option<Vec<char>> = None;
    let mut i: usize = 0;
    while i < parts.len()
        invariant
            i <= parts.len(),
            ({
                let a = stream_attrs(parts.deep_view().take(i as int));
                &&& bandwidth == a.bandwidth
                &&& resolution@ == a.resolution
                &&& dims == a.dimensions
                &&& audio.deep_view() == a.audio
            }),
        decreases parts.len() - i,
    {
        proof {
            assert(parts.deep_view().take(i + 1).drop_last() =~= parts.deep_view().take(i as int));
            crate::text::lemma_char_vec_deep_view(parts@[i as int]);
        }
        match split_first(&parts[i], '=') {
            Some((k, v)) => {
                let key = trim_ws(&k);
                let val = trim_ws(&v);
                if equals_lit(&key, "BANDWIDTH") {
                    bandwidth = match parse_unsigned_chars(&val, u64::MAX) {
                        Some(b) => b,
                        None => 0,
                    };
                } else if equals_lit(&key, "RESOLUTION") {
                    match parse_resolution_vec(&val) {
                        Some(d) => {
                            dims = Some(d);
                        },
                        None => {},
                    }
                    resolution = val;
                } else if equals_lit(&key, "AUDIO") {
                    let a = attr_value_vec(&v);
                    proof {
                        crate::text::lemma_char_vec_deep_view(a);
                    }
                    audio = Some(a);
                }
            },
            None => {},
        }
        i += 1;
    }
    assert(parts.deep_view().take(parts.len() as int) =~= parts.deep_view());
    (bandwidth, resolution, dims, audio)
}

/// Resolves a rendition link against the master playlist URL.
fn resolve_url(base_url: &str, relative_or_absolute: &str) -> (r: String)
    ensures
        r@ == resolved_url(base_url@, relative_or_absolute@),
{
    let rel = char_vec(relative_or_absolute);
    if begins(&rel, "http://") || begins(&rel, "https://") {
        return relative_or_absolute.to_owned();
    }
    let base = char_vec(base_url);
    match split_last(&base, '/') {
        Some((dir, _)) => {
            let d = string_of(&dir);
            let sep = vec!['/'];
            let slash = string_of(&sep);
            assert(sep@ =~= seq!['/']);
            concat3(d.as_str(), slash.as_str(), relative_or_absolute)
        },
        None => relative_or_absolute.to_owned(),
    }
}

/// The audio groups declared by the playlist's lines.
fn collect_audio_groups(lines: &Vec<Vec<char>>, master_url: &str) -> (g: Vec<(String, String)>)
    ensures
        g.deep_view() == audio_groups(lines.deep_view(), master_url@),
{
    let mut g: Vec<(String, String)> = Vec::new();
    let mut i: usize = 0;
    while i < lines.len()
        invariant
            i <= lines.len(),
            g.deep_view() == audio_groups(lines.deep_view().take(i as int), master_url@),
        decreases lines.len() - i,
    {
        proof {
            assert(lines.deep_view().take(i + 1).drop_last() =~= lines.deep_view().take(i as int));
            crate::text::lemma_char_vec_deep_view(lines@[i as int]);
        }
        let l = &lines[i];
        if begins(l, "#EXT-X-MEDIA:") && contains_lit(l, "TYPE=AUDIO") {
            let body = strip_prefixes_vec(l, "#EXT-X-MEDIA:");
            let parts = split_chars(&body, ',');
            let (gid, uri) = parse_media_attrs(&parts);
            match (gid, uri) {
                (Some(gv), Some(uv)) => {
                    let gs = string_of(&gv);
                    let us = string_of(&uv);
                    let resolved = resolve_url(master_url, us.as_str());
                    let ghost before = g.deep_view();
                    proof {
                        crate::text::lemma_char_vec_deep_view(gv);
                        crate::text::lemma_char_vec_deep_view(uv);
                    }
                    g.push((gs, resolved));
                    assert(g.deep_view() =~= before.push((gv@, resolved_url(master_url@, uv@))));
                },
                _ => {},
            }
        }
        i += 1;
    }
    assert(lines.deep_view().take(lines.len() as int) =~= lines.deep_view());
    g
}

/// The URI of the last declaration of a group.
fn lookup_group(groups: &Vec<(String, String)>, gid: &Vec<char>) -> (r: Option<String>)
    ensures
        r.deep_view() == group_lookup(groups.deep_view(), gid@),
{
    let g = string_of(gid);
    let mut i = groups.len();
    assert(groups.deep_view().take(groups.len() as int) =~= groups.deep_view());
    while i > 0
        invariant
            i <= groups.len(),
            g@ == gid@,
            group_lookup(groups.deep_view().take(i as int), gid@) == group_lookup(
                groups.deep_view(),
                gid@,
            ),
        decreases i,
    {
        let ghost t = groups.deep_view().take(i as int);
        assert(t.last() == groups.deep_view()[i - 1]);
        if groups[i - 1].0 == g {
            return Some(copy_string(&groups[i - 1].1));
        }
        assert(t.drop_last() =~= groups.deep_view().take(i - 1));
        i -= 1;
    }
    None
}

/// The renditions announced line by line, in playlist order.
fn collect_variants(
    lines: &Vec<Vec<char>>,
    master_url: &str,
    groups: &Vec<(String, String)>,
) -> (r: Vec<HlsVariant>)
    ensures
        r.deep_view() == variants_upto(
            lines.deep_view(),
            lines.deep_view().len() as int,
            master_url@,
            groups.deep_view(),
        ),
{
    let ghost lv = lines.deep_view();
    let ghost gv = groups.deep_view();
    let mut r: Vec<HlsVariant> = Vec::new();
    let mut i: usize = 0;
    while i < lines.len()
        invariant
            i <= lines.len(),
            lv == lines.deep_view(),
            gv == groups.deep_view(),
            r.deep_view() == variants_upto(lv, i as int, master_url@, gv),
        decreases lines.len() - i,
    {
        proof {
            crate::text::lemma_char_vec_deep_view(lines@[i as int]);
        }
        let l = &lines[i];
        if begins(l, "#EXT-X-STREAM-INF:") && i + 1 < lines.len() {
            let body = strip_prefixes_vec(l, "#EXT-X-STREAM-INF:");
            let parts = split_chars(&body, ',');
            let (bandwidth, resolution, dims, audio) = parse_stream_attrs(&parts);
            proof {
                crate::text::lemma_char_vec_deep_view(lines@[i + 1]);
            }
            let path = trim_ws(&lines[i + 1]);
            if path.len() > 0 && path[0] != '#' {
                proof {
                    if is_prefix(seq!['#'], path@) {
                        assert(path@.subrange(0, 1)[0] == '#');
                    }
                }
                let path_s = string_of(&path);
                let video_url = resolve_url(master_url, path_s.as_str());
                let audio_url = match &audio {
                    Some(gid) => {
                        proof {
                            crate::text::lemma_char_vec_deep_view(*gid);
                        }
                        lookup_group(groups, gid)
                    },
                    None => None,
                };
                let v = HlsVariant {
                    resolution: string_of(&resolution),
                    dimensions: dims,
                    bandwidth,
                    video_url,
                    audio_url,
                };
                let ghost before = r.deep_view();
                r.push(v);
                assert(lv[i as int] == l@);
                assert(lv[i + 1] == lines@[i + 1]@);
                assert(variant_at(lv, i as int, master_url@, gv) == Some(v@));
                assert(r.deep_view() =~= before.push(v@));
            } else {
                proof {
                    assert(lv[i as int] == l@);
                    assert(lv[i + 1] == lines@[i + 1]@);
                    if path@.len() > 0 {
                        assert(path@.subrange(0, 1) =~= seq!['#']);
                    }
                }
            }
        } else {
            assert(lv[i as int] == l@);
        }
        i += 1;
    }
    r
}

/// The bandwidth keys of renditions.
fn bandwidth_keys(vs: &Vec<HlsVariant>) -> (keys: Vec<(u128, u128)>)
    ensures
        int_keys(keys@) == vs.deep_view().map_values(|v: HlsVariantView| (v.bandwidth as int, 0int)),
        keys@.len() == vs@.len(),
{
    let mut keys: Vec<(u128, u128)> = Vec::new();
    let mut i: usize = 0;
    while i < vs.len()
        invariant
            i <= vs.len(),
            keys@.len() == i,
            forall|k: int|
                0 <= k < i ==> (#[trigger] keys@[k]).0 as int == vs@[k].bandwidth as int
                    && keys@[k].1 == 0,
        decreases vs.len() - i,
    {
        keys.push((vs[i].bandwidth as u128, 0));
        i += 1;
    }
    assert(int_keys(keys@) =~= vs.deep_view().map_values(
        |v: HlsVariantView| (v.bandwidth as int, 0int),
    ));
    keys
}

/// Parses the renditions of a master playlist: each `#EXT-X-STREAM-INF`
/// header followed by a stream path gives one rendition, linked to its
/// `#EXT-X-MEDIA` audio group; the result is in ascending bandwidth.
pub fn parse_m3u8_variants(playlist_body: &str, master_url: &str) -> (r: Vec<HlsVariant>)
    ensures
        r.deep_view() == playlist_variants(playlist_body@, master_url@),
{
    let lines = lines_of(playlist_body);
    let groups = collect_audio_groups(&lines, master_url);
    let vs = collect_variants(&lines, master_url, &groups);
    let keys = bandwidth_keys(&vs);
    let order = stable_sorted_indices(&keys);
    let mut r: Vec<HlsVariant> = Vec::new();
    let mut i: usize = 0;
    while i < order.len()
        invariant
            i <= order@.len(),
            order@.len() == vs@.len(),
            forall|k: int| 0 <= k < order@.len() ==> order@[k] < vs@.len(),
            r@.len() == i,
            forall|k: int| 0 <= k < i ==> #[trigger] r@[k]@ == vs@[order@[k] as int]@,
        decreases order@.len() - i,
    {
        r.push(vs[order[i]].duplicate());
        i += 1;
    }
    proof {
        let vv = vs.deep_view();
        let so = stable_order(vv.map_values(|v: HlsVariantView| (v.bandwidth as int, 0int)), vv.len());
        assert(so =~= crate::order::int_indices(order@));
        assert(r.deep_view() =~= so.map_values(|k: int| vv[k]));
    }
    r
}

/// The master playlist URLs tried for a detected stream, in order: the
/// conventional `playlist.m3u8` and `master.m3u8` beside it, the directory
/// itself as a manifest, then the detected URL.
pub open spec fn master_candidates(detected: Seq<char>) -> Seq<Seq<char>> {
    match rsplit_once(detected, '/') {
        Some(pr) => seq![
            pr.0 + "/playlist.m3u8"@,
            pr.0 + "/master.m3u8"@,
            pr.0 + ".m3u8"@,
            detected,
        ],
        None => seq![detected],
    }
}

/// The master playlist URLs to try for a detected stream.
pub fn candidate_master_urls(detected_url: &str) -> (r: Vec<String>)
    ensures
        r.deep_view() == master_candidates(detected_url@),
{
    let v = char_vec(detected_url);
    let mut r: Vec<String> = Vec::new();
    match split_last(&v, '/') {
        Some((base, _)) => {
            let b = string_of(&base);
            r.push(crate::text::concat(b.as_str(), "/playlist.m3u8"));
            r.push(crate::text::concat(b.as_str(), "/master.m3u8"));
            r.push(crate::text::concat(b.as_str(), ".m3u8"));
            r.push(detected_url.to_owned());
        },
        None => {
            r.push(detected_url.to_owned());
        },
    }
    assert(r.deep_view() =~= master_candidates(detected_url@));
    r
}

/// The renditions offered by a fetched playlist body: present only when the
/// body is a master playlist announcing at least one rendition.
pub open spec fn offered_variants(body: Seq<char>, master: Seq<char>) -> Option<Seq<HlsVariantView>> {
    if has_sub(body, "#EXT-X-STREAM-INF"@) && playlist_variants(body, master).len() > 0 {
        Some(playlist_variants(body, master))
    } else {
        None
    }
}

/// The renditions offered by a fetched playlist body, if any.
pub fn variants_from_playlist(body: &str, master_url: &str) -> (r: Option<Vec<HlsVariant>>)
    ensures
        r matches Some(v) ==> offered_variants(body@, master_url@) == Some(v.deep_view()),
        r is None ==> offered_variants(body@, master_url@) is None,
{
    let b = char_vec(body);
    if contains_lit(&b, "#EXT-X-STREAM-INF") {
        let vs = parse_m3u8_variants(body, master_url);
        if vs.len() > 0 {
            return Some(vs);
        }
    }
    None
}

/// The single rendition assumed when no master playlist answers: the
/// detected URL itself, labelled "Source".
pub fn source_variant(detected_url: &str) -> (v: HlsVariant)
    ensures
        v@ == (HlsVariantView {
            resolution: "Source"@,
            dimensions: None,
            bandwidth: 0,
            video_url: detected_url@,
            audio_url: None,
        }),
{
    HlsVariant {
        resolution: "Source".to_owned(),
        dimensions: None,
        bandwidth: 0,
        video_url: detected_url.to_owned(),
        audio_url: None,
    }
}

/// The renditions of a master playlist come in ascending bandwidth: the
/// last one has the highest bandwidth.
pub proof fn lemma_renditions_ascending(body: Seq<char>, master: Seq<char>)
    ensures
        forall|a: int, b: int|
            0 <= a < b < playlist_variants(body, master).len() ==> (#[trigger] playlist_variants(
                body,
                master,
            )[a]).bandwidth <= (#[trigger] playlist_variants(body, master)[b]).bandwidth,
{
    let lines = text_lines(body);
    let groups = audio_groups(lines, master);
    let vs = variants_upto(lines, lines.len() as int, master, groups);
    let keys = vs.map_values(|v: HlsVariantView| (v.bandwidth as int, 0int));
    lemma_stable_order(keys, vs.len());
    let so = stable_order(keys, vs.len());
    let pv = playlist_variants(body, master);
    assert(pv == so.map_values(|k: int| vs[k]));
    assert forall|a: int, b: int| 0 <= a < b < pv.len() implies (#[trigger] pv[a]).bandwidth <= (
    #[trigger] pv[b]).bandwidth by {
        assert(key_le(keys[so[a]], keys[so[b]]));
        assert(pv[a] == vs[so[a]]);
        assert(pv[b] == vs[so[b]]);
    }
}


/// Rendition and audio links are resolved against the master playlist so
/// that an absolute link (`http://` or `https://`) is kept exactly as
/// written, whatever the master's URL, and any resolved link ends with the
/// link as written: a relative link only gains a directory in front.
pub proof fn lemma_absolute_links_kept(master: Seq<char>, link: Seq<char>)
    ensures
        is_prefix("http://"@, link) ==> resolved_url(master, link) == link,
        is_prefix("https://"@, link) ==> resolved_url(master, link) == link,
        crate::text::is_suffix(link, resolved_url(master, link)),
        resolved_url(master, link).len() >= link.len(),
{
    let r = resolved_url(master, link);
    assert(r.subrange(r.len() - link.len(), r.len() as int) =~= link);
}

} // verus!
