//! Tagging downloaded files with their post's metadata (EXIF for images,
//! container tags through ffmpeg for videos), choosing how a raw asset is
//! fetched, and naming downloads.
use vstd::prelude::*;

use crate::models::MediaType;
use crate::paths::{file_extension, path_extension};
use crate::text::{
    before_first, char_vec, concat, concat3, contains_lit, decimal, decimal_string, equals_lit,
    has_sub, join_with, lowercase, prefix_before, replace_all, replace_lit, string_of, to_lower,
};

verus! {

/// The metadata written into a downloaded file.
#[derive(Debug, Clone, Default)]
pub struct MediaMetadataPayload<'a> {
    pub author: Option<&'a str>,
    pub caption: Option<&'a str>,
    pub source_url: Option<&'a str>,
    pub tags: &'a [String],
    pub published_at: Option<&'a str>,
}

/// How a file is tagged.
#[derive(Debug, Clone, Copy, PartialEq, Eq, Structural)]
pub enum MetadataTarget {
    /// EXIF tags written into an image.
    ImageExif,
    /// Container tags written by ffmpeg into a video.
    VideoContainer,
    /// A format that is left as it is.
    Untouched,
}

/// The target for a lowercase extension: `jpg`, `jpeg`, `png` and `webp`
/// images; `mp4`, `mov` and `m4v` videos; nothing else.
pub open spec fn target_for_ext(ext: Seq<char>) -> MetadataTarget {
    if ext == "jpg"@ || ext == "jpeg"@ || ext == "png"@ || ext == "webp"@ {
        MetadataTarget::ImageExif
    } else if ext == "mp4"@ || ext == "mov"@ || ext == "m4v"@ {
        MetadataTarget::VideoContainer
    } else {
        MetadataTarget::Untouched
    }
}

/// The target of a file by its extension, in lowercase (an empty one when
/// it has none).
pub open spec fn metadata_target_of(path: Seq<char>) -> MetadataTarget {
    target_for_ext(
        lowercase(
            match path_extension(path) {
                Some(e) => e,
                None => seq![],
            },
        ),
    )
}

/// How a downloaded file is tagged.
pub fn metadata_target(path: &str) -> (r: MetadataTarget)
    ensures
        r == metadata_target_of(path@),
{
    let ext = match file_extension(path) {
        Some(e) => e,
        None => String::new(),
    };
    let low = to_lower(ext.as_str());
    let v = char_vec(low.as_str());
    if equals_lit(&v, "jpg") || equals_lit(&v, "jpeg") || equals_lit(&v, "png") || equals_lit(&v, "webp") {
        MetadataTarget::ImageExif
    } else if equals_lit(&v, "mp4") || equals_lit(&v, "mov") || equals_lit(&v, "m4v") {
        MetadataTarget::VideoContainer
    } else {
        MetadataTarget::Untouched
    }
}

/// A publication time in the EXIF form `YYYY:MM:DD HH:MM:SS`: dashes become
/// colons, `T` a space, `Z` is dropped, and fractions of a second are cut.
pub open spec fn exif_date(published: Seq<char>) -> Seq<char> {
    before_first(replace_all(replace_all(replace_all(published, "-"@, ":"@), "T"@, " "@), "Z"@, ""@), '.')
}

/// Computes `exif_date`.
pub fn exif_date_of(published: &str) -> (r: String)
    ensures
        r@ == exif_date(published@),
{
    proof {
        reveal_strlit("-");
        reveal_strlit("T");
        reveal_strlit("Z");
    }
    let v = char_vec(published);
    let a = replace_lit(&v, "-", ":");
    let b = replace_lit(&a, "T", " ");
    let c = replace_lit(&b, "Z", "");
    string_of(&prefix_before(&c, '.'))
}

/// The tags as one line, comma separated.
pub open spec fn tag_line(tags: Seq<Seq<char>>) -> Seq<char> {
    join_with(tags, ", "@)
}

/// Computes `tag_line`.
pub fn tag_line_of(tags: &[String]) -> (r: String)
    ensures
        r@ == tag_line(tags@.map_values(|t: String| t@)),
{
    let ghost tv = tags@.map_values(|t: String| t@);
    let mut parts: Vec<Vec<char>> = Vec::new();
    let mut i: usize = 0;
    while i < tags.len()
        invariant
            i <= tags@.len(),
            tv == tags@.map_values(|t: String| t@),
            parts.deep_view() == tv.take(i as int),
        decreases tags.len() - i,
    {
        let ghost before = parts.deep_view();
        let p = char_vec(tags[i].as_str());
        proof {
            crate::text::lemma_char_vec_deep_view(p);
        }
        parts.push(p);
        assert(parts.deep_view() =~= before.push(tv[i as int]));
        assert(tv.take(i + 1) =~= tv.take(i as int).push(tv[i as int]));
        i += 1;
    }
    assert(tv.take(tv.len() as int) =~= tv);
    let sep = char_vec(", ");
    string_of(&crate::text::join_chars(&parts, &sep))
}

/// A `-metadata` flag pair.
pub open spec fn meta_flag(key: Seq<char>, value: Seq<char>) -> Seq<Seq<char>> {
    seq!["-metadata"@, key + "="@ + value]
}

/// The ffmpeg `-metadata` flags for a video: artist and author, then
/// title, description and comment from the caption, synopsis from the
/// source URL, keywords and genre from the tags (when there are any), and
/// the creation time.
pub open spec fn video_metadata_flags(
    author: Option<Seq<char>>,
    caption: Option<Seq<char>>,
    source_url: Option<Seq<char>>,
    tags: Seq<Seq<char>>,
    published: Option<Seq<char>>,
) -> Seq<Seq<char>> {
    let a = match author {
        Some(x) => meta_flag("artist"@, x) + meta_flag("author"@, x),
        None => seq![],
    };
    let c = match caption {
        Some(x) => meta_flag("title"@, x) + meta_flag("description"@, x) + meta_flag("comment"@, x),
        None => seq![],
    };
    let u = match source_url {
        Some(x) => meta_flag("synopsis"@, x),
        None => seq![],
    };
    let t = if tags.len() > 0 {
        meta_flag("keywords"@, tag_line(tags)) + meta_flag("genre"@, tag_line(tags))
    } else {
        seq![]
    };
    let p = match published {
        Some(x) => meta_flag("creation_time"@, x),
        None => seq![],
    };
    a + c + u + t + p
}

/// An optional borrowed text seen as plain values.
pub open spec fn opt_text(s: Option<&str>) -> Option<Seq<char>> {
    match s {
        Some(x) => Some(x@),
        None => None,
    }
}

/// The full ffmpeg argument list that copies `path` into `temp_out` with
/// the metadata flags.
pub open spec fn tagging_args(path: Seq<char>, temp_out: Seq<char>, flags: Seq<Seq<char>>) -> Seq<Seq<char>> {
    seq!["-y"@, "-i"@, path] + flags + seq!["-c"@, "copy"@, "-movflags"@, "+faststart"@, temp_out]
}

/// Appends a `-metadata` flag pair.
fn push_flag(args: &mut Vec<String>, key: &str, value: &str)
    ensures
        final(args).deep_view() == old(args).deep_view() + meta_flag(key@, value@),
{
    let ghost before = args.deep_view();
    args.push("-metadata".to_owned());
    args.push(concat3(key, "=", value));
    assert(args.deep_view() =~= before + meta_flag(key@, value@));
}

/// Appends a plain argument.
fn push_arg(args: &mut Vec<String>, a: &str)
    ensures
        final(args).deep_view() == old(args).deep_view().push(a@),
{
    let ghost before = args.deep_view();
    args.push(a.to_owned());
    assert(args.deep_view() =~= before.push(a@));
}

/// Appends strings to a list.
fn append_all(args: &mut Vec<String>, more: Vec<String>)
    ensures
        final(args).deep_view() == old(args).deep_view() + more.deep_view(),
{
    let ghost start = args.deep_view();
    let ghost mv = more.deep_view();
    let mut i: usize = 0;
    while i < more.len()
        invariant
            i <= more@.len(),
            mv == more.deep_view(),
            args.deep_view() == start + mv.take(i as int),
        decreases more.len() - i,
    {
        let ghost before = args.deep_view();
        args.push(crate::text::copy_string(&more[i]));
        assert(args.deep_view() =~= before.push(mv[i as int]));
        assert(mv.take(i + 1) =~= mv.take(i as int).push(mv[i as int]));
        i += 1;
    }
    assert(mv.take(mv.len() as int) =~= mv);
}

/// The flags of an optional value under the given keys.
fn optional_flags(value: Option<&str>, k1: &str, k2: Option<&str>, k3: Option<&str>) -> (r: Vec<String>)
    ensures
        r.deep_view() == match value {
            Some(x) => meta_flag(k1@, x@) + (match k2 {
                Some(k) => meta_flag(k@, x@),
                None => Seq::<Seq<char>>::empty(),
            }) + (match k3 {
                Some(k) => meta_flag(k@, x@),
                None => Seq::<Seq<char>>::empty(),
            }),
            None => Seq::<Seq<char>>::empty(),
        },
{
    let mut out: Vec<String> = Vec::new();
    assert(out.deep_view() =~= Seq::<Seq<char>>::empty());
    match value {
        Some(x) => {
            push_flag(&mut out, k1, x);
            let ghost one = out.deep_view();
            match k2 {
                Some(k) => push_flag(&mut out, k, x),
                None => {},
            }
            let ghost two = out.deep_view();
            match k3 {
                Some(k) => push_flag(&mut out, k, x),
                None => {},
            }
            proof {
                assert(one =~= meta_flag(k1@, x@));
                match k2 {
                    Some(k) => assert(two =~= one + meta_flag(k@, x@)),
                    None => assert(two =~= one + Seq::<Seq<char>>::empty()),
                }
                match k3 {
                    Some(k) => assert(out.deep_view() =~= two + meta_flag(k@, x@)),
                    None => assert(out.deep_view() =~= two + Seq::<Seq<char>>::empty()),
                }
            }
        },
        None => {},
    }
    out
}

/// The `-metadata` flags of a payload.
pub fn video_metadata_flags_of(meta: &MediaMetadataPayload) -> (r: Vec<String>)
    ensures
        r.deep_view() == video_metadata_flags(
            opt_text(meta.author),
            opt_text(meta.caption),
            opt_text(meta.source_url),
            meta.tags@.map_values(|t: String| t@),
            opt_text(meta.published_at),
        ),
{
    let a = optional_flags(meta.author, "artist", Some("author"), None);
    let c = optional_flags(meta.caption, "title", Some("description"), Some("comment"));
    let u = optional_flags(meta.source_url, "synopsis", None, None);
    let t = if meta.tags.len() > 0 {
        let line = tag_line_of(meta.tags);
        optional_flags(Some(line.as_str()), "keywords", Some("genre"), None)
    } else {
        optional_flags(None, "keywords", None, None)
    };
    let p = optional_flags(meta.published_at, "creation_time", None, None);
    let ghost av = a.deep_view();
    let ghost cv = c.deep_view();
    let ghost uv = u.deep_view();
    let ghost tv = t.deep_view();
    let ghost pv = p.deep_view();
    let mut out: Vec<String> = Vec::new();
    assert(out.deep_view() =~= Seq::<Seq<char>>::empty());
    append_all(&mut out, a);
    append_all(&mut out, c);
    append_all(&mut out, u);
    append_all(&mut out, t);
    append_all(&mut out, p);
    proof {
        assert(Seq::<Seq<char>>::empty() + av =~= av);
        match meta.author {
            Some(x) => assert(av =~= meta_flag("artist"@, x@) + meta_flag("author"@, x@)),
            None => {},
        }
        match meta.source_url {
            Some(x) => assert(uv =~= meta_flag("synopsis"@, x@)),
            None => {},
        }
        match meta.published_at {
            Some(x) => assert(pv =~= meta_flag("creation_time"@, x@)),
            None => {},
        }
        if meta.tags.len() > 0 {
            let line = tag_line(meta.tags@.map_values(|t: String| t@));
            assert(tv =~= meta_flag("keywords"@, line) + meta_flag("genre"@, line));
        }
    }
    out
}

/// The ffmpeg arguments that tag a video file.
pub fn video_tagging_args(path: &str, temp_out: &str, meta: &MediaMetadataPayload) -> (r: Vec<String>)
    ensures
        r.deep_view() == tagging_args(
            path@,
            temp_out@,
            video_metadata_flags(
                opt_text(meta.author),
                opt_text(meta.caption),
                opt_text(meta.source_url),
                meta.tags@.map_values(|t: String| t@),
                opt_text(meta.published_at),
            ),
        ),
{
    let mut args: Vec<String> = Vec::new();
    push_arg(&mut args, "-y");
    push_arg(&mut args, "-i");
    push_arg(&mut args, path);
    let ghost head = args.deep_view();
    let flags = video_metadata_flags_of(meta);
    let ghost fv = flags.deep_view();
    append_all(&mut args, flags);
    let ghost mid = args.deep_view();
    push_arg(&mut args, "-c");
    push_arg(&mut args, "copy");
    push_arg(&mut args, "-movflags");
    push_arg(&mut args, "+faststart");
    push_arg(&mut args, temp_out);
    proof {
        assert(head =~= seq!["-y"@, "-i"@, path@]);
        assert(args.deep_view() =~= tagging_args(path@, temp_out@, fv));
    }
    args
}

// ---------------------------------------------------------------------------
// Fetching raw assets
// ---------------------------------------------------------------------------

/// How a raw asset is fetched.
#[derive(Debug)]
pub enum AssetFetch {
    /// Remuxed by ffmpeg with the first audio track that works among these.
    RemuxWithAudio(Vec<String>),
    /// An HLS master remuxed by ffmpeg.
    RemuxHls,
    /// Fetched as it is.
    Direct,
}

/// The audio tracks to try beside a video, in order: the one given, then
/// its other names and bitrates (`CMAF_` tracks first try the CMAF names,
/// others the DASH names, each ending with the other scheme's 128k track).
pub open spec fn audio_candidates(initial: Seq<char>) -> Seq<Seq<char>> {
    if has_sub(initial, "CMAF_"@) {
        seq![
            initial,
            replace_all(initial, "CMAF_AUDIO_128.mp4"@, "CMAF_audio.mp4"@),
            replace_all(initial, "CMAF_AUDIO_128.mp4"@, "CMAF_AUDIO_64.mp4"@),
            replace_all(initial, "CMAF_AUDIO_128.mp4"@, "DASH_AUDIO_128.mp4"@),
        ]
    } else {
        seq![
            initial,
            replace_all(initial, "DASH_AUDIO_128.mp4"@, "DASH_audio.mp4"@),
            replace_all(initial, "DASH_AUDIO_128.mp4"@, "DASH_AUDIO_64.mp4"@),
            replace_all(initial, "DASH_AUDIO_128.mp4"@, "CMAF_AUDIO_128.mp4"@),
        ]
    }
}

/// An asset fetch seen as plain values.
pub enum AssetFetchView {
    RemuxWithAudio(Seq<Seq<char>>),
    RemuxHls,
    Direct,
}

impl View for AssetFetch {
    type V = AssetFetchView;

    open spec fn view(&self) -> AssetFetchView {
        match self {
            AssetFetch::RemuxWithAudio(c) => AssetFetchView::RemuxWithAudio(c.deep_view()),
            AssetFetch::RemuxHls => AssetFetchView::RemuxHls,
            AssetFetch::Direct => AssetFetchView::Direct,
        }
    }
}

/// How a raw asset is fetched: a video with an audio track, or whose link
/// is an HLS manifest, is remuxed (with the audio candidates when there is
/// a track); anything else is fetched directly.
pub open spec fn asset_fetch(url: Seq<char>, audio: Option<Seq<char>>, media_type: Seq<char>) -> AssetFetchView {
    if media_type == "video"@ && (audio is Some || has_sub(url, ".m3u8"@)) {
        match audio {
            Some(a) => AssetFetchView::RemuxWithAudio(audio_candidates(a)),
            None => AssetFetchView::RemuxHls,
        }
    } else {
        AssetFetchView::Direct
    }
}

/// Replaces every occurrence of a literal in a string.
fn replaced(s: &str, from: &str, to: &str) -> (r: String)
    requires
        from@.len() > 0,
    ensures
        r@ == replace_all(s@, from@, to@),
{
    let v = char_vec(s);
    string_of(&replace_lit(&v, from, to))
}

/// How a raw asset is fetched.
pub fn asset_fetch_plan(high_res_url: &str, audio_url: Option<&str>, media_type: &str) -> (r: AssetFetch)
    ensures
        r@ == asset_fetch(high_res_url@, opt_text(audio_url), media_type@),
{
    let mt = char_vec(media_type);
    let uv = char_vec(high_res_url);
    if equals_lit(&mt, "video") && (audio_url.is_some() || contains_lit(&uv, ".m3u8")) {
        match audio_url {
            Some(a) => {
                proof {
                    reveal_strlit("CMAF_AUDIO_128.mp4");
                    reveal_strlit("DASH_AUDIO_128.mp4");
                }
                let av = char_vec(a);
                let mut c: Vec<String> = Vec::new();
                c.push(a.to_owned());
                if contains_lit(&av, "CMAF_") {
                    c.push(replaced(a, "CMAF_AUDIO_128.mp4", "CMAF_audio.mp4"));
                    c.push(replaced(a, "CMAF_AUDIO_128.mp4", "CMAF_AUDIO_64.mp4"));
                    c.push(replaced(a, "CMAF_AUDIO_128.mp4", "DASH_AUDIO_128.mp4"));
                } else {
                    c.push(replaced(a, "DASH_AUDIO_128.mp4", "DASH_audio.mp4"));
                    c.push(replaced(a, "DASH_AUDIO_128.mp4", "DASH_AUDIO_64.mp4"));
                    c.push(replaced(a, "DASH_AUDIO_128.mp4", "CMAF_AUDIO_128.mp4"));
                }
                assert(c.deep_view() =~= audio_candidates(a@));
                AssetFetch::RemuxWithAudio(c)
            },
            None => AssetFetch::RemuxHls,
        }
    } else {
        AssetFetch::Direct
    }
}

// ---------------------------------------------------------------------------
// Naming downloads
// ---------------------------------------------------------------------------

/// The extension a download gets: `mp4` for a video; for an image `png`,
/// `webp` or `gif` when its URL mentions that extension, `jpg` otherwise.
pub open spec fn download_ext(kind: MediaType, url: Seq<char>) -> Seq<char> {
    match kind {
        MediaType::Video => "mp4"@,
        MediaType::Image => if has_sub(url, ".png"@) {
            "png"@
        } else if has_sub(url, ".webp"@) {
            "webp"@
        } else if has_sub(url, ".gif"@) {
            "gif"@
        } else {
            "jpg"@
        },
    }
}

/// The file name of the download at position `index` (counted from 0) of
/// a post: `{platform}_{author}_{index + 1}.{ext}`.
pub open spec fn download_name(platform: Seq<char>, author: Seq<char>, index: nat, kind: MediaType, url: Seq<char>) -> Seq<char> {
    platform + "_"@ + author + "_"@ + decimal(index + 1) + "."@ + download_ext(kind, url)
}

/// Names a download.
pub fn download_file_name(platform: &str, author: &str, index: u64, kind: MediaType, url: &str) -> (r: String)
    requires
        index < u64::MAX,
    ensures
        r@ == download_name(platform@, author@, index as nat, kind, url@),
{
    let uv = char_vec(url);
    let ext = match kind {
        MediaType::Video => "mp4",
        MediaType::Image => if contains_lit(&uv, ".png") {
            "png"
        } else if contains_lit(&uv, ".webp") {
            "webp"
        } else if contains_lit(&uv, ".gif") {
            "gif"
        } else {
            "jpg"
        },
    };
    let n = decimal_string(index + 1);
    let a = concat3(platform, "_", author);
    let b = concat3(a.as_str(), "_", n.as_str());
    concat3(b.as_str(), ".", ext)
}

} // verus!
