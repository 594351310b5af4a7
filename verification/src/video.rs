//! Routing of uploaded files between the image and the video pipelines, and
//! the names of the derivatives that each pipeline writes.
use vstd::prelude::*;

use crate::json::{json_get, opt_str, JsonValue};
use crate::text::{char_vec, concat, concat3, copy_opt, equals_lit, lowercase, parse_signed, string_of, to_lower};

verus! {

/// The image/video routing and derivative naming rules.
pub struct VideoProcessor;

/// Stream side data reported by the prober.
#[derive(Debug, Default)]
pub struct VideoStreamSideData {
    pub rotation: Option<i64>,
}

/// One stream of a prober report.
#[derive(Debug)]
pub struct VideoStreamInfo {
    pub width: Option<i64>,
    pub height: Option<i64>,
    pub side_data_list: Option<Vec<VideoStreamSideData>>,
    pub tags: Option<JsonValue>,
}

/// The container section of a prober report.
#[derive(Debug)]
pub struct VideoProbeFormat {
    /// The duration in seconds, as the prober writes it.
    pub duration: Option<String>,
    pub tags: Option<JsonValue>,
}

/// A prober report (`ffprobe -show_format -show_streams` as JSON).
#[derive(Debug)]
pub struct ProbeOutput {
    pub streams: Option<Vec<VideoStreamInfo>>,
    pub format: Option<VideoProbeFormat>,
}

/// What a prober report tells of a video: its displayed size, its duration
/// as written, its capture time and camera.
#[derive(Debug)]
pub struct ProbeSummary {
    pub width: i64,
    pub height: i64,
    pub duration: Option<String>,
    pub captured_at: Option<String>,
    pub camera_make: Option<String>,
    pub camera_model: Option<String>,
}

/// The first stream that reports both a width and a height.
pub open spec fn first_sized(ss: Seq<VideoStreamInfo>) -> Option<VideoStreamInfo>
    decreases ss.len(),
{
    if ss.len() == 0 {
        None
    } else if ss[0].width is Some && ss[0].height is Some {
        Some(ss[0])
    } else {
        first_sized(ss.drop_first())
    }
}

/// The first rotation reported in side data.
pub open spec fn first_rotation(sd: Seq<VideoStreamSideData>) -> Option<i64>
    decreases sd.len(),
{
    if sd.len() == 0 {
        None
    } else if sd[0].rotation is Some {
        sd[0].rotation
    } else {
        first_rotation(sd.drop_first())
    }
}

/// The `rotate` tag of a stream as an integer (0 when absent or not one).
pub open spec fn tag_rotation(tags: Option<JsonValue>) -> int {
    match tags {
        Some(t) => match opt_str(json_get(t, "rotate"@)) {
            Some(x) => match parse_signed(x, i64::MIN as int, i64::MAX as int) {
                Some(v) => v,
                None => 0,
            },
            None => 0,
        },
        None => 0,
    }
}

/// The rotation of a stream: from its side data, else (when that gives
/// nothing or zero) from its `rotate` tag.
pub open spec fn stream_rotation(s: VideoStreamInfo) -> int {
    let side: int = match s.side_data_list {
        Some(l) => match first_rotation(l@) {
            Some(r) => r as int,
            None => 0,
        },
        None => 0,
    };
    if side == 0 {
        tag_rotation(s.tags)
    } else {
        side
    }
}

/// A rotation by a quarter turn either way, which swaps width and height.
pub open spec fn quarter_turn(r: int) -> bool {
    r == 90 || r == -90 || r == 270 || r == -270
}

/// The displayed size of a report: the first sized stream's width and
/// height, swapped for a quarter turn; zero when no stream is sized.
pub open spec fn probed_size(p: ProbeOutput) -> (int, int) {
    match p.streams {
        Some(ss) => match first_sized(ss@) {
            Some(s) => {
                let w = s.width.unwrap() as int;
                let h = s.height.unwrap() as int;
                if quarter_turn(stream_rotation(s)) {
                    (h, w)
                } else {
                    (w, h)
                }
            },
            None => (0, 0),
        },
        None => (0, 0),
    }
}

/// A string tag of the container.
pub open spec fn format_tag(p: ProbeOutput, key: Seq<char>) -> Option<Seq<char>> {
    match p.format {
        Some(f) => match f.tags {
            Some(t) => opt_str(json_get(t, key)),
            None => None,
        },
        None => None,
    }
}

/// The capture time of a report: the container's `creation_time` tag, or
/// when there is none its QuickTime creation date, when it is a string.
pub open spec fn probed_capture(p: ProbeOutput) -> Option<Seq<char>> {
    match p.format {
        Some(f) => match f.tags {
            Some(t) => opt_str(
                match json_get(t, "creation_time"@) {
                    Some(v) => Some(v),
                    None => json_get(t, "com.apple.quicktime.creationdate"@),
                },
            ),
            None => None,
        },
        None => None,
    }
}

/// The duration text of a report.
pub open spec fn probed_duration(p: ProbeOutput) -> Option<Seq<char>> {
    match p.format {
        Some(f) => f.duration.deep_view(),
        None => None,
    }
}

/// The three derivatives of a video: a still poster, a short silent motion
/// loop and a streamable preview, as paths relative to the thumbnail root.
#[derive(Debug, Clone)]
pub struct VideoDerivatives {
    pub thumb_rel: String,
    pub motion_rel: String,
    pub preview_rel: String,
}

/// The lowercased extension is one that the video pipeline handles
/// (animated GIFs included).
pub open spec fn video_or_anim_ext(ext: Seq<char>) -> bool {
    let l = lowercase(ext);
    ||| l == "mp4"@
    ||| l == "mov"@
    ||| l == "m4v"@
    ||| l == "webm"@
    ||| l == "mkv"@
    ||| l == "avi"@
    ||| l == "gif"@
}

/// The MIME type recorded for an image of this (lowercase) extension.
pub open spec fn image_mime_for_ext(ext: Seq<char>) -> Seq<char> {
    if ext == "heic"@ || ext == "heif"@ {
        "image/heic"@
    } else if ext == "png"@ {
        "image/png"@
    } else if ext == "webp"@ {
        "image/webp"@
    } else {
        "image/jpeg"@
    }
}

/// The MIME type recorded for a video of this (lowercase) extension.
pub open spec fn video_mime_for_ext(ext: Seq<char>) -> Seq<char> {
    if ext == "gif"@ {
        "image/gif"@
    } else if ext == "mov"@ {
        "video/quicktime"@
    } else if ext == "webm"@ {
        "video/webm"@
    } else {
        "video/mp4"@
    }
}

/// The derivative paths of an asset within its shard directory.
pub open spec fn derivative_paths(asset_id: Seq<char>, shard: Seq<char>) -> (Seq<char>, Seq<char>, Seq<char>) {
    (
        shard + seq!['/'] + asset_id + "_thumb.webp"@,
        shard + seq!['/'] + asset_id + "_motion.mp4"@,
        shard + seq!['/'] + asset_id + "_preview.mp4"@,
    )
}

impl VideoProcessor {
    /// Whether a file of this extension goes through the video pipeline.
    pub fn is_video_or_anim(ext: &str) -> (r: bool)
        ensures
            r == video_or_anim_ext(ext@),
    {
        let lower = to_lower(ext);
        let l = char_vec(lower.as_str());
        equals_lit(&l, "mp4") || equals_lit(&l, "mov") || equals_lit(&l, "m4v") || equals_lit(
            &l,
            "webm",
        ) || equals_lit(&l, "mkv") || equals_lit(&l, "avi") || equals_lit(&l, "gif")
    }

    /// The MIME type recorded for an image of this (lowercase) extension.
    pub fn image_mime(ext: &str) -> (r: &'static str)
        ensures
            r@ == image_mime_for_ext(ext@),
    {
        let e = char_vec(ext);
        if equals_lit(&e, "heic") || equals_lit(&e, "heif") {
            "image/heic"
        } else if equals_lit(&e, "png") {
            "image/png"
        } else if equals_lit(&e, "webp") {
            "image/webp"
        } else {
            "image/jpeg"
        }
    }

    /// The MIME type recorded for a video of this (lowercase) extension.
    pub fn video_mime(ext: &str) -> (r: &'static str)
        ensures
            r@ == video_mime_for_ext(ext@),
    {
        let e = char_vec(ext);
        if equals_lit(&e, "gif") {
            "image/gif"
        } else if equals_lit(&e, "mov") {
            "video/quicktime"
        } else if equals_lit(&e, "webm") {
            "video/webm"
        } else {
            "video/mp4"
        }
    }

    /// The relative paths of the poster, motion loop and preview of an
    /// asset stored in the given shard.
    pub fn derivative_names(asset_id: &str, shard: &str) -> (d: VideoDerivatives)
        ensures
            (d.thumb_rel@, d.motion_rel@, d.preview_rel@) == derivative_paths(asset_id@, shard@),
    {
        let sep = vec!['/'];
        let slash = string_of(&sep);
        assert(sep@ =~= seq!['/']);
        let prefix = concat3(shard, slash.as_str(), asset_id);
        let d = VideoDerivatives {
            thumb_rel: concat(prefix.as_str(), "_thumb.webp"),
            motion_rel: concat(prefix.as_str(), "_motion.mp4"),
            preview_rel: concat(prefix.as_str(), "_preview.mp4"),
        };
        d
    }
}

/// Whether a rotation is a quarter turn.
fn is_quarter_turn(r: i64) -> (b: bool)
    ensures
        b == quarter_turn(r as int),
{
    r == 90 || r == -90 || r == 270 || r == -270
}

/// The first rotation among side data.
fn side_rotation(sd: &Vec<VideoStreamSideData>) -> (r: Option<i64>)
    ensures
        r == first_rotation(sd@),
{
    let mut i: usize = 0;
    assert(sd@.subrange(0, sd@.len() as int) =~= sd@);
    while i < sd.len()
        invariant
            i <= sd@.len(),
            first_rotation(sd@.subrange(i as int, sd@.len() as int)) == first_rotation(sd@),
        decreases sd.len() - i,
    {
        let ghost rest = sd@.subrange(i as int, sd@.len() as int);
        assert(rest[0] == sd@[i as int]);
        assert(rest.drop_first() =~= sd@.subrange(i + 1, sd@.len() as int));
        if sd[i].rotation.is_some() {
            return sd[i].rotation;
        }
        i += 1;
    }
    assert(sd@.subrange(i as int, sd@.len() as int) =~= Seq::<VideoStreamSideData>::empty());
    None
}

/// The rotation of a stream.
fn rotation_of(s: &VideoStreamInfo) -> (r: i64)
    ensures
        r as int == stream_rotation(*s),
{
    let side: i64 = match &s.side_data_list {
        Some(l) => match side_rotation(l) {
            Some(r) => r,
            None => 0,
        },
        None => 0,
    };
    if side != 0 {
        return side;
    }
    match &s.tags {
        Some(t) => match t.str_field("rotate") {
            Some(x) => {
                let v = char_vec(x);
                match crate::text::parse_signed_chars(&v, i64::MIN, i64::MAX) {
                    Some(n) => n,
                    None => 0,
                }
            },
            None => 0,
        },
        None => 0,
    }
}

/// The first sized stream.
fn sized_stream(ss: &Vec<VideoStreamInfo>) -> (r: Option<&VideoStreamInfo>)
    ensures
        r.is_some() == first_sized(ss@).is_some(),
        r.is_some() ==> *r.unwrap() == first_sized(ss@).unwrap(),
        r.is_some() ==> r.unwrap().width is Some && r.unwrap().height is Some,
{
    let mut i: usize = 0;
    assert(ss@.subrange(0, ss@.len() as int) =~= ss@);
    while i < ss.len()
        invariant
            i <= ss@.len(),
            first_sized(ss@.subrange(i as int, ss@.len() as int)) == first_sized(ss@),
        decreases ss.len() - i,
    {
        let ghost rest = ss@.subrange(i as int, ss@.len() as int);
        assert(rest[0] == ss@[i as int]);
        assert(rest.drop_first() =~= ss@.subrange(i + 1, ss@.len() as int));
        if ss[i].width.is_some() && ss[i].height.is_some() {
            return Some(&ss[i]);
        }
        i += 1;
    }
    assert(ss@.subrange(i as int, ss@.len() as int) =~= Seq::<VideoStreamInfo>::empty());
    None
}

/// A string tag of the container.
fn container_tag(p: &ProbeOutput, key: &str) -> (r: Option<String>)
    ensures
        r.deep_view() == format_tag(*p, key@),
{
    match &p.format {
        Some(f) => match &f.tags {
            Some(t) => match t.str_field(key) {
                Some(x) => Some(x.to_owned()),
                None => None,
            },
            None => None,
        },
        None => None,
    }
}

/// The displayed size of a report.
fn displayed_size(p: &ProbeOutput) -> (r: (i64, i64))
    ensures
        (r.0 as int, r.1 as int) == probed_size(*p),
{
    match &p.streams {
        Some(ss) => match sized_stream(ss) {
            Some(s) => {
                let w = match s.width {
                    Some(x) => x,
                    None => 0,
                };
                let h = match s.height {
                    Some(x) => x,
                    None => 0,
                };
                if is_quarter_turn(rotation_of(s)) {
                    (h, w)
                } else {
                    (w, h)
                }
            },
            None => (0, 0),
        },
        None => (0, 0),
    }
}

impl VideoProcessor {
    /// Reads a prober report: the displayed size of the first sized stream
    /// (width and height swapped for a quarter-turn rotation), the duration
    /// as written, the capture time and the camera make and model.
    pub fn probe_summary(p: &ProbeOutput) -> (r: ProbeSummary)
        ensures
            (r.width as int, r.height as int) == probed_size(*p),
            r.duration.deep_view() == probed_duration(*p),
            r.captured_at.deep_view() == probed_capture(*p),
            r.camera_make.deep_view() == format_tag(*p, "com.apple.quicktime.make"@),
            r.camera_model.deep_view() == format_tag(*p, "com.apple.quicktime.model"@),
    {
        let (width, height) = displayed_size(p);
        let duration = match &p.format {
            Some(f) => copy_opt(&f.duration),
            None => None,
        };
        let captured_at = match &p.format {
            Some(f) => match &f.tags {
                Some(t) => {
                    let found = match t.get("creation_time") {
                        Some(v) => Some(v),
                        None => t.get("com.apple.quicktime.creationdate"),
                    };
                    match found {
                        Some(v) => match v.as_str() {
                            Some(x) => Some(x.to_owned()),
                            None => None,
                        },
                        None => None,
                    }
                },
                None => None,
            },
            None => None,
        };
        ProbeSummary {
            width,
            height,
            duration,
            captured_at,
            camera_make: container_tag(p, "com.apple.quicktime.make"),
            camera_model: container_tag(p, "com.apple.quicktime.model"),
        }
    }
}

} // verus!
