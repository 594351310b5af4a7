use media_downloader::json::{JsonValue};
use media_downloader::processing::{capture_date_parts, shard_for, ImageProcessor, OrientationFix};
use media_downloader::video::{ProbeOutput, VideoProbeFormat, VideoProcessor, VideoStreamInfo, VideoStreamSideData};

fn tags(pairs: &[(&str, &str)]) -> Option<JsonValue> {
    Some(JsonValue::Object(pairs.iter().map(|(k, v)| (k.to_string(), JsonValue::Str(v.to_string()))).collect()))
}

fn stream(width: Option<i64>, height: Option<i64>, rotations: Option<Vec<Option<i64>>>, t: Option<JsonValue>) -> VideoStreamInfo {
    VideoStreamInfo {
        width,
        height,
        side_data_list: rotations.map(|rs| rs.into_iter().map(|rotation| VideoStreamSideData { rotation }).collect()),
        tags: t,
    }
}

#[test]
fn probe_report_turns_portrait_videos() {
    let report = ProbeOutput {
        streams: Some(vec![
            stream(None, None, None, None),
            stream(Some(1920), Some(1080), Some(vec![None, Some(-90)]), None),
        ]),
        format: Some(VideoProbeFormat {
            duration: Some("12.500".to_string()),
            tags: tags(&[
                ("com.apple.quicktime.creationdate", "2023-07-04T18:30:00+0200"),
                ("com.apple.quicktime.make", "Apple"),
                ("com.apple.quicktime.model", "iPhone 14"),
            ]),
        }),
    };
    let s = VideoProcessor::probe_summary(&report);
    assert_eq!((s.width, s.height), (1080, 1920));
    assert_eq!(s.duration.as_deref(), Some("12.500"));
    assert_eq!(s.captured_at.as_deref(), Some("2023-07-04T18:30:00+0200"));
    assert_eq!(s.camera_make.as_deref(), Some("Apple"));
    assert_eq!(s.camera_model.as_deref(), Some("iPhone 14"));
}

#[test]
fn probe_report_rotation_from_tags_and_defaults() {
    let tagged = ProbeOutput {
        streams: Some(vec![stream(Some(640), Some(480), Some(vec![Some(0)]), tags(&[("rotate", "270")]))]),
        format: Some(VideoProbeFormat {
            duration: None,
            tags: tags(&[("creation_time", "2024-01-01T00:00:00Z"), ("com.apple.quicktime.creationdate", "x")]),
        }),
    };
    let s = VideoProcessor::probe_summary(&tagged);
    assert_eq!((s.width, s.height), (480, 640));
    assert_eq!(s.captured_at.as_deref(), Some("2024-01-01T00:00:00Z"));
    assert_eq!(s.camera_make, None);

    let upright = ProbeOutput {
        streams: Some(vec![stream(Some(640), Some(480), None, tags(&[("rotate", "180")]))]),
        format: None,
    };
    let u = VideoProcessor::probe_summary(&upright);
    assert_eq!((u.width, u.height), (640, 480));
    assert_eq!(u.duration, None);

    let empty = VideoProcessor::probe_summary(&ProbeOutput { streams: None, format: None });
    assert_eq!((empty.width, empty.height), (0, 0));
    assert_eq!(empty.captured_at, None);
}

#[test]
fn exif_orientation_fixes() {
    assert_eq!(ImageProcessor::orientation_fix(1), OrientationFix::Keep);
    assert_eq!(ImageProcessor::orientation_fix(2), OrientationFix::FlipHorizontal);
    assert_eq!(ImageProcessor::orientation_fix(3), OrientationFix::Rotate180);
    assert_eq!(ImageProcessor::orientation_fix(4), OrientationFix::FlipVertical);
    assert_eq!(ImageProcessor::orientation_fix(5), OrientationFix::Rotate90FlipHorizontal);
    assert_eq!(ImageProcessor::orientation_fix(6), OrientationFix::Rotate90);
    assert_eq!(ImageProcessor::orientation_fix(7), OrientationFix::Rotate270FlipHorizontal);
    assert_eq!(ImageProcessor::orientation_fix(8), OrientationFix::Rotate270);
    assert_eq!(ImageProcessor::orientation_fix(9), OrientationFix::Keep);
}

#[test]
fn image_derivatives_and_shards() {
    assert_eq!(
        ImageProcessor::derivative_names("abc123", "ab"),
        ("ab/abc123_thumb.webp".to_string(), "ab/abc123_preview.webp".to_string())
    );
    assert_eq!(shard_for("abc123"), "ab");
    assert_eq!(shard_for("a"), "misc");
    assert_eq!(shard_for(""), "misc");
    assert_eq!(shard_for("éa"), "é");
}

#[test]
fn capture_time_fields() {
    assert_eq!(capture_date_parts("2023-07-04T18:30:00Z"), Some((Some(2023), Some(7), Some(4), Some(18))));
    assert_eq!(capture_date_parts("2023:07:04 18:30:00"), Some((Some(2023), Some(7), Some(4), Some(18))));
    assert_eq!(capture_date_parts("2023-07-xx"), None);
    assert_eq!(capture_date_parts("2023-07-xx 9"), Some((Some(2023), Some(7), None, Some(9))));
}
