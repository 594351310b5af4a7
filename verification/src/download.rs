//! Download requests and the choice of how each one is fetched: as a plain
//! file, as an HLS stream handed to ffmpeg, or as a video and an audio track
//! fetched apart and muxed.
use vstd::prelude::*;

use crate::paths::{join_path, join_path_str};
use crate::text::{char_vec, contains_lit, has_sub};

verus! {

/// A request to fetch one asset into a directory, independent of the site it
/// came from.
#[derive(Debug, Clone)]
pub struct DownloadRequest {
    /// Direct file link or `.m3u8` manifest link.
    pub url: String,
    /// Optional separate audio track.
    pub audio_url: Option<String>,
    /// Destination directory.
    pub output_dir: String,
    /// Final file name with extension.
    pub file_name: String,
    /// HTTP Referer for CDNs with hotlink protection.
    pub referer: Option<String>,
}

/// How a request is fetched.
#[derive(Debug, Clone, Copy, PartialEq, Eq, Structural)]
pub enum DownloadStrategy {
    /// ffmpeg assembles the HLS stream (with the audio track, if any).
    Hls,
    /// Video and audio are streamed to disk apart, then muxed.
    MuxDirect,
    /// The file is streamed straight to disk.
    Direct,
}

/// The strategy that a request calls for: HLS as soon as the video or the
/// audio link is an `.m3u8` manifest, muxing when there is a separate audio
/// track, a plain transfer otherwise.
pub open spec fn strategy_for(url: Seq<char>, audio: Option<Seq<char>>) -> DownloadStrategy {
    let audio_hls = match audio {
        Some(a) => has_sub(a, ".m3u8"@),
        None => false,
    };
    if has_sub(url, ".m3u8"@) || audio_hls {
        DownloadStrategy::Hls
    } else if audio is Some {
        DownloadStrategy::MuxDirect
    } else {
        DownloadStrategy::Direct
    }
}

impl DownloadRequest {
    /// A request with no audio track and no referer.
    pub fn new(url: &str, output_dir: &str, file_name: &str) -> (r: Self)
        ensures
            r.url@ == url@,
            r.output_dir@ == output_dir@,
            r.file_name@ == file_name@,
            r.audio_url is None,
            r.referer is None,
    {
        Self {
            url: url.to_owned(),
            audio_url: None,
            output_dir: output_dir.to_owned(),
            file_name: file_name.to_owned(),
            referer: None,
        }
    }

    /// The same request with a separate audio track.
    pub fn with_audio(self, audio_url: &str) -> (r: Self)
        ensures
            r.audio_url.deep_view() == Some(audio_url@),
            r.url == self.url,
            r.output_dir == self.output_dir,
            r.file_name == self.file_name,
            r.referer == self.referer,
    {
        let mut s = self;
        s.audio_url = Some(audio_url.to_owned());
        s
    }

    /// The same request with an HTTP referer.
    pub fn with_referer(self, referer: &str) -> (r: Self)
        ensures
            r.referer.deep_view() == Some(referer@),
            r.url == self.url,
            r.output_dir == self.output_dir,
            r.file_name == self.file_name,
            r.audio_url == self.audio_url,
    {
        let mut s = self;
        s.referer = Some(referer.to_owned());
        s
    }

    /// The file that the download writes: the file name joined onto the
    /// output directory.
    pub fn target_path(&self) -> (p: String)
        ensures
            p@ == join_path(self.output_dir@, self.file_name@),
    {
        join_path_str(self.output_dir.as_str(), self.file_name.as_str())
    }

    /// How this request is fetched.
    pub fn strategy(&self) -> (s: DownloadStrategy)
        ensures
            s == strategy_for(self.url@, self.audio_url.deep_view()),
    {
        let url = char_vec(self.url.as_str());
        let audio_hls = match &self.audio_url {
            Some(a) => {
                let av = char_vec(a.as_str());
                contains_lit(&av, ".m3u8")
            },
            None => false,
        };
        if contains_lit(&url, ".m3u8") || audio_hls {
            DownloadStrategy::Hls
        } else if self.audio_url.is_some() {
            DownloadStrategy::MuxDirect
        } else {
            DownloadStrategy::Direct
        }
    }
}

/// How a raw link is fetched to disk: muxed with its audio track when there
/// is one, as HLS when the link is a manifest, as a plain transfer otherwise.
pub open spec fn disk_strategy_for(url: Seq<char>, audio: Option<Seq<char>>) -> DownloadStrategy {
    if audio is Some {
        DownloadStrategy::MuxDirect
    } else if has_sub(url, ".m3u8"@) {
        DownloadStrategy::Hls
    } else {
        DownloadStrategy::Direct
    }
}

/// The strategy for fetching a raw video or image link to disk.
pub fn disk_strategy(video_url: &str, audio_url: Option<&str>) -> (s: DownloadStrategy)
    ensures
        s == disk_strategy_for(
            video_url@,
            match audio_url {
                Some(a) => Some(a@),
                None => None,
            },
        ),
{
    if audio_url.is_some() {
        DownloadStrategy::MuxDirect
    } else {
        let v = char_vec(video_url);
        if contains_lit(&v, ".m3u8") {
            DownloadStrategy::Hls
        } else {
            DownloadStrategy::Direct
        }
    }
}

} // verus!
