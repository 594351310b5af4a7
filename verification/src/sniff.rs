//! Sniffing a page in a headless browser: which network requests become
//! media candidates, when listening stops, and the metadata assembled from
//! what was captured.
use vstd::prelude::*;

use crate::media_utils::{image_candidate, image_mime_for, infer_image_mime, infer_video_mime, is_image_candidate, is_video_url, video_mime_for, video_url};
use crate::models::{new_item_view, ExtractedMediaMetadata, MediaItem, MediaItemView, MediaType, MetadataView};
use crate::scrape::{host_or_web, page_host_name, probed_views, ProbeView, ProbedImageMeta};
use crate::text::{char_vec, contains_lit, copy_opt, copy_string, has_sub, holds_string};

verus! {

/// How long to keep listening after a master playlist shows up.
pub const MASTER_SETTLE_MS: u64 = 1500;

/// How long to keep listening after the first other video shows up.
pub const VIDEO_SETTLE_MS: u64 = 2500;

/// The longest single wait between two looks at the clock.
pub const POLL_MS: u64 = 500;

/// What has been captured so far.
#[derive(Debug)]
pub struct SniffState {
    pub videos: Vec<String>,
    pub images: Vec<String>,
    /// When listening stops early, once a video has been seen.
    pub settle_at_ms: Option<u64>,
}

/// A capture state seen as plain values.
pub struct SniffView {
    pub videos: Seq<Seq<char>>,
    pub images: Seq<Seq<char>>,
    pub settle_at_ms: Option<u64>,
}

impl View for SniffState {
    type V = SniffView;

    open spec fn view(&self) -> SniffView {
        SniffView {
            videos: self.videos.deep_view(),
            images: self.images.deep_view(),
            settle_at_ms: self.settle_at_ms,
        }
    }
}

/// A master playlist URL.
pub open spec fn master_playlist(url: Seq<char>) -> bool {
    has_sub(url, "playlist.m3u8"@) || has_sub(url, "master.m3u8"@)
}

/// `now + d` in milliseconds, saturating.
pub open spec fn later(now: u64, d: u64) -> u64 {
    if now + d > u64::MAX {
        u64::MAX
    } else {
        (now + d) as u64
    }
}

/// The state after a request to `url` at time `now`: a new video URL is
/// captured and settles listening (soon after a master playlist, a little
/// later after the first other video); a new image candidate is captured;
/// anything else changes nothing.
pub open spec fn observed(st: SniffView, url: Seq<char>, now: u64) -> SniffView {
    let new = !st.videos.contains(url) && !st.images.contains(url);
    if video_url(url) && new {
        SniffView {
            videos: st.videos.push(url),
            images: st.images,
            settle_at_ms: if master_playlist(url) {
                Some(later(now, MASTER_SETTLE_MS))
            } else if st.settle_at_ms is None {
                Some(later(now, VIDEO_SETTLE_MS))
            } else {
                st.settle_at_ms
            },
        }
    } else if image_candidate(url) && new {
        SniffView { images: st.images.push(url), ..st }
    } else {
        st
    }
}

/// How long to wait for the next request: nothing when the deadline or the
/// settle time has come, else up to the nearer of the two, at most
/// `POLL_MS`.
pub open spec fn wait_for(st: SniffView, now: u64, deadline: u64) -> Option<u64> {
    if now >= deadline {
        None
    } else {
        match st.settle_at_ms {
            Some(s) => if now >= s {
                None
            } else if s - now < POLL_MS {
                Some((s - now) as u64)
            } else {
                Some(POLL_MS)
            },
            None => if deadline - now < POLL_MS {
                Some((deadline - now) as u64)
            } else {
                Some(POLL_MS)
            },
        }
    }
}

impl SniffState {
    /// Nothing captured yet.
    pub fn new() -> (r: SniffState)
        ensures
            r@.videos == Seq::<Seq<char>>::empty(),
            r@.images == Seq::<Seq<char>>::empty(),
            r@.settle_at_ms is None,
    {
        let r = SniffState { videos: Vec::new(), images: Vec::new(), settle_at_ms: None };
        assert(r@.videos =~= Seq::<Seq<char>>::empty());
        assert(r@.images =~= Seq::<Seq<char>>::empty());
        r
    }

    /// Records a network request seen at `now_ms`.
    pub fn observe_request(&mut self, url: &str, now_ms: u64)
        ensures
            final(self)@ == observed(old(self)@, url@, now_ms),
    {
        let u = url.to_owned();
        let new = !holds_string(&self.videos, &u) && !holds_string(&self.images, &u);
        if is_video_url(url) && new {
            let v = char_vec(url);
            let settle = if contains_lit(&v, "playlist.m3u8") || contains_lit(&v, "master.m3u8") {
                Some(now_ms.saturating_add(MASTER_SETTLE_MS))
            } else if self.settle_at_ms.is_none() {
                Some(now_ms.saturating_add(VIDEO_SETTLE_MS))
            } else {
                self.settle_at_ms
            };
            let ghost b = self.videos.deep_view();
            self.videos.push(u);
            self.settle_at_ms = settle;
            assert(self.videos.deep_view() =~= b.push(url@));
        } else if is_image_candidate(url) && new {
            let ghost b = self.images.deep_view();
            self.images.push(u);
            assert(self.images.deep_view() =~= b.push(url@));
        }
    }

    /// How long to wait for the next request at `now_ms`, listening ending
    /// at `deadline_ms` at the latest; nothing when listening is over.
    pub fn next_wait(&self, now_ms: u64, deadline_ms: u64) -> (r: Option<u64>)
        ensures
            r == wait_for(self@, now_ms, deadline_ms),
    {
        if now_ms >= deadline_ms {
            return None;
        }
        match self.settle_at_ms {
            Some(s) => if now_ms >= s {
                None
            } else if s - now_ms < POLL_MS {
                Some(s - now_ms)
            } else {
                Some(POLL_MS)
            },
            None => if deadline_ms - now_ms < POLL_MS {
                Some(deadline_ms - now_ms)
            } else {
                Some(POLL_MS)
            },
        }
    }

    /// Whether nothing at all was captured.
    pub fn is_empty(&self) -> (r: bool)
        ensures
            r == (self@.videos.len() == 0 && self@.images.len() == 0),
    {
        self.videos.len() == 0 && self.images.len() == 0
    }
}

/// Why a sniffed page gives no metadata.
#[derive(Debug, Clone, Copy, PartialEq, Eq, Structural)]
pub enum SniffError {
    /// The browser captured no media before listening ended.
    NothingCaptured,
}

/// The first master playlist among the videos.
pub open spec fn first_master(videos: Seq<Seq<char>>) -> Option<Seq<char>>
    decreases videos.len(),
{
    if videos.len() == 0 {
        None
    } else if master_playlist(videos[0]) {
        Some(videos[0])
    } else {
        first_master(videos.drop_first())
    }
}

/// The videos kept: the master playlist alone when there is one, else all.
pub open spec fn kept_videos(videos: Seq<Seq<char>>) -> Seq<Seq<char>> {
    match first_master(videos) {
        Some(m) => seq![m],
        None => videos,
    }
}

/// The item of a captured video, with the page's poster.
pub open spec fn sniffed_video(page: Seq<char>, v: Seq<char>, poster: Option<Seq<char>>) -> MediaItemView {
    new_item_view(MediaType::Video, video_mime_for(v), None, None, v, poster, None, None, Some(page), v)
}

/// The item of a probed image.
pub open spec fn sniffed_image(page: Seq<char>, x: (Seq<char>, ProbeView)) -> MediaItemView {
    new_item_view(
        MediaType::Image,
        match x.1.content_type {
            Some(t) => t,
            None => image_mime_for(x.0),
        },
        x.1.dimensions,
        x.1.file_size_bytes,
        x.0,
        None,
        None,
        None,
        Some(page),
        x.0,
    )
}

/// The metadata of a sniffed page: the kept videos, then every probed
/// image; the host (or "web") as platform and author, the title (or
/// "web_stream") as caption. Nothing captured is an error.
pub open spec fn sniffed_page(
    page: Seq<char>,
    title: Option<Seq<char>>,
    poster: Option<Seq<char>>,
    videos: Seq<Seq<char>>,
    probed: Seq<(Seq<char>, ProbeView)>,
) -> Result<MetadataView, SniffError> {
    if videos.len() == 0 && probed.len() == 0 {
        Err(SniffError::NothingCaptured)
    } else {
        let host = host_or_web(page);
        Ok(
            MetadataView {
                platform: host,
                author: host,
                caption: match title {
                    Some(t) => t,
                    None => "web_stream"@,
                },
                post_text: None,
                published_at: None,
                tags: seq![],
                items: kept_videos(videos).map_values(|v: Seq<char>| sniffed_video(page, v, poster))
                    + probed.map_values(|x: (Seq<char>, ProbeView)| sniffed_image(page, x)),
                next_page_url: None,
                discovered_post_urls: seq![],
                embedded_player_urls: seq![],
            },
        )
    }
}

/// Computes `kept_videos`.
fn keep_videos(videos: &Vec<String>) -> (r: Vec<String>)
    ensures
        r.deep_view() == kept_videos(videos.deep_view()),
{
    let ghost vv = videos.deep_view();
    let mut i: usize = 0;
    assert(vv.subrange(0, vv.len() as int) =~= vv);
    while i < videos.len()
        invariant
            i <= videos@.len(),
            vv == videos.deep_view(),
            first_master(vv.subrange(i as int, vv.len() as int)) == first_master(vv),
        decreases videos.len() - i,
    {
        let ghost rest = vv.subrange(i as int, vv.len() as int);
        assert(rest[0] == vv[i as int]);
        assert(rest.drop_first() =~= vv.subrange(i + 1, vv.len() as int));
        let v = char_vec(videos[i].as_str());
        if contains_lit(&v, "playlist.m3u8") || contains_lit(&v, "master.m3u8") {
            let mut r: Vec<String> = Vec::new();
            r.push(copy_string(&videos[i]));
            assert(r.deep_view() =~= seq![vv[i as int]]);
            return r;
        }
        i += 1;
    }
    let mut r: Vec<String> = Vec::new();
    let mut j: usize = 0;
    while j < videos.len()
        invariant
            j <= videos@.len(),
            vv == videos.deep_view(),
            r.deep_view() == vv.take(j as int),
        decreases videos.len() - j,
    {
        let ghost before = r.deep_view();
        r.push(copy_string(&videos[j]));
        assert(r.deep_view() =~= before.push(vv[j as int]));
        assert(vv.take(j + 1) =~= vv.take(j as int).push(vv[j as int]));
        j += 1;
    }
    assert(vv.take(vv.len() as int) =~= vv);
    r
}

/// The metadata of a page sniffed in a browser, from its captured videos
/// and the probes of its captured images.
pub fn assemble_sniffed_page(
    page_url: &str,
    title: Option<String>,
    poster: Option<String>,
    videos: &Vec<String>,
    probed: &Vec<(String, ProbedImageMeta)>,
) -> (r: Result<ExtractedMediaMetadata, SniffError>)
    ensures
        r matches Ok(m) ==> sniffed_page(
            page_url@,
            title.deep_view(),
            poster.deep_view(),
            videos.deep_view(),
            probed_views(probed@),
        ) == Ok::<MetadataView, SniffError>(m@),
        r matches Err(e) ==> sniffed_page(
            page_url@,
            title.deep_view(),
            poster.deep_view(),
            videos.deep_view(),
            probed_views(probed@),
        ) == Err::<MetadataView, SniffError>(e),
{
    if videos.len() == 0 && probed.len() == 0 {
        return Err(SniffError::NothingCaptured);
    }
    let kept = keep_videos(videos);
    let ghost kv = kept.deep_view();
    let ghost pv = probed_views(probed@);
    let mut items: Vec<MediaItem> = Vec::new();
    let mut i: usize = 0;
    while i < kept.len()
        invariant
            i <= kept@.len(),
            kv == kept.deep_view(),
            items@.len() == i,
            forall|k: int| 0 <= k < i ==> #[trigger] items@[k]@ == sniffed_video(page_url@, kv[k], poster.deep_view()),
        decreases kept.len() - i,
    {
        let v = &kept[i];
        items.push(
            MediaItem::new(
                MediaType::Video,
                infer_video_mime(v.as_str()),
                None,
                None,
                v.as_str(),
                copy_opt(&poster),
                None,
                None,
                Some(page_url.to_owned()),
                v.as_str(),
            ),
        );
        i += 1;
    }
    let mut j: usize = 0;
    while j < probed.len()
        invariant
            j <= probed@.len(),
            kv == kept.deep_view(),
            pv == probed_views(probed@),
            items@.len() == kv.len() + j,
            forall|k: int| 0 <= k < kv.len() ==> #[trigger] items@[k]@ == sniffed_video(page_url@, kv[k], poster.deep_view()),
            forall|k: int| 0 <= k < j ==> #[trigger] items@[kv.len() + k]@ == sniffed_image(page_url@, pv[k]),
        decreases probed.len() - j,
    {
        let x = &probed[j];
        let mime: String = match &x.1.content_type {
            Some(t) => copy_string(t),
            None => infer_image_mime(x.0.as_str()).to_owned(),
        };
        items.push(
            MediaItem::new(
                MediaType::Image,
                mime.as_str(),
                x.1.dimensions,
                x.1.file_size_bytes,
                x.0.as_str(),
                None,
                None,
                None,
                Some(page_url.to_owned()),
                x.0.as_str(),
            ),
        );
        assert(items@[kv.len() + j]@ == sniffed_image(page_url@, pv[j as int]));
        j += 1;
    }
    let ghost expected = kv.map_values(|v: Seq<char>| sniffed_video(page_url@, v, poster.deep_view()))
        + pv.map_values(|x: (Seq<char>, ProbeView)| sniffed_image(page_url@, x));
    assert forall|k: int| 0 <= k < items@.len() implies #[trigger] items.deep_view()[k] == expected[k] by {
        if k < kv.len() {
            assert(items@[k]@ == sniffed_video(page_url@, kv[k], poster.deep_view()));
        } else {
            assert(items@[kv.len() + (k - kv.len())]@ == sniffed_image(page_url@, pv[k - kv.len()]));
        }
    }
    assert(items.deep_view() =~= expected);
    let host = page_host_name(page_url);
    let caption = match title {
        Some(t) => t,
        None => "web_stream".to_owned(),
    };
    let m = ExtractedMediaMetadata {
        platform: copy_string(&host),
        author: host,
        caption,
        post_text: None,
        published_at: None,
        tags: Vec::new(),
        items,
        next_page_url: None,
        discovered_post_urls: Vec::new(),
        embedded_player_urls: Vec::new(),
    };
    assert(m.tags.deep_view() =~= Seq::<Seq<char>>::empty());
    assert(m.discovered_post_urls.deep_view() =~= Seq::<Seq<char>>::empty());
    assert(m.embedded_player_urls.deep_view() =~= Seq::<Seq<char>>::empty());
    Ok(m)
}

/// Listening never waits past the deadline, nor past the settle time,
/// nor longer than `POLL_MS` at a time.
pub proof fn lemma_wait_bounded(st: SniffView, now: u64, deadline: u64)
    ensures
        wait_for(st, now, deadline) matches Some(w) ==> w <= POLL_MS && now < deadline && (match st.settle_at_ms {
            Some(s) => now + w <= s,
            None => now + w <= deadline,
        }),
        now >= deadline ==> wait_for(st, now, deadline) is None,
{
}

/// A capture never holds a URL twice, in either list or across them, and
/// listening settles once a video is captured.
pub proof fn lemma_observed_no_repeats(st: SniffView, url: Seq<char>, now: u64)
    requires
        crate::links::no_repeats(st.videos),
        crate::links::no_repeats(st.images),
        forall|i: int, j: int| 0 <= i < st.videos.len() && 0 <= j < st.images.len() ==> st.videos[i] != st.images[j],
        st.videos.len() > 0 ==> st.settle_at_ms is Some,
    ensures
        crate::links::no_repeats(observed(st, url, now).videos),
        crate::links::no_repeats(observed(st, url, now).images),
        forall|i: int, j: int|
            0 <= i < observed(st, url, now).videos.len() && 0 <= j < observed(st, url, now).images.len()
                ==> observed(st, url, now).videos[i] != observed(st, url, now).images[j],
        observed(st, url, now).videos.len() > 0 ==> observed(st, url, now).settle_at_ms is Some,
{
    let o = observed(st, url, now);
    let new = !st.videos.contains(url) && !st.images.contains(url);
    if video_url(url) && new {
        assert forall|i: int, j: int| 0 <= i < j < o.videos.len() implies o.videos[i] != o.videos[j] by {
            if j == o.videos.len() - 1 {
                assert(st.videos[i] == o.videos[i]);
            }
        }
        assert forall|i: int, j: int| 0 <= i < o.videos.len() && 0 <= j < o.images.len() implies o.videos[i] != o.images[j] by {
            if i == o.videos.len() - 1 {
                assert(o.images[j] == st.images[j]);
            }
        }
    } else if image_candidate(url) && new {
        assert forall|i: int, j: int| 0 <= i < j < o.images.len() implies o.images[i] != o.images[j] by {
            if j == o.images.len() - 1 {
                assert(st.images[i] == o.images[i]);
            }
        }
        assert forall|i: int, j: int| 0 <= i < o.videos.len() && 0 <= j < o.images.len() implies o.videos[i] != o.images[j] by {
            if j == o.images.len() - 1 {
                assert(o.videos[i] == st.videos[i]);
            }
        }
    }
}

} // verus!
