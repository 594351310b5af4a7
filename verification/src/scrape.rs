//! Scraping a page by plain request: the media candidates of its HTML, what
//! a partial download tells of an image, and the metadata assembled from the
//! candidates once the images are probed.
use vstd::prelude::*;

use crate::labels::{dims_label, dims_label_of, dims_of, size_label, size_label_of};
use crate::links::{
    discover_next_page, discover_post_links, normalize_scraped_url, normalized_url, next_page,
    page_post_links, resolve_relative_url, resolved_link,
};
use crate::media_utils::{
    correlate_video_thumbnail, extract_video_posters, image_mime_for, infer_image_mime,
    infer_video_mime, is_video_url, matched_thumbnail, page_posters, video_mime_for, video_url,
};
use crate::models::{
    area, area_of, new_item_view, ExtractedMediaMetadata, MediaDimensions, MediaItem,
    MediaItemView, MediaType, MediaVariant, MetadataView, VariantView,
};
use crate::order::{int_keys, stable_order, stable_sorted_indices};
use crate::page::{
    extract_embedded_players, extract_post_text, extract_published_time, extract_tags,
    link_tags, player_links, trimmed_capture, ws_words, split_whitespace,
};
use crate::patterns::{
    captures_of, first_capture, first_capture_of, regex_captures, ATTR_RE, IFRAME_SRC_RE,
    IMG_RE, META_DESC_RE, SRCSET_RE, TAG_HREF_RE, TIME_RE, TITLE_RE, VIDEO_RE,
};
use crate::text::{
    before_first, begins, char_vec, copy_opt, copy_string, equals_lit, holds_string, is_prefix,
    parse_unsigned, rsplit_once, split_chars, split_last, split_on, string_of, trim, trim_ws,
    CharClass,
};
use crate::weburl::{parse_host, url_host};

verus! {

// ---------------------------------------------------------------------------
// Probing images
// ---------------------------------------------------------------------------

/// What a partial download tells of an image.
#[derive(Debug)]
pub struct ProbedImageMeta {
    pub dimensions: Option<MediaDimensions>,
    pub content_type: Option<String>,
    pub file_size_bytes: Option<u64>,
}

/// A probe seen as plain values.
pub struct ProbeView {
    pub dimensions: Option<MediaDimensions>,
    pub content_type: Option<Seq<char>>,
    pub file_size_bytes: Option<u64>,
}

impl View for ProbedImageMeta {
    type V = ProbeView;

    open spec fn view(&self) -> ProbeView {
        ProbeView {
            dimensions: self.dimensions,
            content_type: self.content_type.deep_view(),
            file_size_bytes: self.file_size_bytes,
        }
    }
}

impl DeepView for ProbedImageMeta {
    type V = ProbeView;

    open spec fn deep_view(&self) -> ProbeView {
        self.view()
    }
}

impl ProbedImageMeta {
    /// The probe of an image that could not be fetched: nothing known.
    pub fn unknown() -> (r: ProbedImageMeta)
        ensures
            r@ == (ProbeView { dimensions: None, content_type: None, file_size_bytes: None }),
    {
        ProbedImageMeta { dimensions: None, content_type: None, file_size_bytes: None }
    }

    /// A copy of this probe.
    pub fn duplicate(&self) -> (r: ProbedImageMeta)
        ensures
            r@ == self@,
    {
        ProbedImageMeta {
            dimensions: self.dimensions,
            content_type: copy_opt(&self.content_type),
            file_size_bytes: self.file_size_bytes,
        }
    }
}

/// The width and height that an image file's header announces, when its
/// format is one the `imagesize` crate knows and enough of it is present.
pub uninterp spec fn image_header_size(bytes: Seq<u8>) -> Option<(usize, usize)>;

/// `imagesize::blob_size`: the result is named by `image_header_size`.
#[verifier::external_body]
fn blob_dimensions(bytes: &Vec<u8>) -> (r: Option<(usize, usize)>)
    ensures
        r == image_header_size(bytes@),
{
    match imagesize::blob_size(bytes.as_slice()) {
        Ok(d) => Some((d.width, d.height)),
        Err(_) => None,
    }
}

/// The media type of a `Content-Type` value, without its parameters.
pub open spec fn mime_of_header(v: Seq<char>) -> Seq<char> {
    trim(before_first(v, ';'), CharClass::Whitespace)
}

/// The total size that a `Content-Range` value announces (after its last
/// `/`).
pub open spec fn range_total(v: Seq<char>) -> Option<nat> {
    match rsplit_once(v, '/') {
        Some((_, total)) => parse_unsigned(trim(total, CharClass::Whitespace), u64::MAX as nat),
        None => None,
    }
}

/// The probe of an image from the response to a ranged request: its media
/// type; its size from `Content-Range`, else `Content-Length`; its
/// dimensions from the bytes received, when they could be read.
pub open spec fn probe_of(
    content_type: Option<Seq<char>>,
    content_range: Option<Seq<char>>,
    content_length: Option<Seq<char>>,
    body: Option<Seq<u8>>,
) -> ProbeView {
    let from_range = match content_range {
        Some(r) => range_total(r),
        None => None,
    };
    let size = match from_range {
        Some(n) => Some(n),
        None => match content_length {
            Some(l) => parse_unsigned(trim(l, CharClass::Whitespace), u64::MAX as nat),
            None => None,
        },
    };
    ProbeView {
        dimensions: match body {
            Some(b) => match image_header_size(b) {
                Some((w, h)) => Some(MediaDimensions { width: w, height: h }),
                None => None,
            },
            None => None,
        },
        content_type: match content_type {
            Some(t) => Some(mime_of_header(t)),
            None => None,
        },
        file_size_bytes: match size {
            Some(n) => Some(n as u64),
            None => None,
        },
    }
}

/// A size header parsed as a `u64`, white space around it ignored.
fn parse_size(v: &Vec<char>) -> (r: Option<u64>)
    ensures
        r matches Some(n) ==> parse_unsigned(trim(v@, CharClass::Whitespace), u64::MAX as nat) == Some(
            n as nat,
        ),
        r is None ==> parse_unsigned(trim(v@, CharClass::Whitespace), u64::MAX as nat) is None,
{
    let t = trim_ws(v);
    crate::text::parse_unsigned_chars(&t, u64::MAX)
}

/// Builds the probe of an image from the response headers and the bytes
/// received.
pub fn probe_metadata(
    content_type: Option<String>,
    content_range: Option<String>,
    content_length: Option<String>,
    body: Option<Vec<u8>>,
) -> (r: ProbedImageMeta)
    ensures
        r@ == probe_of(
            content_type.deep_view(),
            content_range.deep_view(),
            content_length.deep_view(),
            match body {
                Some(b) => Some(b@),
                None => None,
            },
        ),
{
    let mime = match &content_type {
        Some(t) => {
            let v = char_vec(t.as_str());
            let head = crate::text::prefix_before(&v, ';');
            Some(string_of(&trim_ws(&head)))
        },
        None => None,
    };
    let from_range: Option<u64> = match &content_range {
        Some(r) => {
            let v = char_vec(r.as_str());
            match split_last(&v, '/') {
                Some((_, total)) => parse_size(&total),
                None => None,
            }
        },
        None => None,
    };
    let size = match from_range {
        Some(n) => Some(n),
        None => match &content_length {
            Some(l) => {
                let v = char_vec(l.as_str());
                parse_size(&v)
            },
            None => None,
        },
    };
    let dimensions = match &body {
        Some(b) => match blob_dimensions(b) {
            Some((w, h)) => Some(MediaDimensions { width: w, height: h }),
            None => None,
        },
        None => None,
    };
    ProbedImageMeta { dimensions, content_type: mime, file_size_bytes: size }
}

// ---------------------------------------------------------------------------
// Candidates
// ---------------------------------------------------------------------------

/// Candidate lists: videos and images, no URL in both or twice.
pub open spec fn seen(c: (Seq<Seq<char>>, Seq<Seq<char>>), x: Seq<char>) -> bool {
    c.0.contains(x) || c.1.contains(x)
}

/// Adds a video candidate that looks like a video and is new.
pub open spec fn add_video(c: (Seq<Seq<char>>, Seq<Seq<char>>), x: Seq<char>) -> (Seq<Seq<char>>, Seq<Seq<char>>) {
    if video_url(x) && !seen(c, x) {
        (c.0.push(x), c.1)
    } else {
        c
    }
}

/// Adds an image candidate that is new.
pub open spec fn add_image(c: (Seq<Seq<char>>, Seq<Seq<char>>), x: Seq<char>) -> (Seq<Seq<char>>, Seq<Seq<char>>) {
    if !seen(c, x) {
        (c.0, c.1.push(x))
    } else {
        c
    }
}

/// Whole-match captures, cleaned, offered as videos.
pub open spec fn fold_videos(c: (Seq<Seq<char>>, Seq<Seq<char>>), caps: Seq<Option<Seq<char>>>) -> (
    Seq<Seq<char>>,
    Seq<Seq<char>>,
)
    decreases caps.len(),
{
    if caps.len() == 0 {
        c
    } else {
        let r = fold_videos(c, caps.drop_last());
        match caps.last() {
            Some(m) => add_video(r, normalized_url(m)),
            None => r,
        }
    }
}

/// Whole-match captures, cleaned, offered as images.
pub open spec fn fold_images(c: (Seq<Seq<char>>, Seq<Seq<char>>), caps: Seq<Option<Seq<char>>>) -> (
    Seq<Seq<char>>,
    Seq<Seq<char>>,
)
    decreases caps.len(),
{
    if caps.len() == 0 {
        c
    } else {
        let r = fold_images(c, caps.drop_last());
        match caps.last() {
            Some(m) => add_image(r, normalized_url(m)),
            None => r,
        }
    }
}

/// An attribute value worth resolving: not empty, not `/`, not a `data:`
/// URL.
pub open spec fn usable_attr(raw: Seq<char>) -> bool {
    raw.len() > 0 && raw != "/"@ && !is_prefix("data:"@, raw)
}

/// Source attributes, trimmed, resolved and offered as images.
pub open spec fn fold_attrs(
    c: (Seq<Seq<char>>, Seq<Seq<char>>),
    page: Seq<char>,
    caps: Seq<Option<Seq<char>>>,
) -> (Seq<Seq<char>>, Seq<Seq<char>>)
    decreases caps.len(),
{
    if caps.len() == 0 {
        c
    } else {
        let r = fold_attrs(c, page, caps.drop_last());
        match caps.last() {
            Some(m) => {
                let raw = trim(m, CharClass::Whitespace);
                if usable_attr(raw) {
                    add_image(r, resolved_link(page, raw))
                } else {
                    r
                }
            },
            None => r,
        }
    }
}

/// The URL of a `srcset` entry: its first word, when it has one.
pub open spec fn srcset_url(entry: Seq<char>) -> Seq<char> {
    let words = ws_words(trim(entry, CharClass::Whitespace));
    if words.len() > 0 {
        words[0]
    } else {
        seq![]
    }
}

/// The entries of one `srcset`, resolved and offered as images.
pub open spec fn fold_entries(
    c: (Seq<Seq<char>>, Seq<Seq<char>>),
    page: Seq<char>,
    entries: Seq<Seq<char>>,
) -> (Seq<Seq<char>>, Seq<Seq<char>>)
    decreases entries.len(),
{
    if entries.len() == 0 {
        c
    } else {
        let r = fold_entries(c, page, entries.drop_last());
        let u = srcset_url(entries.last());
        if u.len() > 0 {
            add_image(r, resolved_link(page, u))
        } else {
            r
        }
    }
}

/// Every `srcset`, entry by entry.
pub open spec fn fold_srcsets(
    c: (Seq<Seq<char>>, Seq<Seq<char>>),
    page: Seq<char>,
    caps: Seq<Option<Seq<char>>>,
) -> (Seq<Seq<char>>, Seq<Seq<char>>)
    decreases caps.len(),
{
    if caps.len() == 0 {
        c
    } else {
        let r = fold_srcsets(c, page, caps.drop_last());
        match caps.last() {
            Some(m) => fold_entries(r, page, split_on(m, ',')),
            None => r,
        }
    }
}

/// The media candidates of a page, in this order of discovery: video URLs
/// in the text, image URLs in the text, image source attributes, then
/// `srcset` entries; each URL once.
pub open spec fn page_candidates(page: Seq<char>, html: Seq<char>) -> (Seq<Seq<char>>, Seq<Seq<char>>) {
    let a = fold_videos((seq![], seq![]), regex_captures(VIDEO_RE@, 0, html));
    let b = fold_images(a, regex_captures(IMG_RE@, 0, html));
    let c = fold_attrs(b, page, regex_captures(ATTR_RE@, 1, html));
    fold_srcsets(c, page, regex_captures(SRCSET_RE@, 1, html))
}

/// The title of a page, trimmed, "web_media" when it has none.
pub open spec fn page_title(html: Seq<char>) -> Seq<char> {
    match trimmed_capture(TITLE_RE@, html) {
        Some(t) => t,
        None => "web_media"@,
    }
}

/// The media candidates and title of a page.
#[derive(Debug)]
pub struct ScrapeCandidates {
    pub title: String,
    pub videos: Vec<String>,
    pub images: Vec<String>,
}

/// Growing candidate lists.
struct Collector {
    videos: Vec<String>,
    images: Vec<String>,
}

impl Collector {
    spec fn state(&self) -> (Seq<Seq<char>>, Seq<Seq<char>>) {
        (self.videos.deep_view(), self.images.deep_view())
    }

    fn is_seen(&self, x: &String) -> (r: bool)
        ensures
            r == seen(self.state(), x@),
    {
        holds_string(&self.videos, x) || holds_string(&self.images, x)
    }

    fn offer_video(&mut self, x: String)
        ensures
            final(self).state() == add_video(old(self).state(), x@),
    {
        if is_video_url(x.as_str()) && !self.is_seen(&x) {
            let ghost b = self.videos.deep_view();
            let ghost xv = x@;
            self.videos.push(x);
            assert(self.videos.deep_view() =~= b.push(xv));
        }
    }

    fn offer_image(&mut self, x: String)
        ensures
            final(self).state() == add_image(old(self).state(), x@),
    {
        if !self.is_seen(&x) {
            let ghost b = self.images.deep_view();
            let ghost xv = x@;
            self.images.push(x);
            assert(self.images.deep_view() =~= b.push(xv));
        }
    }

    fn take_videos(&mut self, caps: &Vec<Option<String>>)
        ensures
            final(self).state() == fold_videos(old(self).state(), caps.deep_view()),
    {
        let ghost start = self.state();
        let ghost cv = caps.deep_view();
        let mut i: usize = 0;
        assert(cv.take(0) =~= Seq::<Option<Seq<char>>>::empty());
        while i < caps.len()
            invariant
                i <= caps@.len(),
                cv == caps.deep_view(),
                self.state() == fold_videos(start, cv.take(i as int)),
            decreases caps.len() - i,
        {
            assert(cv.take(i + 1).drop_last() =~= cv.take(i as int));
            assert(cv.take(i + 1).last() == cv[i as int]);
            match &caps[i] {
                Some(m) => self.offer_video(normalize_scraped_url(m.as_str())),
                None => {},
            }
            i += 1;
        }
        assert(cv.take(cv.len() as int) =~= cv);
    }

    fn take_images(&mut self, caps: &Vec<Option<String>>)
        ensures
            final(self).state() == fold_images(old(self).state(), caps.deep_view()),
    {
        let ghost start = self.state();
        let ghost cv = caps.deep_view();
        let mut i: usize = 0;
        assert(cv.take(0) =~= Seq::<Option<Seq<char>>>::empty());
        while i < caps.len()
            invariant
                i <= caps@.len(),
                cv == caps.deep_view(),
                self.state() == fold_images(start, cv.take(i as int)),
            decreases caps.len() - i,
        {
            assert(cv.take(i + 1).drop_last() =~= cv.take(i as int));
            assert(cv.take(i + 1).last() == cv[i as int]);
            match &caps[i] {
                Some(m) => self.offer_image(normalize_scraped_url(m.as_str())),
                None => {},
            }
            i += 1;
        }
        assert(cv.take(cv.len() as int) =~= cv);
    }

    fn take_attrs(&mut self, page: &str, caps: &Vec<Option<String>>)
        ensures
            final(self).state() == fold_attrs(old(self).state(), page@, caps.deep_view()),
    {
        let ghost start = self.state();
        let ghost cv = caps.deep_view();
        let mut i: usize = 0;
        assert(cv.take(0) =~= Seq::<Option<Seq<char>>>::empty());
        while i < caps.len()
            invariant
                i <= caps@.len(),
                cv == caps.deep_view(),
                self.state() == fold_attrs(start, page@, cv.take(i as int)),
            decreases caps.len() - i,
        {
            assert(cv.take(i + 1).drop_last() =~= cv.take(i as int));
            assert(cv.take(i + 1).last() == cv[i as int]);
            match &caps[i] {
                Some(m) => {
                    let v = char_vec(m.as_str());
                    let raw = trim_ws(&v);
                    if raw.len() > 0 && !equals_lit(&raw, "/") && !begins(&raw, "data:") {
                        let rs = string_of(&raw);
                        self.offer_image(resolve_relative_url(page, rs.as_str()));
                    }
                },
                None => {},
            }
            i += 1;
        }
        assert(cv.take(cv.len() as int) =~= cv);
    }

    fn take_entries(&mut self, page: &str, entries: &Vec<Vec<char>>)
        ensures
            final(self).state() == fold_entries(old(self).state(), page@, entries.deep_view()),
    {
        let ghost start = self.state();
        let ghost ev = entries.deep_view();
        let mut i: usize = 0;
        assert(ev.take(0) =~= Seq::<Seq<char>>::empty());
        while i < entries.len()
            invariant
                i <= entries@.len(),
                ev == entries.deep_view(),
                self.state() == fold_entries(start, page@, ev.take(i as int)),
            decreases entries.len() - i,
        {
            assert(ev.take(i + 1).drop_last() =~= ev.take(i as int));
            assert(ev.take(i + 1).last() == ev[i as int]);
            proof {
                crate::text::lemma_char_vec_deep_view(entries@[i as int]);
            }
            let t = trim_ws(&entries[i]);
            let words = split_whitespace(&t);
            if words.len() > 0 {
                proof {
                    crate::text::lemma_char_vec_deep_view(words@[0]);
                }
                if words[0].len() > 0 {
                    let u = string_of(&words[0]);
                    self.offer_image(resolve_relative_url(page, u.as_str()));
                }
            }
            i += 1;
        }
        assert(ev.take(ev.len() as int) =~= ev);
    }

    fn take_srcsets(&mut self, page: &str, caps: &Vec<Option<String>>)
        ensures
            final(self).state() == fold_srcsets(old(self).state(), page@, caps.deep_view()),
    {
        let ghost start = self.state();
        let ghost cv = caps.deep_view();
        let mut i: usize = 0;
        assert(cv.take(0) =~= Seq::<Option<Seq<char>>>::empty());
        while i < caps.len()
            invariant
                i <= caps@.len(),
                cv == caps.deep_view(),
                self.state() == fold_srcsets(start, page@, cv.take(i as int)),
            decreases caps.len() - i,
        {
            assert(cv.take(i + 1).drop_last() =~= cv.take(i as int));
            assert(cv.take(i + 1).last() == cv[i as int]);
            match &caps[i] {
                Some(m) => {
                    let v = char_vec(m.as_str());
                    let entries = split_chars(&v, ',');
                    self.take_entries(page, &entries);
                },
                None => {},
            }
            i += 1;
        }
        assert(cv.take(cv.len() as int) =~= cv);
    }
}

/// The media candidates and title of a page.
pub fn scrape_candidates(page_url: &str, html: &str) -> (r: ScrapeCandidates)
    ensures
        r.title@ == page_title(html@),
        (r.videos.deep_view(), r.images.deep_view()) == page_candidates(page_url@, html@),
{
    let title = match first_capture_of(TITLE_RE, 1, html) {
        Some(m) => {
            let v = char_vec(m.as_str());
            string_of(&trim_ws(&v))
        },
        None => "web_media".to_owned(),
    };
    let mut c = Collector { videos: Vec::new(), images: Vec::new() };
    assert(c.state() =~= (Seq::<Seq<char>>::empty(), Seq::<Seq<char>>::empty()));
    let a = captures_of(VIDEO_RE, 0, html);
    c.take_videos(&a);
    let b = captures_of(IMG_RE, 0, html);
    c.take_images(&b);
    let d = captures_of(ATTR_RE, 1, html);
    c.take_attrs(page_url, &d);
    let e = captures_of(SRCSET_RE, 1, html);
    c.take_srcsets(page_url, &e);
    ScrapeCandidates { title, videos: c.videos, images: c.images }
}

// ---------------------------------------------------------------------------
// Assembly
// ---------------------------------------------------------------------------

/// Why a page gives no metadata.
#[derive(Debug, Clone, Copy, PartialEq, Eq, Structural)]
pub enum ScrapeError {
    /// The page holds no video and no usable image.
    NoMedia,
    /// The site answered 403 or 503: an anti-bot challenge or a block.
    Blocked(u16),
    /// The site answered with another status outside 200 to 299.
    HttpFailure(u16),
}

/// Whether a page response can be scraped: 403 and 503 mean a block, any
/// other status outside 200 to 299 a failed request.
pub open spec fn response_gate(status: u16) -> Result<(), ScrapeError> {
    if status == 403 || status == 503 {
        Err(ScrapeError::Blocked(status))
    } else if status < 200 || status > 299 {
        Err(ScrapeError::HttpFailure(status))
    } else {
        Ok(())
    }
}

/// Checks the status of a page response before it is scraped.
pub fn check_response(status: u16) -> (r: Result<(), ScrapeError>)
    ensures
        r == response_gate(status),
{
    if status == 403 || status == 503 {
        Err(ScrapeError::Blocked(status))
    } else if status < 200 || status > 299 {
        Err(ScrapeError::HttpFailure(status))
    } else {
        Ok(())
    }
}

/// The thumbnail of a video: the poster whose name shares its stem, else
/// the first poster.
pub open spec fn video_thumb(v: Seq<char>, posters: Seq<Seq<char>>) -> Option<Seq<char>> {
    match matched_thumbnail(v, posters) {
        Some(k) => Some(posters[k]),
        None => if posters.len() > 0 {
            Some(posters[0])
        } else {
            None
        },
    }
}

/// The item of a video candidate found on `page`.
pub open spec fn video_item(page: Seq<char>, v: Seq<char>, posters: Seq<Seq<char>>) -> MediaItemView {
    new_item_view(
        MediaType::Video,
        video_mime_for(v),
        None,
        None,
        v,
        video_thumb(v, posters),
        None,
        None,
        Some(page),
        v,
    )
}

/// A probed image worth keeping: not announced empty, and not smaller than
/// 60 pixels either way when its size is known.
pub open spec fn keep_image(p: ProbeView) -> bool {
    (match p.file_size_bytes {
        Some(s) => s > 0,
        None => true,
    }) && (match p.dimensions {
        Some(d) => d.width >= 60 && d.height >= 60,
        None => true,
    })
}

/// The sort key that puts larger areas first, then larger files.
pub open spec fn image_key(p: ProbeView) -> (int, int) {
    (
        u128::MAX - area_of(p.dimensions),
        u128::MAX - (match p.file_size_bytes {
            Some(s) => s as int,
            None => 0,
        }),
    )
}

/// The kept images, in stable order of descending area, then size.
pub open spec fn ranked_images(probed: Seq<(Seq<char>, ProbeView)>) -> Seq<(Seq<char>, ProbeView)> {
    let kept = probed.filter(|x: (Seq<char>, ProbeView)| keep_image(x.1));
    stable_order(kept.map_values(|x: (Seq<char>, ProbeView)| image_key(x.1)), kept.len()).map_values(
        |k: int| kept[k],
    )
}

/// The rendition of a probed image.
pub open spec fn probed_variant(x: (Seq<char>, ProbeView)) -> VariantView {
    VariantView {
        url: x.0,
        dimensions: x.1.dimensions,
        file_size_bytes: x.1.file_size_bytes,
        label: dims_label(x.1.dimensions, true),
    }
}

/// The images of a page as one item: the largest is the master (its probed
/// type, else one guessed from its URL), the smallest the thumbnail, all
/// of them its renditions.
pub open spec fn image_master(page: Seq<char>, ranked: Seq<(Seq<char>, ProbeView)>) -> MediaItemView {
    let best = ranked[0];
    MediaItemView {
        variants: ranked.map_values(|x: (Seq<char>, ProbeView)| probed_variant(x)),
        ..new_item_view(
            MediaType::Image,
            match best.1.content_type {
                Some(t) => t,
                None => image_mime_for(best.0),
            },
            best.1.dimensions,
            best.1.file_size_bytes,
            best.0,
            Some(ranked.last().0),
            None,
            None,
            Some(page),
            best.0,
        )
    }
}

/// The site name of a host: without `www.`, the label before the last
/// one when there are more than two, the first of two, the host otherwise.
pub open spec fn site_name(host: Seq<char>) -> Seq<char> {
    let h = if is_prefix("www."@, host) {
        host.subrange(4, host.len() as int)
    } else {
        host
    };
    let parts = split_on(h, '.');
    if parts.len() > 2 {
        parts[parts.len() - 2]
    } else if parts.len() == 2 {
        parts[0]
    } else {
        h
    }
}

/// The site name of a host.
pub fn extract_site_name(host: &str) -> (r: String)
    ensures
        r@ == site_name(host@),
{
    let v = char_vec(host);
    let h = if begins(&v, "www.") {
        proof {
            reveal_strlit("www.");
        }
        crate::text::slice_vec(&v, 4, v.len())
    } else {
        v
    };
    let parts = split_chars(&h, '.');
    if parts.len() > 2 {
        proof {
            crate::text::lemma_char_vec_deep_view(parts@[parts@.len() - 2]);
        }
        string_of(&parts[parts.len() - 2])
    } else if parts.len() == 2 {
        proof {
            crate::text::lemma_char_vec_deep_view(parts@[0]);
        }
        string_of(&parts[0])
    } else {
        string_of(&h)
    }
}

/// The host of a page, "web" when it has none.
pub open spec fn host_or_web(page: Seq<char>) -> Seq<char> {
    match url_host(page) {
        Some(h) => h,
        None => "web"@,
    }
}

/// Computes `host_or_web`.
pub fn page_host_name(page: &str) -> (r: String)
    ensures
        r@ == host_or_web(page@),
{
    match parse_host(page) {
        Some(h) => h,
        None => "web".to_owned(),
    }
}

/// The metadata of a scraped page: its video candidates as items, then the
/// kept images as one item; at least one item. The host (or "web") is
/// the author, its site name the platform; the page's description, time,
/// tags, next page, post links and embedded players come with it.
pub open spec fn scraped_page(
    page: Seq<char>,
    html: Seq<char>,
    title: Seq<char>,
    videos: Seq<Seq<char>>,
    probed: Seq<(Seq<char>, ProbeView)>,
) -> Result<MetadataView, ScrapeError> {
    let posters = page_posters(page, html);
    let ranked = ranked_images(probed);
    let items = videos.map_values(|v: Seq<char>| video_item(page, v, posters)) + (if ranked.len() > 0 {
        seq![image_master(page, ranked)]
    } else {
        seq![]
    });
    if items.len() == 0 {
        Err(ScrapeError::NoMedia)
    } else {
        let host = host_or_web(page);
        Ok(
            MetadataView {
                platform: site_name(host),
                author: host,
                caption: title,
                post_text: trimmed_capture(META_DESC_RE@, html),
                published_at: trimmed_capture(TIME_RE@, html),
                tags: link_tags(regex_captures(TAG_HREF_RE@, 1, html)),
                items,
                next_page_url: next_page(page, html),
                discovered_post_urls: page_post_links(page, html),
                embedded_player_urls: player_links(page, regex_captures(IFRAME_SRC_RE@, 1, html)),
            },
        )
    }
}

/// Probed images seen as plain values.
pub open spec fn probed_views(probed: Seq<(String, ProbedImageMeta)>) -> Seq<(Seq<char>, ProbeView)> {
    probed.map_values(|x: (String, ProbedImageMeta)| (x.0@, x.1@))
}

/// The items of video candidates.
fn video_items(page: &str, videos: &Vec<String>, posters: &Vec<String>) -> (r: Vec<MediaItem>)
    ensures
        r.deep_view() == videos.deep_view().map_values(
            |v: Seq<char>| video_item(page@, v, posters.deep_view()),
        ),
{
    let ghost pv = posters.deep_view();
    assert(pv =~= posters@.map_values(|c: String| c@));
    let mut out: Vec<MediaItem> = Vec::new();
    let mut i: usize = 0;
    while i < videos.len()
        invariant
            i <= videos@.len(),
            pv == posters.deep_view(),
            pv == posters@.map_values(|c: String| c@),
            out@.len() == i,
            forall|k: int| 0 <= k < i ==> #[trigger] out@[k]@ == video_item(page@, videos@[k]@, pv),
        decreases videos.len() - i,
    {
        let v = &videos[i];
        let thumb = match correlate_video_thumbnail(v.as_str(), posters.as_slice()) {
            Some(t) => Some(copy_string(t)),
            None => if posters.len() > 0 {
                Some(copy_string(&posters[0]))
            } else {
                None
            },
        };
        assert(thumb.deep_view() == video_thumb(v@, pv));
        out.push(
            MediaItem::new(
                MediaType::Video,
                infer_video_mime(v.as_str()),
                None,
                None,
                v.as_str(),
                thumb,
                None,
                None,
                Some(page.to_owned()),
                v.as_str(),
            ),
        );
        i += 1;
    }
    assert(out.deep_view() =~= videos.deep_view().map_values(
        |v: Seq<char>| video_item(page@, v, pv),
    ));
    out
}

/// Tests `keep_image`.
fn keeps(p: &ProbedImageMeta) -> (r: bool)
    ensures
        r == keep_image(p@),
{
    let size_ok = match p.file_size_bytes {
        Some(s) => s > 0,
        None => true,
    };
    let dims_ok = match p.dimensions {
        Some(d) => d.width >= 60 && d.height >= 60,
        None => true,
    };
    size_ok && dims_ok
}

/// Computes `ranked_images`.
fn rank_images(probed: &Vec<(String, ProbedImageMeta)>) -> (r: Vec<(String, ProbedImageMeta)>)
    ensures
        probed_views(r@) == ranked_images(probed_views(probed@)),
{
    let ghost pv = probed_views(probed@);
    let mut kept: Vec<(String, ProbedImageMeta)> = Vec::new();
    let mut i: usize = 0;
    while i < probed.len()
        invariant
            i <= probed@.len(),
            pv == probed_views(probed@),
            probed_views(kept@) == pv.take(i as int).filter(|x: (Seq<char>, ProbeView)| keep_image(x.1)),
        decreases probed.len() - i,
    {
        let ghost before = probed_views(kept@);
        assert(pv.take(i + 1) =~= pv.take(i as int).push(pv[i as int]));
        proof {
            pv.take(i as int).lemma_filter_push(pv[i as int], |x: (Seq<char>, ProbeView)| keep_image(x.1));
        }
        if keeps(&probed[i].1) {
            kept.push((copy_string(&probed[i].0), probed[i].1.duplicate()));
            assert(probed_views(kept@) =~= before.push(pv[i as int]));
        }
        i += 1;
    }
    assert(pv.take(pv.len() as int) =~= pv);
    let ghost kv = probed_views(kept@);
    let mut keys: Vec<(u128, u128)> = Vec::new();
    let mut j: usize = 0;
    while j < kept.len()
        invariant
            j <= kept@.len(),
            kv == probed_views(kept@),
            keys@.len() == j,
            forall|k: int|
                0 <= k < j ==> (#[trigger] keys@[k]).0 as int == image_key(kv[k].1).0 && keys@[k].1 as int
                    == image_key(kv[k].1).1,
        decreases kept.len() - j,
    {
        let a = area(&kept[j].1.dimensions);
        let s: u128 = match kept[j].1.file_size_bytes {
            Some(x) => x as u128,
            None => 0,
        };
        assert(a <= u128::MAX);
        keys.push((u128::MAX - a, u128::MAX - s));
        j += 1;
    }
    assert(int_keys(keys@) =~= kv.map_values(|x: (Seq<char>, ProbeView)| image_key(x.1)));
    let order = stable_sorted_indices(&keys);
    let mut out: Vec<(String, ProbedImageMeta)> = Vec::new();
    let mut m: usize = 0;
    while m < order.len()
        invariant
            order@.len() == kv.len(),
            kv == probed_views(kept@),
            forall|k: int| 0 <= k < order@.len() ==> order@[k] < kv.len(),
            m <= order@.len(),
            out@.len() == m,
            forall|k: int|
                0 <= k < m ==> (#[trigger] out@[k]).0@ == kv[order@[k] as int].0 && out@[k].1@
                    == kv[order@[k] as int].1,
        decreases order@.len() - m,
    {
        let x = &kept[order[m]];
        out.push((copy_string(&x.0), x.1.duplicate()));
        m += 1;
    }
    proof {
        let so = stable_order(kv.map_values(|x: (Seq<char>, ProbeView)| image_key(x.1)), kv.len());
        assert(so =~= crate::order::int_indices(order@));
        assert(probed_views(out@) =~= so.map_values(|k: int| kv[k]));
    }
    out
}

/// Builds `image_master`.
fn build_image_master(page: &str, ranked: &Vec<(String, ProbedImageMeta)>) -> (r: MediaItem)
    requires
        ranked@.len() > 0,
    ensures
        r@ == image_master(page@, probed_views(ranked@)),
{
    let ghost rv = probed_views(ranked@);
    let best = &ranked[0];
    let thumb = copy_string(&ranked[ranked.len() - 1].0);
    let mime: String = match &best.1.content_type {
        Some(t) => copy_string(t),
        None => infer_image_mime(best.0.as_str()).to_owned(),
    };
    let mut variants: Vec<MediaVariant> = Vec::new();
    let mut i: usize = 0;
    while i < ranked.len()
        invariant
            i <= ranked@.len(),
            rv == probed_views(ranked@),
            variants@.len() == i,
            forall|k: int| 0 <= k < i ==> #[trigger] variants@[k]@ == probed_variant(rv[k]),
        decreases ranked.len() - i,
    {
        let x = &ranked[i];
        variants.push(
            MediaVariant {
                url: copy_string(&x.0),
                dimensions: x.1.dimensions,
                file_size_bytes: x.1.file_size_bytes,
                label: dims_label_of(x.1.dimensions, true),
            },
        );
        i += 1;
    }
    let mut media = MediaItem::new(
        MediaType::Image,
        mime.as_str(),
        best.1.dimensions,
        best.1.file_size_bytes,
        best.0.as_str(),
        Some(thumb),
        None,
        None,
        Some(page.to_owned()),
        best.0.as_str(),
    );
    media.variants = variants;
    assert(media.variants.deep_view() =~= rv.map_values(|x: (Seq<char>, ProbeView)| probed_variant(x)));
    assert(rv[0] == (best.0@, best.1@));
    assert(rv.last() == (ranked@[ranked@.len() - 1].0@, ranked@[ranked@.len() - 1].1@));
    media
}

/// The metadata of a page scraped by plain request, from its candidates
/// and the probes of its image candidates.
pub fn assemble_scraped_page(
    page_url: &str,
    html: &str,
    title: &str,
    videos: &Vec<String>,
    probed: &Vec<(String, ProbedImageMeta)>,
) -> (r: Result<ExtractedMediaMetadata, ScrapeError>)
    ensures
        r matches Ok(m) ==> scraped_page(
            page_url@,
            html@,
            title@,
            videos.deep_view(),
            probed_views(probed@),
        ) == Ok::<MetadataView, ScrapeError>(m@),
        r matches Err(e) ==> scraped_page(
            page_url@,
            html@,
            title@,
            videos.deep_view(),
            probed_views(probed@),
        ) == Err::<MetadataView, ScrapeError>(e),
{
    let posters = extract_video_posters(page_url, html);
    let mut items = video_items(page_url, videos, &posters);
    let ranked = rank_images(probed);
    let ghost vi = items.deep_view();
    if ranked.len() > 0 {
        let master = build_image_master(page_url, &ranked);
        items.push(master);
        assert(items.deep_view() =~= vi + seq![image_master(page_url@, probed_views(ranked@))]);
    } else {
        assert(items.deep_view() =~= vi + Seq::<MediaItemView>::empty());
    }
    if items.len() == 0 {
        return Err(ScrapeError::NoMedia);
    }
    let host = page_host_name(page_url);
    let m = ExtractedMediaMetadata {
        platform: extract_site_name(host.as_str()),
        author: host,
        caption: title.to_owned(),
        post_text: extract_post_text(html),
        published_at: extract_published_time(html),
        tags: extract_tags(html),
        items,
        next_page_url: discover_next_page(page_url, html),
        discovered_post_urls: discover_post_links(page_url, html),
        embedded_player_urls: extract_embedded_players(page_url, html),
    };
    Ok(m)
}

/// Candidate lists without repeats and without a URL in both.
pub open spec fn well_kept(c: (Seq<Seq<char>>, Seq<Seq<char>>)) -> bool {
    &&& crate::links::no_repeats(c.0)
    &&& crate::links::no_repeats(c.1)
    &&& forall|i: int, j: int| 0 <= i < c.0.len() && 0 <= j < c.1.len() ==> c.0[i] != c.1[j]
}

proof fn lemma_add_video_kept(c: (Seq<Seq<char>>, Seq<Seq<char>>), x: Seq<char>)
    requires
        well_kept(c),
    ensures
        well_kept(add_video(c, x)),
{
    let d = add_video(c, x);
    if video_url(x) && !seen(c, x) {
        assert forall|i: int, j: int| 0 <= i < j < d.0.len() implies d.0[i] != d.0[j] by {
            if j == d.0.len() - 1 {
                assert(c.0[i] == d.0[i]);
            }
        }
        assert forall|i: int, j: int| 0 <= i < d.0.len() && 0 <= j < d.1.len() implies d.0[i] != d.1[j] by {
            if i == d.0.len() - 1 {
                assert(d.1[j] == c.1[j]);
            }
        }
    }
}

proof fn lemma_add_image_kept(c: (Seq<Seq<char>>, Seq<Seq<char>>), x: Seq<char>)
    requires
        well_kept(c),
    ensures
        well_kept(add_image(c, x)),
{
    let d = add_image(c, x);
    if !seen(c, x) {
        assert forall|i: int, j: int| 0 <= i < j < d.1.len() implies d.1[i] != d.1[j] by {
            if j == d.1.len() - 1 {
                assert(c.1[i] == d.1[i]);
            }
        }
        assert forall|i: int, j: int| 0 <= i < d.0.len() && 0 <= j < d.1.len() implies d.0[i] != d.1[j] by {
            if j == d.1.len() - 1 {
                assert(d.0[i] == c.0[i]);
            }
        }
    }
}

proof fn lemma_folds_kept(c: (Seq<Seq<char>>, Seq<Seq<char>>), page: Seq<char>, caps: Seq<Option<Seq<char>>>)
    requires
        well_kept(c),
    ensures
        well_kept(fold_videos(c, caps)),
        well_kept(fold_images(c, caps)),
        well_kept(fold_attrs(c, page, caps)),
        well_kept(fold_srcsets(c, page, caps)),
    decreases caps.len(),
{
    if caps.len() > 0 {
        lemma_folds_kept(c, page, caps.drop_last());
        match caps.last() {
            Some(m) => {
                lemma_add_video_kept(fold_videos(c, caps.drop_last()), normalized_url(m));
                lemma_add_image_kept(fold_images(c, caps.drop_last()), normalized_url(m));
                lemma_add_image_kept(fold_attrs(c, page, caps.drop_last()), resolved_link(page, trim(m, CharClass::Whitespace)));
                lemma_entries_kept(fold_srcsets(c, page, caps.drop_last()), page, split_on(m, ','));
            },
            None => {},
        }
    }
}

proof fn lemma_entries_kept(c: (Seq<Seq<char>>, Seq<Seq<char>>), page: Seq<char>, entries: Seq<Seq<char>>)
    requires
        well_kept(c),
    ensures
        well_kept(fold_entries(c, page, entries)),
    decreases entries.len(),
{
    if entries.len() > 0 {
        lemma_entries_kept(c, page, entries.drop_last());
        lemma_add_image_kept(fold_entries(c, page, entries.drop_last()), resolved_link(page, srcset_url(entries.last())));
    }
}

/// The media candidates of a page never repeat, and no URL is both a video
/// and an image candidate.
pub proof fn lemma_candidates_well_kept(page: Seq<char>, html: Seq<char>)
    ensures
        well_kept(page_candidates(page, html)),
{
    let e: (Seq<Seq<char>>, Seq<Seq<char>>) = (seq![], seq![]);
    lemma_folds_kept(e, page, regex_captures(VIDEO_RE@, 0, html));
    let a = fold_videos(e, regex_captures(VIDEO_RE@, 0, html));
    lemma_folds_kept(a, page, regex_captures(IMG_RE@, 0, html));
    let b = fold_images(a, regex_captures(IMG_RE@, 0, html));
    lemma_folds_kept(b, page, regex_captures(ATTR_RE@, 1, html));
    let c = fold_attrs(b, page, regex_captures(ATTR_RE@, 1, html));
    lemma_folds_kept(c, page, regex_captures(SRCSET_RE@, 1, html));
}

} // verus!
