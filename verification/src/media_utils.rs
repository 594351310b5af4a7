//! Classifying media links by their URL: MIME guesses, video and image
//! candidates, a page's video posters, and pairing a video with its poster
//! image.
use vstd::prelude::*;

use crate::links::{add_unique, lemma_add_unique_no_repeats, no_repeats, normalize_scraped_url, normalized_url, push_unique, resolve_relative_url, resolved_link};
use crate::patterns::{captures_of, regex_captures, JSON_POSTER_RE, META_POSTER_RE, VIDEO_POSTER_RE};

use crate::text::{
    after_last, before_first, begins, char_vec, contains_lit, contains_seq, finishes, has_sub,
    is_prefix, is_suffix, lowercase, prefix_before, string_of, suffix_after, to_lower,
    trim_end, trim_end_class, CharClass,
};

verus! {

/// The image MIME type guessed from the lowercased URL.
pub open spec fn image_mime_for(url: Seq<char>) -> Seq<char> {
    let l = lowercase(url);
    if has_sub(l, ".png"@) || has_sub(l, ".pnj"@) {
        "image/png"@
    } else if has_sub(l, ".webp"@) {
        "image/webp"@
    } else if has_sub(l, ".gif"@) {
        "image/gif"@
    } else if has_sub(l, ".avif"@) {
        "image/avif"@
    } else {
        "image/jpeg"@
    }
}

/// Guesses an image MIME type from the URL, JPEG by default.
pub fn infer_image_mime(url: &str) -> (r: &'static str)
    ensures
        r@ == image_mime_for(url@),
{
    let lower = to_lower(url);
    let l = char_vec(lower.as_str());
    if contains_lit(&l, ".png") || contains_lit(&l, ".pnj") {
        "image/png"
    } else if contains_lit(&l, ".webp") {
        "image/webp"
    } else if contains_lit(&l, ".gif") {
        "image/gif"
    } else if contains_lit(&l, ".avif") {
        "image/avif"
    } else {
        "image/jpeg"
    }
}

/// The video MIME type guessed from the lowercased URL.
pub open spec fn video_mime_for(url: Seq<char>) -> Seq<char> {
    let l = lowercase(url);
    if has_sub(l, ".m3u8"@) {
        "application/x-mpegURL"@
    } else if has_sub(l, ".webm"@) && !has_sub(l, ".webmanifest"@) {
        "video/webm"@
    } else {
        "video/mp4"@
    }
}

/// Guesses a video MIME type from the URL, MP4 by default.
pub fn infer_video_mime(url: &str) -> (r: &'static str)
    ensures
        r@ == video_mime_for(url@),
{
    let lower = to_lower(url);
    let l = char_vec(lower.as_str());
    if contains_lit(&l, ".m3u8") {
        "application/x-mpegURL"
    } else if contains_lit(&l, ".webm") && !contains_lit(&l, ".webmanifest") {
        "video/webm"
    } else {
        "video/mp4"
    }
}

/// The lowercased URL names an HLS manifest, an MP4 or a WebM file.
pub open spec fn video_url(url: Seq<char>) -> bool {
    let l = lowercase(url);
    has_sub(l, ".m3u8"@) || has_sub(l, ".mp4"@) || has_sub(l, ".webm"@)
}

/// Whether the URL looks like a video.
pub fn is_video_url(url: &str) -> (r: bool)
    ensures
        r == video_url(url@),
{
    let lower = to_lower(url);
    let l = char_vec(lower.as_str());
    contains_lit(&l, ".m3u8") || contains_lit(&l, ".mp4") || contains_lit(&l, ".webm")
}

/// The URL (query dropped, lowercased) ends in a raster image extension, or
/// points at a known image host path; `data:` URIs never qualify.
pub open spec fn image_candidate(url: Seq<char>) -> bool {
    let l = lowercase(url);
    let clean = before_first(l, '?');
    if is_prefix("data:"@, l) {
        false
    } else {
        ||| is_suffix(".jpg"@, clean)
        ||| is_suffix(".jpeg"@, clean)
        ||| is_suffix(".png"@, clean)
        ||| is_suffix(".pnj"@, clean)
        ||| is_suffix(".webp"@, clean)
        ||| is_suffix(".gif"@, clean)
        ||| is_suffix(".avif"@, clean)
        ||| has_sub(l, "tumblr.com/"@)
        ||| has_sub(l, "/thumbnail/"@)
    }
}

/// Whether the URL is worth probing as an image.
pub fn is_image_candidate(url: &str) -> (r: bool)
    ensures
        r == image_candidate(url@),
{
    let lower = to_lower(url);
    let l = char_vec(lower.as_str());
    if begins(&l, "data:") {
        return false;
    }
    let clean = prefix_before(&l, '?');
    finishes(&clean, ".jpg") || finishes(&clean, ".jpeg") || finishes(&clean, ".png") || finishes(
        &clean,
        ".pnj",
    ) || finishes(&clean, ".webp") || finishes(&clean, ".gif") || finishes(&clean, ".avif")
        || contains_lit(&l, "tumblr.com/") || contains_lit(&l, "/thumbnail/")
}

/// The identifying stem of a URL: the file name without query, extension or
/// a trailing resolution marker (digits, `p`, `_`); nothing when that leaves
/// no character.
pub open spec fn url_stem(url: Seq<char>) -> Option<Seq<char>> {
    let path = before_first(url, '?');
    let filename = after_last(path, '/');
    let stem = before_first(filename, '.');
    let clean = trim_end(stem, CharClass::DigitPUnderscore);
    if clean.len() == 0 {
        None
    } else {
        Some(clean)
    }
}

/// The identifying stem of a URL.
fn extract_url_stem(url: &str) -> (r: Option<Vec<char>>)
    ensures
        r matches Some(v) ==> url_stem(url@) == Some(v@),
        r is None ==> url_stem(url@) is None,
{
    let u = char_vec(url);
    let path = prefix_before(&u, '?');
    let filename = suffix_after(&path, '/');
    let stem = prefix_before(&filename, '.');
    let clean = trim_end_class(&stem, &CharClass::DigitPUnderscore);
    if clean.len() == 0 {
        None
    } else {
        Some(clean)
    }
}

/// The number of bytes that UTF-8 takes for one character.
pub open spec fn utf8_width(c: char) -> nat {
    if (c as u32) < 0x80 {
        1
    } else if (c as u32) < 0x800 {
        2
    } else if (c as u32) < 0x10000 {
        3
    } else {
        4
    }
}

/// The length in bytes of the UTF-8 encoding of `s` (what `str::len` gives).
pub open spec fn utf8_len(s: Seq<char>) -> nat
    decreases s.len(),
{
    if s.len() == 0 {
        0
    } else {
        utf8_len(s.drop_last()) + utf8_width(s.last())
    }
}

/// Whether the UTF-8 encoding of `s` takes at least `n` bytes.
fn utf8_len_at_least(s: &Vec<char>, n: u64) -> (r: bool)
    requires
        n <= 1000,
    ensures
        r == (utf8_len(s@) >= n),
{
    if n == 0 {
        return true;
    }
    let mut total: u64 = 0;
    let mut i: usize = 0;
    while i < s.len()
        invariant
            i <= s.len(),
            total == utf8_len(s@.take(i as int)),
            total < n,
            n <= 1000,
        decreases s.len() - i,
    {
        assert(s@.take(i + 1).drop_last() =~= s@.take(i as int));
        let c = s[i] as u32;
        let w: u64 = if c < 0x80 {
            1
        } else if c < 0x800 {
            2
        } else if c < 0x10000 {
            3
        } else {
            4
        };
        total = total + w;
        i += 1;
        if total >= n {
            proof {
                lemma_utf8_len_prefix_mono(s@, i as int);
            }
            return true;
        }
    }
    assert(s@.take(s@.len() as int) =~= s@);
    false
}

proof fn lemma_utf8_len_prefix_mono(s: Seq<char>, i: int)
    requires
        0 <= i <= s.len(),
    ensures
        utf8_len(s.take(i)) <= utf8_len(s),
    decreases s.len() - i,
{
    if i < s.len() {
        lemma_utf8_len_prefix_mono(s, i + 1);
        assert(s.take(i + 1).drop_last() =~= s.take(i));
    } else {
        assert(s.take(i) =~= s);
    }
}

/// The first candidate image whose URL contains `token`.
pub open spec fn first_containing(cands: Seq<Seq<char>>, token: Seq<char>) -> Option<int> {
    if exists|k: int| 0 <= k < cands.len() && has_sub(#[trigger] cands[k], token) {
        Some(
            choose|k: int|
                0 <= k < cands.len() && has_sub(cands[k], token) && forall|j: int|
                    0 <= j < k ==> !has_sub(#[trigger] cands[j], token),
        )
    } else {
        None
    }
}

/// The poster that matches a video: the first candidate image whose URL
/// contains the video's stem, when the stem is at least four bytes long.
pub open spec fn matched_thumbnail(video_url: Seq<char>, cands: Seq<Seq<char>>) -> Option<int> {
    match url_stem(video_url) {
        Some(token) => if utf8_len(token) < 4 {
            None
        } else {
            first_containing(cands, token)
        },
        None => None,
    }
}

/// Correlates a video URL with discovered thumbnail images by matching the
/// identifying stem of the video's file name.
pub fn correlate_video_thumbnail<'a>(video_url: &str, candidate_images: &'a [String]) -> (r: Option<
    &'a String,
>)
    ensures
        r matches Some(s) ==> exists|k: int|
            matched_thumbnail(video_url@, candidate_images@.map_values(|c: String| c@)) == Some(k)
                && 0 <= k < candidate_images@.len() && *s == candidate_images@[k],
        r is None ==> matched_thumbnail(
            video_url@,
            candidate_images@.map_values(|c: String| c@),
        ) is None,
{
    let ghost cv = candidate_images@.map_values(|c: String| c@);
    let token = match extract_url_stem(video_url) {
        Some(t) => t,
        None => return None,
    };
    if !utf8_len_at_least(&token, 4) {
        return None;
    }
    let mut i: usize = 0;
    while i < candidate_images.len()
        invariant
            i <= candidate_images@.len(),
            cv == candidate_images@.map_values(|c: String| c@),
            url_stem(video_url@) == Some(token@),
            utf8_len(token@) >= 4,
            forall|j: int| 0 <= j < i ==> !has_sub(#[trigger] cv[j], token@),
        decreases candidate_images.len() - i,
    {
        let img = char_vec(candidate_images[i].as_str());
        if contains_seq(&img, &token) {
            proof {
                assert(has_sub(cv[i as int], token@));
                let k = choose|k: int|
                    0 <= k < cv.len() && has_sub(cv[k], token@) && forall|j: int|
                        0 <= j < k ==> !has_sub(#[trigger] cv[j], token@);
                assert(0 <= i < cv.len() && has_sub(cv[i as int], token@) && forall|j: int|
                    0 <= j < i ==> !has_sub(#[trigger] cv[j], token@));
                if k < i {
                    assert(!has_sub(cv[k], token@));
                } else if k > i {
                    assert(!has_sub(cv[i as int], token@));
                }
                assert(first_containing(cv, token@) == Some(i as int));
                assert(matched_thumbnail(video_url@, cv) == Some(i as int));
            }
            return Some(&candidate_images[i]);
        }
        i += 1;
    }
    proof {
        if exists|k: int| 0 <= k < cv.len() && has_sub(#[trigger] cv[k], token@) {
            let k = choose|k: int| 0 <= k < cv.len() && has_sub(#[trigger] cv[k], token@);
            assert(!has_sub(cv[k], token@));
        }
    }
    None
}

// ---------------------------------------------------------------------------
// Posters
// ---------------------------------------------------------------------------

/// Resolved poster links added to `acc` in order, each once.
pub open spec fn add_resolved(acc: Seq<Seq<char>>, base: Seq<char>, caps: Seq<Option<Seq<char>>>) -> Seq<Seq<char>>
    decreases caps.len(),
{
    if caps.len() == 0 {
        acc
    } else {
        let r = add_resolved(acc, base, caps.drop_last());
        match caps.last() {
            Some(m) => add_unique(r, resolved_link(base, m)),
            None => r,
        }
    }
}

/// Player-configuration thumbnails added to `acc`: those that, cleaned,
/// start with `http` or `/`, resolved, each once.
pub open spec fn add_json_posters(acc: Seq<Seq<char>>, base: Seq<char>, caps: Seq<Option<Seq<char>>>) -> Seq<Seq<char>>
    decreases caps.len(),
{
    if caps.len() == 0 {
        acc
    } else {
        let r = add_json_posters(acc, base, caps.drop_last());
        match caps.last() {
            Some(m) => {
                let clean = normalized_url(m);
                if is_prefix("http"@, clean) || is_prefix("/"@, clean) {
                    add_unique(r, resolved_link(base, clean))
                } else {
                    r
                }
            },
            None => r,
        }
    }
}

/// The video posters of a page: `<video poster>` attributes, then image
/// meta tags, then player-configuration thumbnails; resolved, each once.
pub open spec fn page_posters(base: Seq<char>, html: Seq<char>) -> Seq<Seq<char>> {
    add_json_posters(
        add_resolved(
            add_resolved(seq![], base, regex_captures(VIDEO_POSTER_RE@, 1, html)),
            base,
            regex_captures(META_POSTER_RE@, 1, html),
        ),
        base,
        regex_captures(JSON_POSTER_RE@, 1, html),
    )
}

/// Adds resolved links to `acc`.
fn collect_resolved(acc: &mut Vec<String>, base: &str, caps: &Vec<Option<String>>)
    ensures
        final(acc).deep_view() == add_resolved(old(acc).deep_view(), base@, caps.deep_view()),
{
    let ghost start = acc.deep_view();
    let ghost cv = caps.deep_view();
    let mut i: usize = 0;
    assert(cv.take(0) =~= Seq::<Option<Seq<char>>>::empty());
    while i < caps.len()
        invariant
            i <= caps@.len(),
            cv == caps.deep_view(),
            acc.deep_view() == add_resolved(start, base@, cv.take(i as int)),
        decreases caps.len() - i,
    {
        assert(cv.take(i + 1).drop_last() =~= cv.take(i as int));
        assert(cv.take(i + 1).last() == cv[i as int]);
        match &caps[i] {
            Some(m) => {
                let full = resolve_relative_url(base, m.as_str());
                push_unique(acc, full);
            },
            None => {},
        }
        i += 1;
    }
    assert(cv.take(cv.len() as int) =~= cv);
}

/// Adds the usable player-configuration thumbnails to `acc`.
fn collect_json_posters(acc: &mut Vec<String>, base: &str, caps: &Vec<Option<String>>)
    ensures
        final(acc).deep_view() == add_json_posters(old(acc).deep_view(), base@, caps.deep_view()),
{
    let ghost start = acc.deep_view();
    let ghost cv = caps.deep_view();
    let mut i: usize = 0;
    assert(cv.take(0) =~= Seq::<Option<Seq<char>>>::empty());
    while i < caps.len()
        invariant
            i <= caps@.len(),
            cv == caps.deep_view(),
            acc.deep_view() == add_json_posters(start, base@, cv.take(i as int)),
        decreases caps.len() - i,
    {
        assert(cv.take(i + 1).drop_last() =~= cv.take(i as int));
        assert(cv.take(i + 1).last() == cv[i as int]);
        match &caps[i] {
            Some(m) => {
                let clean = normalize_scraped_url(m.as_str());
                let cvv = char_vec(clean.as_str());
                if begins(&cvv, "http") || begins(&cvv, "/") {
                    let full = resolve_relative_url(base, clean.as_str());
                    push_unique(acc, full);
                }
            },
            None => {},
        }
        i += 1;
    }
    assert(cv.take(cv.len() as int) =~= cv);
}

/// Scans a page for video posters.
pub fn extract_video_posters(base_url: &str, html: &str) -> (r: Vec<String>)
    ensures
        r.deep_view() == page_posters(base_url@, html@),
{
    let mut posters: Vec<String> = Vec::new();
    assert(posters.deep_view() =~= Seq::<Seq<char>>::empty());
    let a = captures_of(VIDEO_POSTER_RE, 1, html);
    collect_resolved(&mut posters, base_url, &a);
    let b = captures_of(META_POSTER_RE, 1, html);
    collect_resolved(&mut posters, base_url, &b);
    let c = captures_of(JSON_POSTER_RE, 1, html);
    collect_json_posters(&mut posters, base_url, &c);
    posters
}

proof fn lemma_add_resolved_no_repeats(acc: Seq<Seq<char>>, base: Seq<char>, caps: Seq<Option<Seq<char>>>)
    requires
        no_repeats(acc),
    ensures
        no_repeats(add_resolved(acc, base, caps)),
    decreases caps.len(),
{
    if caps.len() > 0 {
        lemma_add_resolved_no_repeats(acc, base, caps.drop_last());
        match caps.last() {
            Some(m) => lemma_add_unique_no_repeats(add_resolved(acc, base, caps.drop_last()), resolved_link(base, m)),
            None => {},
        }
    }
}

proof fn lemma_add_json_posters_no_repeats(acc: Seq<Seq<char>>, base: Seq<char>, caps: Seq<Option<Seq<char>>>)
    requires
        no_repeats(acc),
    ensures
        no_repeats(add_json_posters(acc, base, caps)),
    decreases caps.len(),
{
    if caps.len() > 0 {
        lemma_add_json_posters_no_repeats(acc, base, caps.drop_last());
        match caps.last() {
            Some(m) => lemma_add_unique_no_repeats(
                add_json_posters(acc, base, caps.drop_last()),
                resolved_link(base, normalized_url(m)),
            ),
            None => {},
        }
    }
}

/// The video posters of a page never repeat.
pub proof fn lemma_posters_no_repeats(base: Seq<char>, html: Seq<char>)
    ensures
        no_repeats(page_posters(base, html)),
{
    let e: Seq<Seq<char>> = seq![];
    lemma_add_resolved_no_repeats(e, base, regex_captures(VIDEO_POSTER_RE@, 1, html));
    let a = add_resolved(e, base, regex_captures(VIDEO_POSTER_RE@, 1, html));
    lemma_add_resolved_no_repeats(a, base, regex_captures(META_POSTER_RE@, 1, html));
    let b = add_resolved(a, base, regex_captures(META_POSTER_RE@, 1, html));
    lemma_add_json_posters_no_repeats(b, base, regex_captures(JSON_POSTER_RE@, 1, html));
}

} // verus!
