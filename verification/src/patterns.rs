//! The regular expressions that find media, links and page metadata in
//! HTML, and what matching them yields. Matching is the `regex` crate's;
//! its result is named.
use vstd::prelude::*;

verus! {

/// Absolute or protocol-relative video URLs (`.m3u8`, `.mp4`, `.webm`),
/// slashes possibly escaped.
pub const VIDEO_RE: &'static str = "(?i)(?:https?:)?\\\\?/\\\\?/[^\"'\\s<>]+\\.(?:m3u8|mp4|webm)(?:[?&#][^\"'\\s<>]*)?";

/// Absolute or protocol-relative image URLs.
pub const IMG_RE: &'static str = "(?i)(?:https?:)?\\\\?/\\\\?/[^\"'\\s<>]+\\.(?:jpg|jpeg|png|pnj|webp|gif|avif)(?:[?&#][^\"'\\s<>]*)?";

/// Image source attributes (`src`, `data-src`, ...); group 1 is the value.
pub const ATTR_RE: &'static str = "(?i)(?:src|data-src|data-original|data-highres|data-image)=[\"']([^\"']+)[\"']";

/// Responsive `srcset` attributes; group 1 is the value.
pub const SRCSET_RE: &'static str = "(?i)(?:srcset|data-srcset)=[\"']([^\"']+)[\"']";

/// The page title; group 1.
pub const TITLE_RE: &'static str = "(?i)<title[^>]*>(.*?)</title>";

/// `<link rel="next" href="...">`; group 1 is the target.
pub const REL_NEXT_RE: &'static str = "(?i)<link\\s+[^>]*rel=[\"']next[\"'][^>]*href=[\"']([^\"']+)[\"']";

/// `<link href="..." rel="next">`; group 1 is the target.
pub const REL_NEXT_REV_RE: &'static str = "(?i)<link\\s+[^>]*href=[\"']([^\"']+)[\"'][^>]*rel=[\"']next[\"']";

/// An anchor marked as the next page by `rel` or `aria-label`; group 1.
pub const A_REL_NEXT_RE: &'static str = "(?i)<a\\s+[^>]*(?:rel=[\"']next[\"']|aria-label=[\"']Next(?: Page)?[\"'])[^>]*href=[\"']([^\"']+)[\"']";

/// An anchor whose class holds the word `next`; group 1.
pub const A_CLASS_NEXT_RE: &'static str = "(?i)<a\\s+[^>]*class=[\"'][^\"']*\\bnext\\b[^\"']*[\"'][^>]*href=[\"']([^\"']+)[\"']";

/// Anchor targets; group 1.
pub const ANCHOR_HREF_RE: &'static str = "(?i)<a\\s+[^>]*href=[\"']([^\"'#\\s]+)[\"']";

/// Paths that look like a single post.
pub const POST_PATH_RE: &'static str = "(?i)/(?:post|posts|p|entry|watch|video|thread|status|item|detail|article)/[a-zA-Z0-9_\\-\\.]+";

/// Embedded frames; group 1 is the source.
pub const IFRAME_SRC_RE: &'static str = "(?i)<iframe\\s+[^>]*(?:src|data-src)=[\"']([^\"']+)[\"']";

/// `<time datetime="...">`; group 1.
pub const TIME_RE: &'static str = "(?i)<time\\s+[^>]*datetime=[\"']([^\"']+)[\"']";

/// The description meta tags; group 1 is the content.
pub const META_DESC_RE: &'static str = "(?i)<meta\\s+[^>]*(?:name=[\"']description[\"']|property=[\"']og:description[\"'])[^>]*content=[\"']([^\"']+)[\"']";

/// Links to tag pages; group 1 is the tag.
pub const TAG_HREF_RE: &'static str = "(?i)<a\\s+[^>]*href=[\"'][^\"']*/(?:tag|tags)/([^\"'/?#]+)[\"'][^>]*>";

/// `<video poster="...">` or `data-poster`; group 1.
pub const VIDEO_POSTER_RE: &'static str = "(?i)<video[^>]*(?:poster|data-poster)=[\"']([^\"']+)[\"']";

/// `og:image` and `twitter:image` meta tags; group 1 is the content.
pub const META_POSTER_RE: &'static str = "(?i)<meta\\s+[^>]*(?:property=[\"'](?:og:image|og:image:url)[\"']|name=[\"'](?:twitter:image|thumbnail)[\"'])[^>]*content=[\"']([^\"']+)[\"']";

/// Player configuration thumbnails (`"poster": "..."` and the like); group 1.
pub const JSON_POSTER_RE: &'static str = "(?i)[\"'](?:poster|thumbnailUrl|thumbnail|preview_image)[\"']\\s*:\\s*[\"']([^\"']+)[\"']";

/// For each successive non-overlapping match of `pattern` in `text`, the
/// text of capture group `group` when it took part in the match (group 0
/// is the whole match); nothing when the pattern does not compile.
pub uninterp spec fn regex_captures(pattern: Seq<char>, group: nat, text: Seq<char>) -> Seq<
    Option<Seq<char>>,
>;

/// `regex::Regex::new(pattern)` then `Regex::captures_iter(text)`, group
/// `group` of each match: the result is named by `regex_captures`.
#[verifier::external_body]
pub(crate) fn captures_of(pattern: &str, group: usize, text: &str) -> (r: Vec<Option<String>>)
    ensures
        r.deep_view() == regex_captures(pattern@, group as nat, text@),
{
    match regex::Regex::new(pattern) {
        Ok(re) => re.captures_iter(text).map(|c| c.get(group).map(|m| m.as_str().to_string())).collect(),
        Err(_) => Vec::new(),
    }
}

/// The group of the first match, when there is one and the group took part.
pub open spec fn first_capture(pattern: Seq<char>, group: nat, text: Seq<char>) -> Option<Seq<char>> {
    let all = regex_captures(pattern, group, text);
    if all.len() > 0 {
        all[0]
    } else {
        None
    }
}

/// Whether the pattern matches somewhere in the text.
pub open spec fn regex_matches(pattern: Seq<char>, text: Seq<char>) -> bool {
    regex_captures(pattern, 0, text).len() > 0
}

/// The group of the first match.
pub fn first_capture_of(pattern: &str, group: usize, text: &str) -> (r: Option<String>)
    ensures
        r.deep_view() == first_capture(pattern@, group as nat, text@),
{
    let all = captures_of(pattern, group, text);
    if all.len() > 0 {
        crate::text::copy_opt(&all[0])
    } else {
        None
    }
}

/// Whether the pattern matches somewhere in the text.
pub fn is_match(pattern: &str, text: &str) -> (r: bool)
    ensures
        r == regex_matches(pattern@, text@),
{
    let all = captures_of(pattern, 0, text);
    all.len() > 0
}

} // verus!
