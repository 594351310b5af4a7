//! Rules that reject what is not a fetchable media asset: other protocols,
//! non-media MIME types, stream segments, ad networks and page furniture.
use vstd::prelude::*;

use crate::models::{MediaItem, MediaItemView, MediaType};
use crate::text::{
    before_first, begins, char_vec, equals_lit, finishes, contains_lit, has_sub, is_prefix, is_suffix,
    lowercase, prefix_before, to_lower, trim, trim_ws, CharClass,
};

verus! {

/// The URL, trimmed and lowercased, uses `http://` or `https://`.
pub open spec fn valid_protocol(url: Seq<char>) -> bool {
    let l = lowercase(trim(url, CharClass::Whitespace));
    is_prefix("http://"@, l) || is_prefix("https://"@, l)
}

/// The lowercased MIME type is one of code, documents or analytics pings
/// (or a generic byte stream claimed for an image).
pub open spec fn rejected_mime(l: Seq<char>, media_type: MediaType) -> bool {
    ||| is_prefix("text/"@, l)
    ||| has_sub(l, "javascript"@)
    ||| has_sub(l, "json"@)
    ||| has_sub(l, "xml"@)
    ||| has_sub(l, "html"@)
    ||| (l == "application/octet-stream"@ && media_type == MediaType::Image)
}

/// The lowercased MIME type names image, video or audio content or a
/// streaming manifest.
pub open spec fn media_mime(l: Seq<char>) -> bool {
    ||| is_prefix("image/"@, l)
    ||| is_prefix("video/"@, l)
    ||| is_prefix("audio/"@, l)
    ||| l == "application/x-mpegurl"@
    ||| l == "application/vnd.apple.mpegurl"@
    ||| l == "application/dash+xml"@
}

/// The MIME type is accepted as media of the given kind.
pub open spec fn valid_media_mime(mime: Seq<char>, media_type: MediaType) -> bool {
    let l = lowercase(mime);
    !rejected_mime(l, media_type) && media_mime(l)
}

/// The path (query removed, lowercased) names a chunk of a segmented stream.
pub open spec fn segment_path(clean: Seq<char>) -> bool {
    ||| is_suffix(".ts"@, clean)
    ||| is_suffix(".m4s"@, clean)
    ||| is_suffix(".aac"@, clean)
    ||| has_sub(clean, "/segment_"@)
    ||| has_sub(clean, "/segment-"@)
    ||| has_sub(clean, "/frag_"@)
    ||| has_sub(clean, "/fragment-"@)
    ||| has_sub(clean, "-seg-"@)
    ||| has_sub(clean, "/range/"@)
}

/// The lowercased URL points at a known ad exchange.
pub open spec fn ad_host(l: Seq<char>) -> bool {
    ||| has_sub(l, "doubleclick.net"@)
    ||| has_sub(l, "googlesyndication.com"@)
    ||| has_sub(l, "adnxs.com"@)
    ||| has_sub(l, "/pagead/"@)
    ||| has_sub(l, "trafficjunky"@)
    ||| has_sub(l, "exoclick"@)
    ||| has_sub(l, "scorecardresearch.com"@)
}

/// The URL is a stream segment, a vector graphic or an ad.
pub open spec fn stream_segment_or_ad(url: Seq<char>) -> bool {
    let l = lowercase(url);
    let clean = before_first(l, '?');
    ||| segment_path(clean)
    ||| is_suffix(".svg"@, clean)
    ||| has_sub(l, "image/svg+xml"@)
    ||| ad_host(l)
}

/// The lowercased URL names a script, stylesheet or manifest.
pub open spec fn code_path(l: Seq<char>) -> bool {
    ||| has_sub(l, ".js?"@)
    ||| is_suffix(".js"@, l)
    ||| has_sub(l, ".css?"@)
    ||| is_suffix(".css"@, l)
    ||| has_sub(l, ".webmanifest"@)
    ||| has_sub(l, ".json"@)
}

/// The lowercased URL names an avatar, icon, badge or tracking pixel.
pub open spec fn furniture_path(l: Seq<char>) -> bool {
    ||| has_sub(l, "/avatar_"@)
    ||| has_sub(l, "/favicon"@)
    ||| has_sub(l, "thumb_"@)
    ||| has_sub(l, "-thumb."@)
    ||| has_sub(l, "_thumb."@)
    ||| has_sub(l, "thumbnail_"@)
    ||| has_sub(l, "badge_"@)
    ||| has_sub(l, "emoji/"@)
    ||| has_sub(l, "pixel.gif"@)
    ||| has_sub(l, "1x1."@)
    ||| has_sub(l, "/gsi/client"@)
    ||| has_sub(l, "accounts.google.com"@)
}

/// The URL names code or page furniture rather than media.
pub open spec fn junk_path(url: Seq<char>) -> bool {
    let l = lowercase(url);
    code_path(l) || furniture_path(l)
}

/// An item that the filters drop outright.
pub open spec fn junk_item(item: MediaItemView) -> bool {
    ||| !valid_protocol(item.high_res_url)
    ||| !valid_media_mime(item.mime_type, item.media_type)
    ||| stream_segment_or_ad(item.high_res_url)
    ||| junk_path(item.high_res_url)
}

/// Whether the URL uses a fetchable web protocol.
fn is_valid_protocol(url: &str) -> (r: bool)
    ensures
        r == valid_protocol(url@),
{
    let v = char_vec(url);
    let t = trim_ws(&v);
    let trimmed = crate::text::string_of(&t);
    let lower = to_lower(trimmed.as_str());
    let l = char_vec(lower.as_str());
    begins(&l, "http://") || begins(&l, "https://")
}

/// Whether the MIME type is accepted as media of the given kind.
fn is_valid_media_mime(mime: &str, media_type: MediaType) -> (r: bool)
    ensures
        r == valid_media_mime(mime@, media_type),
{
    let lower = to_lower(mime);
    let l = char_vec(lower.as_str());
    if begins(&l, "text/") || contains_lit(&l, "javascript") || contains_lit(&l, "json") || contains_lit(&l, "xml") || contains_lit(
        &l,
        "html",
    ) || (equals_lit(&l, "application/octet-stream") && media_type == MediaType::Image) {
        return false;
    }
    begins(&l, "image/") || begins(&l, "video/") || begins(&l, "audio/") || equals_lit(
        &l,
        "application/x-mpegurl",
    ) || equals_lit(&l, "application/vnd.apple.mpegurl") || equals_lit(&l, "application/dash+xml")
}

/// Whether the URL is a transport chunk of a segmented stream, a vector UI
/// graphic, or served by a known ad exchange.
pub fn is_stream_segment_or_ad(url: &str) -> (r: bool)
    ensures
        r == stream_segment_or_ad(url@),
{
    let lower = to_lower(url);
    let l = char_vec(lower.as_str());
    let clean = prefix_before(&l, '?');
    if finishes(&clean, ".ts") || finishes(&clean, ".m4s") || finishes(&clean, ".aac") || contains_lit(
        &clean,
        "/segment_",
    ) || contains_lit(&clean, "/segment-") || contains_lit(&clean, "/frag_") || contains_lit(&clean, "/fragment-") || contains_lit(
        &clean,
        "-seg-",
    ) || contains_lit(&clean, "/range/") {
        return true;
    }
    if finishes(&clean, ".svg") || contains_lit(&l, "image/svg+xml") {
        return true;
    }
    contains_lit(&l, "doubleclick.net") || contains_lit(&l, "googlesyndication.com") || contains_lit(&l, "adnxs.com") || contains_lit(
        &l,
        "/pagead/",
    ) || contains_lit(&l, "trafficjunky") || contains_lit(&l, "exoclick") || contains_lit(&l, "scorecardresearch.com")
}

/// Whether the URL names code, a manifest, or page furniture.
fn is_junk_path(url: &str) -> (r: bool)
    ensures
        r == junk_path(url@),
{
    let lower = to_lower(url);
    let l = char_vec(lower.as_str());
    if contains_lit(&l, ".js?") || finishes(&l, ".js") || contains_lit(&l, ".css?") || finishes(&l, ".css") || contains_lit(
        &l,
        ".webmanifest",
    ) || contains_lit(&l, ".json") {
        return true;
    }
    contains_lit(&l, "/avatar_") || contains_lit(&l, "/favicon") || contains_lit(&l, "thumb_") || contains_lit(&l, "-thumb.") || contains_lit(
        &l,
        "_thumb.",
    ) || contains_lit(&l, "thumbnail_") || contains_lit(&l, "badge_") || contains_lit(&l, "emoji/") || contains_lit(&l, "pixel.gif")
        || contains_lit(&l, "1x1.") || contains_lit(&l, "/gsi/client") || contains_lit(&l, "accounts.google.com")
}

/// Whether an item has a non-web protocol, a non-media MIME type, is a
/// stream segment or an ad, or names page furniture.
pub fn is_junk_item(item: &MediaItem) -> (r: bool)
    ensures
        r == junk_item(item@),
{
    if !is_valid_protocol(item.high_res_url.as_str()) {
        return true;
    }
    if !is_valid_media_mime(item.mime_type.as_str(), item.media_type) {
        return true;
    }
    if is_stream_segment_or_ad(item.high_res_url.as_str()) {
        return true;
    }
    is_junk_path(item.high_res_url.as_str())
}


/// The URL's path, lowercased and without its query, ends in `.ts`,
/// `.m4s` or `.aac`: a chunk of a segmented stream.
pub open spec fn chunk_url(url: Seq<char>) -> bool {
    let path = before_first(lowercase(url), '?');
    is_suffix(".ts"@, path) || is_suffix(".m4s"@, path) || is_suffix(".aac"@, path)
}

/// Every URL whose path ends in `.ts`, `.m4s` or `.aac` is a stream
/// segment, and an item whose main URL is one is junk.
pub proof fn lemma_chunks_are_junk(item: MediaItemView)
    ensures
        chunk_url(item.high_res_url) ==> stream_segment_or_ad(item.high_res_url),
        chunk_url(item.high_res_url) ==> junk_item(item),
{
}

} // verus!
