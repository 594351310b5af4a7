//! Instagram pages: which kind of page a URL is, the API requests it takes,
//! and the metadata built from each API payload (a post from the mobile or
//! the GraphQL API, a highlight, a story tray or item, a profile feed).
use vstd::prelude::*;

use crate::config::DownloaderConfig;
use crate::instagram::{
    extract_shortcode, ig_graphql_item, ig_media_item, parse_graphql_node, parse_media_item,
    rfc3339_utc, shortcode_of, url_path_segments, url_segments, ShortcodeError,
};
use crate::json::{json_at, json_get, json_i64, json_pointer, json_str, opt_array, opt_get, opt_str, JsonValue};
use crate::models::{ExtractedMediaMetadata, MediaItem, MediaItemView, MetadataView};
use crate::page::{extract_hashtags_from_text, text_hashtags};
use crate::text::{
    after_last, before_first, char_vec, concat, concat3, contains_lit, copy_string, equals_lit,
    has_sub, split_on, string_of, suffix_after, trim, CharClass,
};

verus! {

/// Why an Instagram page gives no metadata.
#[derive(Debug, Clone, Copy, PartialEq, Eq, Structural)]
pub enum IgError {
    /// Stories need a downloader configuration.
    MissingConfig,
    /// The configuration has no session cookie.
    MissingCookie,
    /// The configuration has no CSRF token.
    MissingCsrfToken,
    /// A post URL without a shortcode.
    NoShortcode,
    /// The mobile payload has no first item.
    NoMediaItem,
    /// No media item could be read from a post.
    NoParsedItems,
    /// The GraphQL payload has no `data.xdt_shortcode_media`.
    MissingGraphqlMedia,
    /// No media item could be read from a GraphQL post.
    NoGraphqlItems,
    /// A highlight with no items.
    EmptyHighlight,
    /// A URL that does not parse.
    InvalidUrl,
    /// A profile URL without a usable user name.
    NoUsername,
    /// A feed payload without an `items` array.
    NoFeedItems,
    /// A feed payload with an empty `items` array.
    EmptyFeed,
    /// A story URL without a `stories` segment.
    InvalidStoryUrl,
    /// A story URL without a user name after `stories`.
    MissingStoryUsername,
    /// A story tray with no items.
    NoActiveStories,
    /// A story item payload without a first item.
    StoryItemNotFound,
    /// Neither the profile page nor the search names the user's id.
    UnresolvedUserId,
}

// ---------------------------------------------------------------------------
// Routing and credentials
// ---------------------------------------------------------------------------

/// The kinds of Instagram pages.
#[derive(Debug)]
pub enum IgRoute {
    /// A story highlight (needs a session).
    Highlight,
    /// A user's stories or one story item (needs a session).
    Story,
    /// A post, reel or carousel, by shortcode.
    Post(String),
    /// A profile grid.
    Profile,
}

/// What kind of page a URL is: stories (`/stories/`, highlights under
/// `/stories/highlights/`), then posts (`/p/`, `/reel/`, `/reels/`, which
/// need a shortcode), else a profile.
pub open spec fn ig_route_of(url: Seq<char>) -> Result<IgRouteView, IgError> {
    if has_sub(url, "/stories/"@) {
        if has_sub(url, "/stories/highlights/"@) {
            Ok(IgRouteView::Highlight)
        } else {
            Ok(IgRouteView::Story)
        }
    } else if has_sub(url, "/p/"@) || has_sub(url, "/reel/"@) || has_sub(url, "/reels/"@) {
        match shortcode_of(url) {
            Some(code) => Ok(IgRouteView::Post(code)),
            None => Err(IgError::NoShortcode),
        }
    } else {
        Ok(IgRouteView::Profile)
    }
}

/// A route seen as plain values.
pub enum IgRouteView {
    Highlight,
    Story,
    Post(Seq<char>),
    Profile,
}

impl View for IgRoute {
    type V = IgRouteView;

    open spec fn view(&self) -> IgRouteView {
        match self {
            IgRoute::Highlight => IgRouteView::Highlight,
            IgRoute::Story => IgRouteView::Story,
            IgRoute::Post(code) => IgRouteView::Post(code@),
            IgRoute::Profile => IgRouteView::Profile,
        }
    }
}

/// The kind of an Instagram page.
pub fn ig_route(url: &str) -> (r: Result<IgRoute, IgError>)
    ensures
        r matches Ok(x) ==> ig_route_of(url@) == Ok::<IgRouteView, IgError>(x@),
        r matches Err(e) ==> ig_route_of(url@) == Err::<IgRouteView, IgError>(e),
{
    let v = char_vec(url);
    if contains_lit(&v, "/stories/") {
        if contains_lit(&v, "/stories/highlights/") {
            return Ok(IgRoute::Highlight);
        }
        return Ok(IgRoute::Story);
    }
    if contains_lit(&v, "/p/") || contains_lit(&v, "/reel/") || contains_lit(&v, "/reels/") {
        return match extract_shortcode(url) {
            Some(code) => Ok(IgRoute::Post(code)),
            None => Err(IgError::NoShortcode),
        };
    }
    Ok(IgRoute::Profile)
}

/// The session cookie and CSRF token of a configuration, both required.
pub fn auth_credentials(cfg: &DownloaderConfig) -> (r: Result<(String, String), IgError>)
    ensures
        cfg.ig_cookie is None ==> r == Err::<(String, String), IgError>(IgError::MissingCookie),
        cfg.ig_cookie is Some && cfg.ig_csrf_token is None ==> r == Err::<(String, String), IgError>(
            IgError::MissingCsrfToken,
        ),
        r matches Ok(p) ==> cfg.ig_cookie == Some(p.0) && cfg.ig_csrf_token == Some(p.1),
        cfg.ig_cookie is Some && cfg.ig_csrf_token is Some ==> r is Ok,
{
    let cookie = match &cfg.ig_cookie {
        Some(c) => c.clone(),
        None => return Err(IgError::MissingCookie),
    };
    let csrf = match &cfg.ig_csrf_token {
        Some(c) => c.clone(),
        None => return Err(IgError::MissingCsrfToken),
    };
    Ok((cookie, csrf))
}

// ---------------------------------------------------------------------------
// Shared pieces of the metadata
// ---------------------------------------------------------------------------

/// The nodes of an item: its `carousel_media` array, or the item itself.
pub open spec fn nodes_of(item: JsonValue) -> Seq<JsonValue> {
    match opt_array(json_get(item, "carousel_media"@)) {
        Some(a) => a,
        None => seq![item],
    }
}

/// The media items that can be read from mobile-API nodes, in order.
pub open spec fn parsed_items(nodes: Seq<JsonValue>) -> Seq<MediaItemView>
    decreases nodes.len(),
{
    if nodes.len() == 0 {
        seq![]
    } else {
        let r = parsed_items(nodes.drop_last());
        match ig_media_item(nodes.last()) {
            Some(x) => r.push(x),
            None => r,
        }
    }
}

/// The string of an optional value, or a default.
pub open spec fn str_or(v: Option<JsonValue>, default: Seq<char>) -> Seq<char> {
    match opt_str(v) {
        Some(s) => s,
        None => default,
    }
}

/// The publication time of an epoch-seconds value.
pub open spec fn published(v: Option<JsonValue>) -> Option<Seq<char>> {
    match v {
        Some(t) => match json_i64(t) {
            Some(n) => rfc3339_utc(n as int),
            None => None,
        },
        None => None,
    }
}

/// Instagram metadata with the given parts and no embedded players.
pub open spec fn ig_metadata(
    author: Seq<char>,
    caption: Seq<char>,
    post_text: Option<Seq<char>>,
    published_at: Option<Seq<char>>,
    tags: Seq<Seq<char>>,
    items: Seq<MediaItemView>,
    next_page_url: Option<Seq<char>>,
    discovered: Seq<Seq<char>>,
) -> MetadataView {
    MetadataView {
        platform: "instagram"@,
        author,
        caption,
        post_text,
        published_at,
        tags,
        items,
        next_page_url,
        discovered_post_urls: discovered,
        embedded_player_urls: seq![],
    }
}

/// Appends the items readable from mobile-API nodes.
fn push_parsed(items: &mut Vec<MediaItem>, nodes: &Vec<JsonValue>)
    ensures
        final(items).deep_view() == old(items).deep_view() + parsed_items(nodes@),
{
    let ghost start = items.deep_view();
    let mut i: usize = 0;
    assert(nodes@.take(0) =~= Seq::<JsonValue>::empty());
    assert(start + parsed_items(Seq::<JsonValue>::empty()) =~= start);
    while i < nodes.len()
        invariant
            i <= nodes@.len(),
            items.deep_view() == start + parsed_items(nodes@.take(i as int)),
        decreases nodes.len() - i,
    {
        assert(nodes@.take(i + 1).drop_last() =~= nodes@.take(i as int));
        assert(nodes@.take(i + 1).last() == nodes@[i as int]);
        let ghost before = items.deep_view();
        match parse_media_item(&nodes[i]) {
            Some(m) => {
                items.push(m);
                assert(items.deep_view() =~= before.push(ig_media_item(nodes@[i as int]).unwrap()));
            },
            None => {},
        }
        i += 1;
    }
    assert(nodes@.take(nodes@.len() as int) =~= nodes@);
}

/// Appends the items readable from an item's nodes.
fn push_item_nodes(items: &mut Vec<MediaItem>, item: &JsonValue)
    ensures
        final(items).deep_view() == old(items).deep_view() + parsed_items(nodes_of(*item)),
{
    match item.array_field("carousel_media") {
        Some(arr) => push_parsed(items, arr),
        None => {
            let ghost before = items.deep_view();
            assert(seq![*item].drop_last() =~= Seq::<JsonValue>::empty());
            assert(seq![*item].last() == *item);
            assert(parsed_items(seq![*item].drop_last()) =~= Seq::<MediaItemView>::empty());
            match parse_media_item(item) {
                Some(m) => {
                    items.push(m);
                    assert(items.deep_view() =~= before + parsed_items(seq![*item]));
                },
                None => {
                    assert(items.deep_view() =~= before + parsed_items(seq![*item]));
                },
            }
        },
    }
}

/// The string at a pointer, or a default.
fn pointer_str_or(v: &JsonValue, ptr: &str, default: &str) -> (r: String)
    ensures
        r@ == str_or(json_pointer(*v, ptr@), default@),
{
    match v.pointer(ptr) {
        Some(x) => match x.as_str() {
            Some(s) => s.to_owned(),
            None => default.to_owned(),
        },
        None => default.to_owned(),
    }
}

/// The publication time under `key`.
fn published_field(v: &JsonValue, key: &str) -> (r: Option<String>)
    ensures
        r.deep_view() == published(json_get(*v, key@)),
{
    match v.get(key) {
        Some(t) => match t.as_i64() {
            Some(n) => crate::instagram::format_epoch_timestamp(n),
            None => None,
        },
        None => None,
    }
}

// ---------------------------------------------------------------------------
// Posts
// ---------------------------------------------------------------------------

/// A post from the mobile API: its first item; the author at
/// `/user/username` ("unknown" when absent); the caption at
/// `/caption/text` (empty when absent), also the post text, whose hashtags
/// are the tags; the time from `taken_at`; the items of its nodes, at least
/// one.
pub open spec fn mobile_post(payload: JsonValue) -> Result<MetadataView, IgError> {
    let first = match json_get(payload, "items"@) {
        Some(a) => json_at(a, 0),
        None => None,
    };
    match first {
        None => Err(IgError::NoMediaItem),
        Some(item) => {
            let caption = str_or(json_pointer(item, "/caption/text"@), ""@);
            let items = parsed_items(nodes_of(item));
            if items.len() == 0 {
                Err(IgError::NoParsedItems)
            } else {
                Ok(
                    ig_metadata(
                        str_or(json_pointer(item, "/user/username"@), "unknown"@),
                        caption,
                        Some(caption),
                        published(json_get(item, "taken_at"@)),
                        text_hashtags(caption),
                        items,
                        None,
                        seq![],
                    ),
                )
            }
        },
    }
}

/// The metadata of a post from its mobile-API payload.
pub fn mobile_post_metadata(payload: &JsonValue) -> (r: Result<ExtractedMediaMetadata, IgError>)
    ensures
        r matches Ok(m) ==> mobile_post(*payload) == Ok::<MetadataView, IgError>(m@),
        r matches Err(e) ==> mobile_post(*payload) == Err::<MetadataView, IgError>(e),
{
    let item = match payload.get("items") {
        Some(a) => match a.at(0) {
            Some(x) => x,
            None => return Err(IgError::NoMediaItem),
        },
        None => return Err(IgError::NoMediaItem),
    };
    let author = pointer_str_or(item, "/user/username", "unknown");
    let caption = pointer_str_or(item, "/caption/text", "");
    let tags = extract_hashtags_from_text(caption.as_str());
    let mut items: Vec<MediaItem> = Vec::new();
    push_item_nodes(&mut items, item);
    assert(items.deep_view() =~= parsed_items(nodes_of(*item)));
    if items.len() == 0 {
        return Err(IgError::NoParsedItems);
    }
    let published_at = published_field(item, "taken_at");
    let m = ExtractedMediaMetadata {
        platform: "instagram".to_owned(),
        author,
        caption: copy_string(&caption),
        post_text: Some(caption),
        published_at,
        tags,
        items,
        next_page_url: None,
        discovered_post_urls: Vec::new(),
        embedded_player_urls: Vec::new(),
    };
    assert(m.discovered_post_urls.deep_view() =~= Seq::<Seq<char>>::empty());
    assert(m.embedded_player_urls.deep_view() =~= Seq::<Seq<char>>::empty());
    Ok(m)
}

/// The GraphQL items of a post: one per child edge with a `node` when the
/// post has `edge_sidecar_to_children.edges`, else the post's own.
pub open spec fn graphql_items(media: JsonValue) -> Seq<MediaItemView> {
    match opt_array(json_pointer(media, "/edge_sidecar_to_children/edges"@)) {
        Some(edges) => edge_items(edges),
        None => match ig_graphql_item(media) {
            Some(x) => seq![x],
            None => seq![],
        },
    }
}

/// The items of the nodes of GraphQL edges, in order.
pub open spec fn edge_items(edges: Seq<JsonValue>) -> Seq<MediaItemView>
    decreases edges.len(),
{
    if edges.len() == 0 {
        seq![]
    } else {
        let r = edge_items(edges.drop_last());
        match json_get(edges.last(), "node"@) {
            Some(node) => match ig_graphql_item(node) {
                Some(x) => r.push(x),
                None => r,
            },
            None => r,
        }
    }
}

/// The time of a GraphQL post: `taken_at_timestamp`, else `taken_at`.
pub open spec fn graphql_time(media: JsonValue) -> Option<Seq<char>> {
    match json_get(media, "taken_at_timestamp"@) {
        Some(t) => published(Some(t)),
        None => published(json_get(media, "taken_at"@)),
    }
}

/// A post from the public GraphQL API: the media at
/// `/data/xdt_shortcode_media`; the author at `/owner/username`; the
/// caption at `/edge_media_to_caption/edges/0/node/text`; its items, at
/// least one.
pub open spec fn graphql_post(payload: JsonValue) -> Result<MetadataView, IgError> {
    match json_pointer(payload, "/data/xdt_shortcode_media"@) {
        None => Err(IgError::MissingGraphqlMedia),
        Some(media) => {
            let caption = str_or(json_pointer(media, "/edge_media_to_caption/edges/0/node/text"@), ""@);
            let items = graphql_items(media);
            if items.len() == 0 {
                Err(IgError::NoGraphqlItems)
            } else {
                Ok(
                    ig_metadata(
                        str_or(json_pointer(media, "/owner/username"@), "unknown"@),
                        caption,
                        Some(caption),
                        graphql_time(media),
                        text_hashtags(caption),
                        items,
                        None,
                        seq![],
                    ),
                )
            }
        },
    }
}

/// The items of GraphQL edges.
fn read_edge_items(edges: &Vec<JsonValue>) -> (r: Vec<MediaItem>)
    ensures
        r.deep_view() == edge_items(edges@),
{
    let mut out: Vec<MediaItem> = Vec::new();
    let mut i: usize = 0;
    while i < edges.len()
        invariant
            i <= edges@.len(),
            out.deep_view() == edge_items(edges@.take(i as int)),
        decreases edges.len() - i,
    {
        assert(edges@.take(i + 1).drop_last() =~= edges@.take(i as int));
        assert(edges@.take(i + 1).last() == edges@[i as int]);
        let ghost before = out.deep_view();
        match edges[i].get("node") {
            Some(node) => match parse_graphql_node(node) {
                Some(m) => {
                    out.push(m);
                    assert(out.deep_view() =~= before.push(ig_graphql_item(*node).unwrap()));
                },
                None => {},
            },
            None => {},
        }
        i += 1;
    }
    assert(edges@.take(edges@.len() as int) =~= edges@);
    out
}

/// The metadata of a post from its GraphQL payload.
pub fn graphql_post_metadata(payload: &JsonValue) -> (r: Result<ExtractedMediaMetadata, IgError>)
    ensures
        r matches Ok(m) ==> graphql_post(*payload) == Ok::<MetadataView, IgError>(m@),
        r matches Err(e) ==> graphql_post(*payload) == Err::<MetadataView, IgError>(e),
{
    let media = match payload.pointer("/data/xdt_shortcode_media") {
        Some(m) => m,
        None => return Err(IgError::MissingGraphqlMedia),
    };
    let author = pointer_str_or(media, "/owner/username", "unknown");
    let caption = pointer_str_or(media, "/edge_media_to_caption/edges/0/node/text", "");
    let tags = extract_hashtags_from_text(caption.as_str());
    let items = match media.pointer("/edge_sidecar_to_children/edges") {
        Some(e) => match e.as_array() {
            Some(edges) => read_edge_items(edges),
            None => own_graphql_item(media),
        },
        None => own_graphql_item(media),
    };
    if items.len() == 0 {
        return Err(IgError::NoGraphqlItems);
    }
    let published_at = match media.get("taken_at_timestamp") {
        Some(t) => match t.as_i64() {
            Some(n) => crate::instagram::format_epoch_timestamp(n),
            None => None,
        },
        None => published_field(media, "taken_at"),
    };
    let m = ExtractedMediaMetadata {
        platform: "instagram".to_owned(),
        author,
        caption: copy_string(&caption),
        post_text: Some(caption),
        published_at,
        tags,
        items,
        next_page_url: None,
        discovered_post_urls: Vec::new(),
        embedded_player_urls: Vec::new(),
    };
    assert(m.discovered_post_urls.deep_view() =~= Seq::<Seq<char>>::empty());
    assert(m.embedded_player_urls.deep_view() =~= Seq::<Seq<char>>::empty());
    Ok(m)
}

/// The post's own GraphQL item, when it has one.
fn own_graphql_item(media: &JsonValue) -> (r: Vec<MediaItem>)
    ensures
        r.deep_view() == (match ig_graphql_item(*media) {
            Some(x) => seq![x],
            None => Seq::<MediaItemView>::empty(),
        }),
{
    let mut out: Vec<MediaItem> = Vec::new();
    match parse_graphql_node(media) {
        Some(m) => {
            out.push(m);
            assert(out.deep_view() =~= seq![ig_graphql_item(*media).unwrap()]);
        },
        None => {
            assert(out.deep_view() =~= Seq::<MediaItemView>::empty());
        },
    }
    out
}

// ---------------------------------------------------------------------------
// Request URLs
// ---------------------------------------------------------------------------

/// The mobile API URL of a media id.
pub open spec fn media_info_url(media_id: Seq<char>) -> Seq<char> {
    "https://www.instagram.com/api/v1/media/"@ + media_id + "/info/"@
}

/// The mobile API URL of a numeric media id.
pub fn media_info_url_of(media_id: u128) -> (r: String)
    ensures
        r@ == media_info_url(crate::text::decimal(media_id as nat)),
{
    let d = crate::text::decimal_string_wide(media_id);
    concat3("https://www.instagram.com/api/v1/media/", d.as_str(), "/info/")
}

/// The mobile API URL of a story item.
pub fn story_item_url(media_pk: &str) -> (r: String)
    ensures
        r@ == media_info_url(media_pk@),
{
    concat3("https://www.instagram.com/api/v1/media/", media_pk, "/info/")
}

/// The public GraphQL URL of a shortcode.
pub open spec fn graphql_url(shortcode: Seq<char>) -> Seq<char> {
    "https://www.instagram.com/graphql/query/?doc_id=10015901848480474&variables=%7B%22shortcode%22%3A%22"@
        + shortcode + "%22%7D"@
}

/// Builds `graphql_url`.
pub fn graphql_url_of(shortcode: &str) -> (r: String)
    ensures
        r@ == graphql_url(shortcode@),
{
    concat3(
        "https://www.instagram.com/graphql/query/?doc_id=10015901848480474&variables=%7B%22shortcode%22%3A%22",
        shortcode,
        "%22%7D",
    )
}

/// The page of a post, sent as referer to the GraphQL API.
pub open spec fn post_page(shortcode: Seq<char>) -> Seq<char> {
    "https://www.instagram.com/p/"@ + shortcode + "/"@
}

/// Builds `post_page`.
pub fn post_page_of(shortcode: &str) -> (r: String)
    ensures
        r@ == post_page(shortcode@),
{
    concat3("https://www.instagram.com/p/", shortcode, "/")
}

/// The reels API URL of a reel id (a user id or `highlight:{id}`).
pub open spec fn reels_url(reel_id: Seq<char>) -> Seq<char> {
    "https://www.instagram.com/api/v1/feed/reels_media/?reel_ids="@ + reel_id
}

/// Builds `reels_url`.
pub fn reels_url_of(reel_id: &str) -> (r: String)
    ensures
        r@ == reels_url(reel_id@),
{
    concat("https://www.instagram.com/api/v1/feed/reels_media/?reel_ids=", reel_id)
}

/// A user's profile page.
pub open spec fn profile_url(username: Seq<char>) -> Seq<char> {
    "https://www.instagram.com/"@ + username + "/"@
}

/// Builds `profile_url`.
pub fn profile_url_of(username: &str) -> (r: String)
    ensures
        r@ == profile_url(username@),
{
    concat3("https://www.instagram.com/", username, "/")
}

/// The user search URL of a name.
pub open spec fn search_url(username: Seq<char>) -> Seq<char> {
    "https://www.instagram.com/api/v1/web/search/topsearch/?query="@ + username
}

/// Builds `search_url`.
pub fn search_url_of(username: &str) -> (r: String)
    ensures
        r@ == search_url(username@),
{
    concat("https://www.instagram.com/api/v1/web/search/topsearch/?query=", username)
}

// ---------------------------------------------------------------------------
// Highlights
// ---------------------------------------------------------------------------

/// The id of a highlight: the last path segment of its URL without query
/// and outer slashes.
pub open spec fn highlight_id(url: Seq<char>) -> Seq<char> {
    after_last(trim(before_first(url, '?'), CharClass::Only('/')), '/')
}

/// The reel id of a highlight.
pub open spec fn highlight_reel(id: Seq<char>) -> Seq<char> {
    "highlight:"@ + id
}

/// The highlight id of a URL and its reel id.
pub fn highlight_ids(url: &str) -> (r: (String, String))
    ensures
        r.0@ == highlight_id(url@),
        r.1@ == highlight_reel(r.0@),
{
    let v = char_vec(url);
    let c = crate::text::prefix_before(&v, '?');
    let t = crate::text::trim_class(&c, &CharClass::Only('/'));
    let id = string_of(&suffix_after(&t, '/'));
    let reel = concat("highlight:", id.as_str());
    (id, reel)
}

/// The items of a reel in a reels payload, `reels.{reel}.items`, none when
/// absent.
pub open spec fn reel_items(payload: JsonValue, reel_id: Seq<char>) -> Seq<JsonValue> {
    match opt_array(opt_get(opt_get(json_get(payload, "reels"@), reel_id), "items"@)) {
        Some(a) => a,
        None => seq![],
    }
}

/// Reads `reel_items`.
fn reel_items_of<'a>(payload: &'a JsonValue, reel_id: &str) -> (r: Option<&'a Vec<JsonValue>>)
    ensures
        r.is_some() == (reel_items(*payload, reel_id@).len() > 0),
        r.is_some() ==> r.unwrap()@ == reel_items(*payload, reel_id@),
{
    match payload.get("reels") {
        Some(reels) => match reels.get(reel_id) {
            Some(t) => match t.array_field("items") {
                Some(a) => if a.len() > 0 {
                    Some(a)
                } else {
                    None
                },
                None => None,
            },
            None => None,
        },
        None => None,
    }
}

/// A highlight: the items of its reel, at least one entry; the owner at
/// `/reels/{reel}/user/username` ("instagram_user" when absent); the time
/// of its first entry; captioned "Highlight {id}".
pub open spec fn highlight_page(payload: JsonValue, id: Seq<char>) -> Result<MetadataView, IgError> {
    let reel = highlight_reel(id);
    let raw = reel_items(payload, reel);
    if raw.len() == 0 {
        Err(IgError::EmptyHighlight)
    } else {
        Ok(
            ig_metadata(
                str_or(json_pointer(payload, "/reels/"@ + reel + "/user/username"@), "instagram_user"@),
                "Highlight "@ + id,
                None,
                published(json_get(raw[0], "taken_at"@)),
                seq![],
                parsed_items(raw),
                None,
                seq![],
            ),
        )
    }
}

/// The metadata of a highlight from its reels payload.
pub fn highlight_metadata(payload: &JsonValue, highlight_id: &str) -> (r: Result<
    ExtractedMediaMetadata,
    IgError,
>)
    ensures
        r matches Ok(m) ==> highlight_page(*payload, highlight_id@) == Ok::<MetadataView, IgError>(m@),
        r matches Err(e) ==> highlight_page(*payload, highlight_id@) == Err::<MetadataView, IgError>(e),
{
    let reel = concat("highlight:", highlight_id);
    let raw = match reel_items_of(payload, reel.as_str()) {
        Some(a) => a,
        None => return Err(IgError::EmptyHighlight),
    };
    let ptr = concat3("/reels/", reel.as_str(), "/user/username");
    let user_name = pointer_str_or(payload, ptr.as_str(), "instagram_user");
    let mut items: Vec<MediaItem> = Vec::new();
    push_parsed(&mut items, raw);
    assert(items.deep_view() =~= parsed_items(raw@));
    let published_at = published_field(&raw[0], "taken_at");
    let m = ExtractedMediaMetadata {
        platform: "instagram".to_owned(),
        author: user_name,
        caption: concat("Highlight ", highlight_id),
        post_text: None,
        published_at,
        tags: Vec::new(),
        items,
        next_page_url: None,
        discovered_post_urls: Vec::new(),
        embedded_player_urls: Vec::new(),
    };
    assert(m.tags.deep_view() =~= Seq::<Seq<char>>::empty());
    assert(m.discovered_post_urls.deep_view() =~= Seq::<Seq<char>>::empty());
    assert(m.embedded_player_urls.deep_view() =~= Seq::<Seq<char>>::empty());
    Ok(m)
}

// ---------------------------------------------------------------------------
// Profile feeds
// ---------------------------------------------------------------------------

/// The value of the first pair named `key`.
pub open spec fn first_value(pairs: Seq<(Seq<char>, Seq<char>)>, key: Seq<char>) -> Option<Seq<char>>
    decreases pairs.len(),
{
    if pairs.len() == 0 {
        None
    } else if pairs[0].0 == key {
        Some(pairs[0].1)
    } else {
        first_value(pairs.drop_first(), key)
    }
}

/// The user of a profile URL (the first segment of its path, which must
/// not be empty, `explore` or `direct`) and the `max_id` of its query.
pub open spec fn feed_user(url: Seq<char>) -> Result<(Seq<char>, Option<Seq<char>>), IgError> {
    match crate::weburl::url_path(url) {
        None => Err(IgError::InvalidUrl),
        Some(path) => {
            let first = split_on(trim(path, CharClass::Only('/')), '/')[0];
            if first.len() == 0 || first == "explore"@ || first == "direct"@ {
                Err(IgError::NoUsername)
            } else {
                Ok(
                    (
                        first,
                        match crate::weburl::url_query_pairs(url) {
                            Some(ps) => first_value(ps, "max_id"@),
                            None => None,
                        },
                    ),
                )
            }
        },
    }
}

/// The feed API URL of a user, from `max_id` on when given.
pub open spec fn feed_api_url(username: Seq<char>, max_id: Option<Seq<char>>) -> Seq<char> {
    let base = "https://www.instagram.com/api/v1/feed/user/"@ + username + "/username/?count=12"@;
    match max_id {
        Some(m) => base + "&max_id="@ + m,
        None => base,
    }
}

/// The value of the first pair named `key`.
fn first_value_of(pairs: &Vec<(String, String)>, key: &str) -> (r: Option<String>)
    ensures
        r.deep_view() == first_value(crate::weburl::pair_views(pairs@), key@),
{
    let k = key.to_owned();
    let ghost ps = crate::weburl::pair_views(pairs@);
    let mut i: usize = 0;
    assert(ps.subrange(0, ps.len() as int) =~= ps);
    while i < pairs.len()
        invariant
            i <= pairs@.len(),
            k@ == key@,
            ps == crate::weburl::pair_views(pairs@),
            first_value(ps.subrange(i as int, ps.len() as int), key@) == first_value(ps, key@),
        decreases pairs.len() - i,
    {
        let ghost rest = ps.subrange(i as int, ps.len() as int);
        assert(rest[0] == (pairs@[i as int].0@, pairs@[i as int].1@));
        if crate::text::same_string(&pairs[i].0, &k) {
            return Some(copy_string(&pairs[i].1));
        }
        assert(rest.drop_first() =~= ps.subrange(i + 1, ps.len() as int));
        i += 1;
    }
    None
}

/// The user of a profile URL and the feed API URL to request.
pub fn feed_request(url: &str) -> (r: Result<(String, String), IgError>)
    ensures
        r matches Ok(p) ==> feed_user(url@) matches Ok(u) && p.0@ == u.0 && p.1@ == feed_api_url(
            u.0,
            u.1,
        ),
        r matches Err(e) ==> feed_user(url@) == Err::<(Seq<char>, Option<Seq<char>>), IgError>(e),
{
    let path = match crate::weburl::parse_path(url) {
        Some(p) => p,
        None => return Err(IgError::InvalidUrl),
    };
    let pv = char_vec(path.as_str());
    let t = crate::text::trim_class(&pv, &CharClass::Only('/'));
    let parts = crate::text::split_chars(&t, '/');
    proof {
        crate::text::lemma_split_on_nonempty(t@, '/');
        crate::text::lemma_char_vec_deep_view(parts@[0]);
    }
    let first = &parts[0];
    if first.len() == 0 || equals_lit(first, "explore") || equals_lit(first, "direct") {
        return Err(IgError::NoUsername);
    }
    let username = string_of(first);
    let max_id = match crate::weburl::parse_query_pairs(url) {
        Some(pairs) => first_value_of(&pairs, "max_id"),
        None => None,
    };
    let base = concat3("https://www.instagram.com/api/v1/feed/user/", username.as_str(), "/username/?count=12");
    let api = match max_id {
        Some(m) => concat3(base.as_str(), "&max_id=", m.as_str()),
        None => base,
    };
    Ok((username, api))
}

/// The post links of feed entries: one per entry with a string `code`.
pub open spec fn feed_links(raws: Seq<JsonValue>) -> Seq<Seq<char>>
    decreases raws.len(),
{
    if raws.len() == 0 {
        seq![]
    } else {
        let r = feed_links(raws.drop_last());
        match opt_str(json_get(raws.last(), "code"@)) {
            Some(code) => r.push(post_page(code)),
            None => r,
        }
    }
}

/// The items of feed entries, entry after entry.
pub open spec fn feed_items(raws: Seq<JsonValue>) -> Seq<MediaItemView>
    decreases raws.len(),
{
    if raws.len() == 0 {
        seq![]
    } else {
        feed_items(raws.drop_last()) + parsed_items(nodes_of(raws.last()))
    }
}

/// A profile feed page: its `items`, at least one; the post links and
/// items of the entries; the next page from `next_max_id`.
pub open spec fn feed_page(payload: JsonValue, username: Seq<char>) -> Result<MetadataView, IgError> {
    match opt_array(json_get(payload, "items"@)) {
        None => Err(IgError::NoFeedItems),
        Some(raws) => if raws.len() == 0 {
            Err(IgError::EmptyFeed)
        } else {
            Ok(
                ig_metadata(
                    username,
                    "Profile grid feed for @"@ + username,
                    None,
                    None,
                    seq![],
                    feed_items(raws),
                    match opt_str(json_get(payload, "next_max_id"@)) {
                        Some(next) => Some("https://www.instagram.com/"@ + username + "/?max_id="@ + next),
                        None => None,
                    },
                    feed_links(raws),
                ),
            )
        },
    }
}

/// The metadata of a profile feed page from its API payload.
pub fn feed_metadata(payload: &JsonValue, username: &str) -> (r: Result<ExtractedMediaMetadata, IgError>)
    ensures
        r matches Ok(m) ==> feed_page(*payload, username@) == Ok::<MetadataView, IgError>(m@),
        r matches Err(e) ==> feed_page(*payload, username@) == Err::<MetadataView, IgError>(e),
{
    let raws = match payload.array_field("items") {
        Some(a) => a,
        None => return Err(IgError::NoFeedItems),
    };
    if raws.len() == 0 {
        return Err(IgError::EmptyFeed);
    }
    let mut items: Vec<MediaItem> = Vec::new();
    let mut links: Vec<String> = Vec::new();
    let mut i: usize = 0;
    while i < raws.len()
        invariant
            i <= raws@.len(),
            items.deep_view() == feed_items(raws@.take(i as int)),
            links.deep_view() == feed_links(raws@.take(i as int)),
        decreases raws.len() - i,
    {
        let raw = &raws[i];
        assert(raws@.take(i + 1).drop_last() =~= raws@.take(i as int));
        assert(raws@.take(i + 1).last() == raws@[i as int]);
        let ghost lb = links.deep_view();
        match raw.str_field("code") {
            Some(code) => {
                links.push(post_page_of(code));
                assert(links.deep_view() =~= lb.push(post_page(code@)));
            },
            None => {},
        }
        push_item_nodes(&mut items, raw);
        i += 1;
    }
    assert(raws@.take(raws@.len() as int) =~= raws@);
    let next_page_url = match payload.str_field("next_max_id") {
        Some(next) => {
            let a = concat3("https://www.instagram.com/", username, "/?max_id=");
            Some(concat(a.as_str(), next))
        },
        None => None,
    };
    let m = ExtractedMediaMetadata {
        platform: "instagram".to_owned(),
        author: username.to_owned(),
        caption: concat("Profile grid feed for @", username),
        post_text: None,
        published_at: None,
        tags: Vec::new(),
        items,
        next_page_url,
        discovered_post_urls: links,
        embedded_player_urls: Vec::new(),
    };
    assert(m.tags.deep_view() =~= Seq::<Seq<char>>::empty());
    assert(m.embedded_player_urls.deep_view() =~= Seq::<Seq<char>>::empty());
    Ok(m)
}

// ---------------------------------------------------------------------------
// Stories
// ---------------------------------------------------------------------------

/// The first position at or after `from` of a segment equal to `name`.
pub open spec fn segment_index(segs: Seq<Seq<char>>, name: Seq<char>, from: int) -> Option<int>
    decreases segs.len() - from,
{
    if from < 0 || from >= segs.len() {
        None
    } else if segs[from] == name {
        Some(from)
    } else {
        segment_index(segs, name, from + 1)
    }
}

/// The user of a story URL (the segment after the first `stories`) and,
/// when one follows it, the id of a single story item.
pub open spec fn story_target(url: Seq<char>) -> Result<(Seq<char>, Option<Seq<char>>), IgError> {
    let segs = url_segments(url);
    match segment_index(segs, "stories"@, 0) {
        None => Err(IgError::InvalidStoryUrl),
        Some(i) => if i + 1 >= segs.len() {
            Err(IgError::MissingStoryUsername)
        } else {
            Ok(
                (
                    segs[i + 1],
                    if i + 2 < segs.len() {
                        Some(segs[i + 2])
                    } else {
                        None
                    },
                ),
            )
        },
    }
}

/// The user of a story URL and the story item it names, if any.
pub fn story_request(url: &str) -> (r: Result<(String, Option<String>), IgError>)
    ensures
        r matches Ok(p) ==> story_target(url@) == Ok::<(Seq<char>, Option<Seq<char>>), IgError>(
            (p.0@, p.1.deep_view()),
        ),
        r matches Err(e) ==> story_target(url@) == Err::<(Seq<char>, Option<Seq<char>>), IgError>(
            e,
        ),
{
    let segs = url_path_segments(url);
    let ghost sv = segs.deep_view();
    let mut i: usize = 0;
    while i < segs.len()
        invariant
            i <= segs@.len(),
            sv == segs.deep_view(),
            sv == url_segments(url@),
            segment_index(sv, "stories"@, i as int) == segment_index(sv, "stories"@, 0),
        decreases segs.len() - i,
    {
        proof {
            crate::text::lemma_char_vec_deep_view(segs@[i as int]);
        }
        if equals_lit(&segs[i], "stories") {
            if segs.len() - i < 2 {
                return Err(IgError::MissingStoryUsername);
            }
            proof {
                crate::text::lemma_char_vec_deep_view(segs@[i + 1]);
            }
            let username = string_of(&segs[i + 1]);
            let pk = if segs.len() - i > 2 {
                proof {
                    crate::text::lemma_char_vec_deep_view(segs@[i + 2]);
                }
                Some(string_of(&segs[i + 2]))
            } else {
                None
            };
            return Ok((username, pk));
        }
        i += 1;
    }
    Err(IgError::InvalidStoryUrl)
}

/// A user's active stories: the items of the reel named by the user id, at
/// least one entry; captioned "Active stories from @{user}".
pub open spec fn story_tray(payload: JsonValue, user_id: Seq<char>, username: Seq<char>) -> Result<
    MetadataView,
    IgError,
> {
    let raw = reel_items(payload, user_id);
    if raw.len() == 0 {
        Err(IgError::NoActiveStories)
    } else {
        Ok(
            ig_metadata(
                username,
                "Active stories from @"@ + username,
                None,
                None,
                seq![],
                parsed_items(raw),
                None,
                seq![],
            ),
        )
    }
}

/// The metadata of a user's active stories from the reels payload.
pub fn story_tray_metadata(payload: &JsonValue, user_id: &str, username: &str) -> (r: Result<
    ExtractedMediaMetadata,
    IgError,
>)
    ensures
        r matches Ok(m) ==> story_tray(*payload, user_id@, username@) == Ok::<MetadataView, IgError>(
            m@,
        ),
        r matches Err(e) ==> story_tray(*payload, user_id@, username@) == Err::<
            MetadataView,
            IgError,
        >(e),
{
    let raw = match reel_items_of(payload, user_id) {
        Some(a) => a,
        None => return Err(IgError::NoActiveStories),
    };
    let mut items: Vec<MediaItem> = Vec::new();
    push_parsed(&mut items, raw);
    assert(items.deep_view() =~= parsed_items(raw@));
    let m = ExtractedMediaMetadata {
        platform: "instagram".to_owned(),
        author: username.to_owned(),
        caption: concat("Active stories from @", username),
        post_text: None,
        published_at: None,
        tags: Vec::new(),
        items,
        next_page_url: None,
        discovered_post_urls: Vec::new(),
        embedded_player_urls: Vec::new(),
    };
    assert(m.tags.deep_view() =~= Seq::<Seq<char>>::empty());
    assert(m.discovered_post_urls.deep_view() =~= Seq::<Seq<char>>::empty());
    assert(m.embedded_player_urls.deep_view() =~= Seq::<Seq<char>>::empty());
    Ok(m)
}

/// One story item: the first entry of the payload's `items`; its item when
/// it can be read; its time; captioned "Story item {pk} from @{user}".
pub open spec fn story_item(payload: JsonValue, media_pk: Seq<char>, username: Seq<char>) -> Result<
    MetadataView,
    IgError,
> {
    let first = match json_get(payload, "items"@) {
        Some(a) => json_at(a, 0),
        None => None,
    };
    match first {
        None => Err(IgError::StoryItemNotFound),
        Some(item) => Ok(
            ig_metadata(
                username,
                "Story item "@ + media_pk + " from @"@ + username,
                None,
                published(json_get(item, "taken_at"@)),
                seq![],
                match ig_media_item(item) {
                    Some(x) => seq![x],
                    None => seq![],
                },
                None,
                seq![],
            ),
        ),
    }
}

/// The metadata of one story item from its mobile-API payload.
pub fn story_item_metadata(payload: &JsonValue, media_pk: &str, username: &str) -> (r: Result<
    ExtractedMediaMetadata,
    IgError,
>)
    ensures
        r matches Ok(m) ==> story_item(*payload, media_pk@, username@) == Ok::<MetadataView, IgError>(
            m@,
        ),
        r matches Err(e) ==> story_item(*payload, media_pk@, username@) == Err::<
            MetadataView,
            IgError,
        >(e),
{
    let item = match payload.get("items") {
        Some(a) => match a.at(0) {
            Some(x) => x,
            None => return Err(IgError::StoryItemNotFound),
        },
        None => return Err(IgError::StoryItemNotFound),
    };
    let mut items: Vec<MediaItem> = Vec::new();
    match parse_media_item(item) {
        Some(m) => {
            items.push(m);
        },
        None => {},
    }
    assert(items.deep_view() =~= (match ig_media_item(*item) {
        Some(x) => seq![x],
        None => Seq::<MediaItemView>::empty(),
    }));
    let published_at = published_field(item, "taken_at");
    let c = concat3("Story item ", media_pk, " from @");
    let m = ExtractedMediaMetadata {
        platform: "instagram".to_owned(),
        author: username.to_owned(),
        caption: concat(c.as_str(), username),
        post_text: None,
        published_at,
        tags: Vec::new(),
        items,
        next_page_url: None,
        discovered_post_urls: Vec::new(),
        embedded_player_urls: Vec::new(),
    };
    assert(m.tags.deep_view() =~= Seq::<Seq<char>>::empty());
    assert(m.discovered_post_urls.deep_view() =~= Seq::<Seq<char>>::empty());
    assert(m.embedded_player_urls.deep_view() =~= Seq::<Seq<char>>::empty());
    Ok(m)
}

// ---------------------------------------------------------------------------
// Numeric user ids
// ---------------------------------------------------------------------------

/// The digits that follow the first `marker` in `html`, up to the next
/// double quote, when there are any and nothing else.
pub open spec fn id_after(html: Seq<char>, marker: Seq<char>) -> Option<Seq<char>> {
    match crate::text::find_sub(html, marker) {
        None => None,
        Some(pos) => match crate::text::split_once(html.subrange(pos + marker.len(), html.len() as int), '"') {
            Some((id, _)) => if crate::text::all_digits(id) {
                Some(id)
            } else {
                None
            },
            None => None,
        },
    }
}

/// The user id announced by a profile page: after `"props":{"id":"`, else
/// after `"profilePage_`.
pub open spec fn profile_page_id(html: Seq<char>) -> Option<Seq<char>> {
    match id_after(html, "\"props\":{\"id\":\""@) {
        Some(id) => Some(id),
        None => id_after(html, "\"profilePage_"@),
    }
}

/// Computes `id_after`.
fn digits_after(html: &Vec<char>, marker: &str) -> (r: Option<String>)
    ensures
        r.deep_view() == id_after(html@, marker@),
{
    let m = char_vec(marker);
    let pos = match crate::text::find_seq(html, &m) {
        Some(p) => p,
        None => return None,
    };
    proof {
        assert(crate::text::occurs_at(html@, m@, pos as int)) by {
            assert(crate::text::find_from(html@, m@, 0) == Some(pos as int));
            lemma_find_from_occurs(html@, m@, 0);
        }
    }
    assert(pos + m@.len() <= html@.len());
    let mlen = m.len();
    assert(pos + mlen <= html.len());
    let start: usize = pos + mlen;
    let rem = crate::text::slice_vec(html, start, html.len());
    match crate::text::split_first(&rem, '"') {
        Some((id, _)) => {
            if id.len() > 0 && all_ascii_digits(&id) {
                Some(string_of(&id))
            } else {
                None
            }
        },
        None => None,
    }
}

proof fn lemma_find_from_occurs(s: Seq<char>, p: Seq<char>, from: int)
    requires
        crate::text::find_from(s, p, from) is Some,
    ensures
        crate::text::occurs_at(s, p, crate::text::find_from(s, p, from).unwrap()),
    decreases s.len() + 1 - from,
{
    if from >= 0 && from + p.len() <= s.len() && !crate::text::occurs_at(s, p, from) {
        lemma_find_from_occurs(s, p, from + 1);
    }
}

/// Whether every character is a decimal digit.
fn all_ascii_digits(v: &Vec<char>) -> (r: bool)
    ensures
        r == (forall|i: int| 0 <= i < v@.len() ==> crate::text::is_digit(#[trigger] v@[i])),
{
    let mut i: usize = 0;
    while i < v.len()
        invariant
            i <= v@.len(),
            forall|k: int| 0 <= k < i ==> crate::text::is_digit(#[trigger] v@[k]),
        decreases v.len() - i,
    {
        if !('0' <= v[i] && v[i] <= '9') {
            return false;
        }
        i += 1;
    }
    true
}

/// The user id announced by a profile page.
pub fn numeric_id_from_profile_page(html: &str) -> (r: Option<String>)
    ensures
        r.deep_view() == profile_page_id(html@),
{
    let v = char_vec(html);
    match digits_after(&v, "\"props\":{\"id\":\"") {
        Some(id) => Some(id),
        None => digits_after(&v, "\"profilePage_"),
    }
}

/// The text of a user's `pk`: a string as it is, an integer in decimal.
pub open spec fn pk_text(v: Option<JsonValue>) -> Option<Seq<char>> {
    match v {
        Some(x) => match json_str(x) {
            Some(s) => Some(s),
            None => match json_i64(x) {
                Some(n) => Some(crate::text::signed_decimal(n as int)),
                None => None,
            },
        },
        None => None,
    }
}

/// The id that a search entry gives for `username`: when its
/// `/user/username` equals the name ignoring ASCII case, its
/// `/user/pk`.
pub open spec fn entry_id(entry: JsonValue, username: Seq<char>) -> Option<Seq<char>> {
    if crate::text::eq_ascii_case(str_or(json_pointer(entry, "/user/username"@), ""@), username) {
        pk_text(json_pointer(entry, "/user/pk"@))
    } else {
        None
    }
}

/// The first id that search entries give for `username`.
pub open spec fn search_id(users: Seq<JsonValue>, username: Seq<char>) -> Option<Seq<char>>
    decreases users.len(),
{
    if users.len() == 0 {
        None
    } else {
        match entry_id(users[0], username) {
            Some(id) => Some(id),
            None => search_id(users.drop_first(), username),
        }
    }
}

/// The user id that a search payload gives for `username`, from its
/// `users` entries.
pub open spec fn search_payload_id(payload: JsonValue, username: Seq<char>) -> Option<Seq<char>> {
    match opt_array(json_get(payload, "users"@)) {
        Some(users) => search_id(users, username),
        None => None,
    }
}

/// Computes `entry_id`.
fn entry_id_of(entry: &JsonValue, username: &str) -> (r: Option<String>)
    ensures
        r.deep_view() == entry_id(*entry, username@),
{
    let matched = pointer_str_or(entry, "/user/username", "");
    if !crate::text::eq_ignore_ascii_case(matched.as_str(), username) {
        return None;
    }
    match entry.pointer("/user/pk") {
        Some(v) => match v.as_str() {
            Some(s) => Some(s.to_owned()),
            None => match v.as_i64() {
                Some(n) => Some(crate::text::signed_decimal_string(n)),
                None => None,
            },
        },
        None => None,
    }
}

/// The user id that a search payload gives for `username`.
pub fn numeric_id_from_search(payload: &JsonValue, username: &str) -> (r: Option<String>)
    ensures
        r.deep_view() == search_payload_id(*payload, username@),
{
    let users = match payload.array_field("users") {
        Some(u) => u,
        None => return None,
    };
    let mut i: usize = 0;
    assert(users@.subrange(0, users@.len() as int) =~= users@);
    while i < users.len()
        invariant
            i <= users@.len(),
            search_payload_id(*payload, username@) == search_id(users@, username@),
            search_id(users@.subrange(i as int, users@.len() as int), username@) == search_id(
                users@,
                username@,
            ),
        decreases users.len() - i,
    {
        let ghost rest = users@.subrange(i as int, users@.len() as int);
        assert(rest[0] == users@[i as int]);
        assert(rest.drop_first() =~= users@.subrange(i + 1, users@.len() as int));
        match entry_id_of(&users[i], username) {
            Some(id) => return Some(id),
            None => {},
        }
        i += 1;
    }
    None
}

// ---------------------------------------------------------------------------
// Fallback order
// ---------------------------------------------------------------------------

/// One way of fetching a post or a profile.
#[derive(Debug, Clone, Copy, PartialEq, Eq, Structural)]
pub enum IgAttempt {
    /// The mobile API with the session.
    MobileWithSession,
    /// The public GraphQL API, without cookies.
    GraphqlAsGuest,
    /// The mobile API without a session.
    MobileAsGuest,
    /// The profile feed with the session.
    FeedWithSession,
    /// The profile feed without a session.
    FeedAsGuest,
}

/// The order in which a post is fetched: with a session first when there
/// is one, then the public GraphQL API, then the mobile API as guest.
pub open spec fn post_attempts(has_auth: bool) -> Seq<IgAttempt> {
    if has_auth {
        seq![IgAttempt::MobileWithSession, IgAttempt::GraphqlAsGuest, IgAttempt::MobileAsGuest]
    } else {
        seq![IgAttempt::GraphqlAsGuest, IgAttempt::MobileAsGuest]
    }
}

/// The order in which a profile feed is fetched: with a session first when
/// there is one, then as guest.
pub open spec fn profile_attempts(has_auth: bool) -> Seq<IgAttempt> {
    if has_auth {
        seq![IgAttempt::FeedWithSession, IgAttempt::FeedAsGuest]
    } else {
        seq![IgAttempt::FeedAsGuest]
    }
}

/// The attempts for a post or a profile, in order; the first that succeeds
/// gives the result, the last one's failure is the result otherwise.
pub fn fetch_attempts(is_post: bool, has_auth: bool) -> (r: Vec<IgAttempt>)
    ensures
        is_post ==> r@ == post_attempts(has_auth),
        !is_post ==> r@ == profile_attempts(has_auth),
{
    let mut r: Vec<IgAttempt> = Vec::new();
    if is_post {
        if has_auth {
            r.push(IgAttempt::MobileWithSession);
        }
        r.push(IgAttempt::GraphqlAsGuest);
        r.push(IgAttempt::MobileAsGuest);
    } else {
        if has_auth {
            r.push(IgAttempt::FeedWithSession);
        }
        r.push(IgAttempt::FeedAsGuest);
    }
    proof {
        if is_post {
            assert(r@ =~= post_attempts(has_auth));
        } else {
            assert(r@ =~= profile_attempts(has_auth));
        }
    }
    r
}

} // verus!
