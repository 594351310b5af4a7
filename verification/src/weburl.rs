//! What the `url` parser (through `reqwest::Url`) tells of a URL: its path,
//! host and decoded query pairs, a reference resolved against it, and the
//! URL with its query rewritten. Each result is named, the parser being
//! the WHATWG URL Standard, which is not restated here.
use vstd::prelude::*;

verus! {

/// The path of `url` when it parses.
pub uninterp spec fn url_path(url: Seq<char>) -> Option<Seq<char>>;

/// The host of `url` when it parses and has one.
pub uninterp spec fn url_host(url: Seq<char>) -> Option<Seq<char>>;

/// The decoded query pairs of `url`, in order, when it parses.
pub uninterp spec fn url_query_pairs(url: Seq<char>) -> Option<Seq<(Seq<char>, Seq<char>)>>;

/// `target` resolved against `base`, serialized, when `base` parses and
/// the reference resolves.
pub uninterp spec fn url_join(base: Seq<char>, target: Seq<char>) -> Option<Seq<char>>;

/// `url` with its query replaced by the given pairs, form-encoded in
/// order, serialized, when `url` parses.
pub uninterp spec fn url_with_query(url: Seq<char>, pairs: Seq<(Seq<char>, Seq<char>)>) -> Option<
    Seq<char>,
>;

/// Pairs of strings seen as plain values.
pub open spec fn pair_views(pairs: Seq<(String, String)>) -> Seq<(Seq<char>, Seq<char>)> {
    pairs.map_values(|p: (String, String)| (p.0@, p.1@))
}

/// `reqwest::Url::parse` then `Url::path`: the result is named by
/// `url_path`.
#[verifier::external_body]
pub(crate) fn parse_path(url: &str) -> (r: Option<String>)
    ensures
        r.deep_view() == url_path(url@),
{
    match reqwest::Url::parse(url) {
        Ok(u) => Some(u.path().to_string()),
        Err(_) => None,
    }
}

/// `reqwest::Url::parse` then `Url::host_str`: the result is named by
/// `url_host`.
#[verifier::external_body]
pub(crate) fn parse_host(url: &str) -> (r: Option<String>)
    ensures
        r.deep_view() == url_host(url@),
{
    match reqwest::Url::parse(url) {
        Ok(u) => u.host_str().map(|h| h.to_string()),
        Err(_) => None,
    }
}

/// `reqwest::Url::parse` then `Url::query_pairs`, each pair decoded into
/// owned strings: the result is named by `url_query_pairs`.
#[verifier::external_body]
pub(crate) fn parse_query_pairs(url: &str) -> (r: Option<Vec<(String, String)>>)
    ensures
        r.is_some() == url_query_pairs(url@).is_some(),
        r.is_some() ==> pair_views(r.unwrap()@) == url_query_pairs(url@).unwrap(),
{
    match reqwest::Url::parse(url) {
        Ok(u) => Some(u.query_pairs().map(|(k, v)| (k.to_string(), v.to_string())).collect()),
        Err(_) => None,
    }
}

/// `reqwest::Url::parse(base)` then `Url::join(target)`, serialized: the
/// result is named by `url_join`.
#[verifier::external_body]
pub(crate) fn join_url(base: &str, target: &str) -> (r: Option<String>)
    ensures
        r.deep_view() == url_join(base@, target@),
{
    match reqwest::Url::parse(base) {
        Ok(b) => match b.join(target) {
            Ok(u) => Some(u.to_string()),
            Err(_) => None,
        },
        Err(_) => None,
    }
}

/// `reqwest::Url::parse`, `set_query(None)`, then `append_pair` for each
/// pair through `query_pairs_mut`, serialized: the result is named by
/// `url_with_query`.
#[verifier::external_body]
pub(crate) fn replace_query(url: &str, pairs: &Vec<(String, String)>) -> (r: Option<String>)
    ensures
        r.deep_view() == url_with_query(url@, pair_views(pairs@)),
{
    match reqwest::Url::parse(url) {
        Ok(mut u) => {
            u.set_query(None);
            {
                let mut serializer = u.query_pairs_mut();
                for (k, v) in pairs {
                    serializer.append_pair(k, v);
                }
            }
            Some(u.to_string())
        },
        Err(_) => None,
    }
}

} // verus!
