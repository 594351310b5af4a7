//! Links found in pages: cleaning a scraped URL, resolving it against the
//! page, discovering post links and the next page.
use vstd::prelude::*;

use crate::patterns::{
    captures_of, first_capture, first_capture_of, is_match, regex_captures, regex_matches,
    A_CLASS_NEXT_RE, A_REL_NEXT_RE, ANCHOR_HREF_RE, POST_PATH_RE, REL_NEXT_RE, REL_NEXT_REV_RE,
};
use crate::text::{
    begins, char_vec, concat, contains_lit, copy_string, finishes, has_sub, holds_string,
    is_prefix, is_suffix, lowercase, replace_all, replace_lit, same_string, string_of, to_lower,
    trim, trim_class, trim_end, trim_end_class, CharClass,
};
use crate::weburl::{join_url, parse_host, url_host, url_join};

verus! {

/// `v` with `s` appended unless it already holds it.
pub open spec fn add_unique(v: Seq<Seq<char>>, s: Seq<char>) -> Seq<Seq<char>> {
    if v.contains(s) {
        v
    } else {
        v.push(s)
    }
}

/// No string occurs twice.
pub open spec fn no_repeats(v: Seq<Seq<char>>) -> bool {
    forall|i: int, j: int| 0 <= i < j < v.len() ==> v[i] != v[j]
}

/// Appending unless present keeps a list free of repeats.
pub proof fn lemma_add_unique_no_repeats(v: Seq<Seq<char>>, s: Seq<char>)
    requires
        no_repeats(v),
    ensures
        no_repeats(add_unique(v, s)),
{
    if !v.contains(s) {
        let w = v.push(s);
        assert forall|i: int, j: int| 0 <= i < j < w.len() implies w[i] != w[j] by {
            if j == w.len() - 1 {
                assert(v[i] == w[i]);
            }
        }
    }
}

/// Appends `s` unless `v` already holds it.
pub fn push_unique(v: &mut Vec<String>, s: String)
    ensures
        final(v).deep_view() == add_unique(old(v).deep_view(), s@),
{
    if !holds_string(v, &s) {
        let ghost before = v.deep_view();
        let ghost sv = s@;
        v.push(s);
        assert(v.deep_view() =~= before.push(sv));
    }
}

/// A scraped URL cleaned of its HTML and JavaScript escapes (`\/`,
/// `&amp;`, `&quot;`, `&#38;`) and of the quotes, backslashes and spaces
/// around it.
pub open spec fn normalized_url(raw: Seq<char>) -> Seq<char> {
    trim(
        replace_all(
            replace_all(replace_all(replace_all(raw, "\\/"@, "/"@), "&amp;"@, "&"@), "&quot;"@, ""@),
            "&#38;"@,
            "&"@,
        ),
        CharClass::QuoteOrSpace,
    )
}

/// Cleans a scraped URL.
pub fn normalize_scraped_url(raw: &str) -> (r: String)
    ensures
        r@ == normalized_url(raw@),
{
    proof {
        reveal_strlit("\\/");
        reveal_strlit("&amp;");
        reveal_strlit("&quot;");
        reveal_strlit("&#38;");
    }
    let v = char_vec(raw);
    let a = replace_lit(&v, "\\/", "/");
    let b = replace_lit(&a, "&amp;", "&");
    let c = replace_lit(&b, "&quot;", "");
    let d = replace_lit(&c, "&#38;", "&");
    let t = trim_class(&d, &CharClass::QuoteOrSpace);
    string_of(&t)
}

/// A link resolved against the page it was found on: an absolute link as
/// it is, a protocol-relative one with the page's scheme (`http:` for an
/// `http://` page, `https:` otherwise), any other joined to the page URL,
/// or left as it is when that fails.
pub open spec fn resolved_link(base: Seq<char>, target: Seq<char>) -> Seq<char> {
    let clean = normalized_url(target);
    if is_prefix("http://"@, clean) || is_prefix("https://"@, clean) {
        clean
    } else if is_prefix("//"@, clean) {
        (if is_prefix("http://"@, base) {
            "http:"@
        } else {
            "https:"@
        }) + clean
    } else {
        match url_join(base, clean) {
            Some(u) => u,
            None => clean,
        }
    }
}

/// Resolves a link against the page URL.
pub fn resolve_relative_url(base_url: &str, target: &str) -> (r: String)
    ensures
        r@ == resolved_link(base_url@, target@),
{
    let clean = normalize_scraped_url(target);
    let cv = char_vec(clean.as_str());
    if begins(&cv, "http://") || begins(&cv, "https://") {
        return clean;
    }
    if begins(&cv, "//") {
        let bv = char_vec(base_url);
        let scheme = if begins(&bv, "http://") {
            "http:"
        } else {
            "https:"
        };
        return concat(scheme, clean.as_str());
    }
    match join_url(base_url, clean.as_str()) {
        Some(u) => u,
        None => clean,
    }
}

// ---------------------------------------------------------------------------
// Post links
// ---------------------------------------------------------------------------

/// Paths that never lead to a post.
pub open spec fn excluded_link(lower: Seq<char>) -> bool {
    ||| has_sub(lower, "/login"@)
    ||| has_sub(lower, "/signup"@)
    ||| has_sub(lower, "/register"@)
    ||| has_sub(lower, "/logout"@)
    ||| has_sub(lower, "/terms"@)
    ||| has_sub(lower, "/privacy"@)
    ||| has_sub(lower, "/about"@)
    ||| has_sub(lower, "/contact"@)
    ||| has_sub(lower, "/search"@)
    ||| has_sub(lower, "/tag/"@)
    ||| has_sub(lower, "/settings"@)
}

/// Whether a resolved link is a post of the page's site: same host, not
/// the page itself (with or without trailing slashes), not an account or
/// information page, and with a path that looks like a post.
pub open spec fn post_link(current: Seq<char>, host: Seq<char>, full: Seq<char>) -> bool {
    &&& (match url_host(full) {
        Some(h) => h == host,
        None => false,
    })
    &&& full != current
    &&& !(is_suffix("/"@, full) && trim_end(full, CharClass::Only('/')) == current)
    &&& !excluded_link(lowercase(full))
    &&& regex_matches(POST_PATH_RE@, full)
}

/// The post links among anchor targets, resolved, in order, each once.
pub open spec fn post_links(current: Seq<char>, host: Seq<char>, caps: Seq<Option<Seq<char>>>) -> Seq<
    Seq<char>,
>
    decreases caps.len(),
{
    if caps.len() == 0 {
        seq![]
    } else {
        let r = post_links(current, host, caps.drop_last());
        match caps.last() {
            Some(m) => {
                let full = resolved_link(current, m);
                if post_link(current, host, full) {
                    add_unique(r, full)
                } else {
                    r
                }
            },
            None => r,
        }
    }
}

/// The host of a page, empty when it has none.
pub open spec fn page_host(url: Seq<char>) -> Seq<char> {
    match url_host(url) {
        Some(h) => h,
        None => seq![],
    }
}

/// The post links of a page.
pub open spec fn page_post_links(current: Seq<char>, html: Seq<char>) -> Seq<Seq<char>> {
    post_links(current, page_host(current), regex_captures(ANCHOR_HREF_RE@, 1, html))
}

/// Tests `excluded_link`.
fn is_excluded(lower: &Vec<char>) -> (r: bool)
    ensures
        r == excluded_link(lower@),
{
    contains_lit(lower, "/login") || contains_lit(lower, "/signup") || contains_lit(lower, "/register")
        || contains_lit(lower, "/logout") || contains_lit(lower, "/terms") || contains_lit(
        lower,
        "/privacy",
    ) || contains_lit(lower, "/about") || contains_lit(lower, "/contact") || contains_lit(
        lower,
        "/search",
    ) || contains_lit(lower, "/tag/") || contains_lit(lower, "/settings")
}

/// Tests `post_link`.
fn is_post_link(current: &str, host: &String, full: &String) -> (r: bool)
    ensures
        r == post_link(current@, host@, full@),
{
    let same_domain = match parse_host(full.as_str()) {
        Some(h) => same_string(&h, host),
        None => false,
    };
    if !same_domain {
        return false;
    }
    let cur = current.to_owned();
    if same_string(full, &cur) {
        return false;
    }
    let fv = char_vec(full.as_str());
    if finishes(&fv, "/") {
        let t = string_of(&trim_end_class(&fv, &CharClass::Only('/')));
        if same_string(&t, &cur) {
            return false;
        }
    }
    let lower = to_lower(full.as_str());
    let lv = char_vec(lower.as_str());
    if is_excluded(&lv) {
        return false;
    }
    is_match(POST_PATH_RE, full.as_str())
}

/// The links of a page that lead to posts of the same site, resolved, in
/// order of appearance, each once.
pub fn discover_post_links(current_url: &str, html: &str) -> (r: Vec<String>)
    ensures
        r.deep_view() == page_post_links(current_url@, html@),
{
    let host = match parse_host(current_url) {
        Some(h) => h,
        None => String::new(),
    };
    let caps = captures_of(ANCHOR_HREF_RE, 1, html);
    let ghost cv = caps.deep_view();
    let mut out: Vec<String> = Vec::new();
    let mut i: usize = 0;
    while i < caps.len()
        invariant
            i <= caps@.len(),
            cv == caps.deep_view(),
            cv == regex_captures(ANCHOR_HREF_RE@, 1, html@),
            host@ == page_host(current_url@),
            out.deep_view() == post_links(current_url@, host@, cv.take(i as int)),
        decreases caps.len() - i,
    {
        assert(cv.take(i + 1).drop_last() =~= cv.take(i as int));
        assert(cv.take(i + 1).last() == cv[i as int]);
        match &caps[i] {
            Some(m) => {
                let full = resolve_relative_url(current_url, m.as_str());
                if is_post_link(current_url, &host, &full) {
                    push_unique(&mut out, full);
                }
            },
            None => {},
        }
        i += 1;
    }
    assert(cv.take(cv.len() as int) =~= cv);
    out
}

// ---------------------------------------------------------------------------
// Next page
// ---------------------------------------------------------------------------

/// A next-page candidate from a `rel="next"` link, resolved.
pub open spec fn rel_next(pattern: Seq<char>, current: Seq<char>, html: Seq<char>) -> Option<Seq<char>> {
    match first_capture(pattern, 1, html) {
        Some(href) => Some(resolved_link(current, href)),
        None => None,
    }
}

/// A next-page candidate from an anchor, resolved, unless it is the page
/// itself.
pub open spec fn anchor_next(pattern: Seq<char>, current: Seq<char>, html: Seq<char>) -> Option<Seq<char>> {
    match first_capture(pattern, 1, html) {
        Some(href) => {
            let next = resolved_link(current, href);
            if next != current {
                Some(next)
            } else {
                None
            }
        },
        None => None,
    }
}

/// The page-number query keys.
pub open spec fn page_key(k: Seq<char>) -> bool {
    k == "page"@ || k == "p"@ || k == "pg"@
}

/// The first query pair with a page key whose value is a `u32`.
pub open spec fn page_pair(pairs: Seq<(Seq<char>, Seq<char>)>) -> Option<(Seq<char>, nat)>
    decreases pairs.len(),
{
    if pairs.len() == 0 {
        None
    } else if page_key(pairs[0].0) && crate::text::parse_unsigned(pairs[0].1, u32::MAX as nat) is Some {
        Some((pairs[0].0, crate::text::parse_unsigned(pairs[0].1, u32::MAX as nat).unwrap()))
    } else {
        page_pair(pairs.drop_first())
    }
}

/// The pairs whose key is not `key`.
pub open spec fn without_key(pairs: Seq<(Seq<char>, Seq<char>)>, key: Seq<char>) -> Seq<(Seq<char>, Seq<char>)> {
    pairs.filter(|p: (Seq<char>, Seq<char>)| p.0 != key)
}

/// The page number after `n`, wrapping within `u32`.
pub open spec fn following_page(n: nat) -> nat {
    ((n + 1) % 0x1_0000_0000) as nat
}

/// The next page by number: when the page URL has a page-number query pair
/// (`page`, `p` or `pg`), the URL with every pair of that key removed and
/// the key set to the following number, provided the page mentions
/// `page={n}` or `p={n}` for that number.
pub open spec fn numbered_next(current: Seq<char>, html: Seq<char>) -> Option<Seq<char>> {
    match crate::weburl::url_query_pairs(current) {
        None => None,
        Some(pairs) => match page_pair(pairs) {
            None => None,
            Some((key, n)) => {
                let next = crate::text::decimal(following_page(n));
                if has_sub(html, "page="@ + next) || has_sub(html, "p="@ + next) {
                    crate::weburl::url_with_query(current, without_key(pairs, key).push((key, next)))
                } else {
                    None
                }
            },
        },
    }
}

/// The next page of a listing: a `<link rel="next">` in either attribute
/// order, else an anchor marked next by `rel`, `aria-label` or class (when
/// it is not the page itself), else the following page number.
pub open spec fn next_page(current: Seq<char>, html: Seq<char>) -> Option<Seq<char>> {
    match rel_next(REL_NEXT_RE@, current, html) {
        Some(u) => Some(u),
        None => match rel_next(REL_NEXT_REV_RE@, current, html) {
            Some(u) => Some(u),
            None => match anchor_next(A_REL_NEXT_RE@, current, html) {
                Some(u) => Some(u),
                None => match anchor_next(A_CLASS_NEXT_RE@, current, html) {
                    Some(u) => Some(u),
                    None => numbered_next(current, html),
                },
            },
        },
    }
}

/// Computes `rel_next`.
fn rel_next_of(pattern: &str, current: &str, html: &str) -> (r: Option<String>)
    ensures
        r.deep_view() == rel_next(pattern@, current@, html@),
{
    match first_capture_of(pattern, 1, html) {
        Some(href) => Some(resolve_relative_url(current, href.as_str())),
        None => None,
    }
}

/// Computes `anchor_next`.
fn anchor_next_of(pattern: &str, current: &str, html: &str) -> (r: Option<String>)
    ensures
        r.deep_view() == anchor_next(pattern@, current@, html@),
{
    match first_capture_of(pattern, 1, html) {
        Some(href) => {
            let next = resolve_relative_url(current, href.as_str());
            let cur = current.to_owned();
            if !same_string(&next, &cur) {
                Some(next)
            } else {
                None
            }
        },
        None => None,
    }
}

/// Computes `page_pair`.
fn page_pair_of(pairs: &Vec<(String, String)>) -> (r: Option<(String, u32)>)
    ensures
        r matches Some(p) ==> page_pair(crate::weburl::pair_views(pairs@)) == Some((p.0@, p.1 as nat)),
        r is None ==> page_pair(crate::weburl::pair_views(pairs@)) is None,
{
    let ghost ps = crate::weburl::pair_views(pairs@);
    let mut i: usize = 0;
    assert(ps.subrange(0, ps.len() as int) =~= ps);
    while i < pairs.len()
        invariant
            i <= pairs@.len(),
            ps == crate::weburl::pair_views(pairs@),
            page_pair(ps.subrange(i as int, ps.len() as int)) == page_pair(ps),
        decreases pairs.len() - i,
    {
        let ghost rest = ps.subrange(i as int, ps.len() as int);
        assert(rest[0] == (pairs@[i as int].0@, pairs@[i as int].1@));
        assert(rest.drop_first() =~= ps.subrange(i + 1, ps.len() as int));
        let kv = char_vec(pairs[i].0.as_str());
        if crate::text::equals_lit(&kv, "page") || crate::text::equals_lit(&kv, "p")
            || crate::text::equals_lit(&kv, "pg") {
            let vv = char_vec(pairs[i].1.as_str());
            match crate::text::parse_unsigned_chars(&vv, 0xffff_ffff) {
                Some(n) => {
                    return Some((copy_string(&pairs[i].0), n as u32));
                },
                None => {},
            }
        }
        i += 1;
    }
    None
}

/// The pairs whose key is not `key`.
fn pairs_without(pairs: &Vec<(String, String)>, key: &String) -> (r: Vec<(String, String)>)
    ensures
        crate::weburl::pair_views(r@) == without_key(crate::weburl::pair_views(pairs@), key@),
{
    let ghost ps = crate::weburl::pair_views(pairs@);
    let mut out: Vec<(String, String)> = Vec::new();
    let mut i: usize = 0;
    while i < pairs.len()
        invariant
            i <= pairs@.len(),
            ps == crate::weburl::pair_views(pairs@),
            crate::weburl::pair_views(out@) == without_key(ps.take(i as int), key@),
        decreases pairs.len() - i,
    {
        let ghost before = crate::weburl::pair_views(out@);
        assert(ps.take(i + 1) =~= ps.take(i as int).push(ps[i as int]));
        proof {
            ps.take(i as int).lemma_filter_push(ps[i as int], |p: (Seq<char>, Seq<char>)| p.0 != key@);
        }
        if !same_string(&pairs[i].0, key) {
            out.push((copy_string(&pairs[i].0), copy_string(&pairs[i].1)));
            assert(crate::weburl::pair_views(out@) =~= before.push(ps[i as int]));
        } else {
            assert(crate::weburl::pair_views(out@) =~= before);
        }
        i += 1;
    }
    assert(ps.take(ps.len() as int) =~= ps);
    out
}

/// Computes `numbered_next`.
fn numbered_next_of(current: &str, html: &str) -> (r: Option<String>)
    ensures
        r.deep_view() == numbered_next(current@, html@),
{
    let pairs = match crate::weburl::parse_query_pairs(current) {
        Some(p) => p,
        None => return None,
    };
    let (key, n) = match page_pair_of(&pairs) {
        Some(kn) => kn,
        None => return None,
    };
    let next_num: u32 = n.wrapping_add(1);
    assert(next_num as nat == following_page(n as nat)) by {
        assert(n < 0x1_0000_0000);
    }
    let next = crate::text::decimal_string(next_num as u64);
    let hv = char_vec(html);
    let page_lit = concat("page=", next.as_str());
    let p_lit = concat("p=", next.as_str());
    let plv = char_vec(page_lit.as_str());
    let pv = char_vec(p_lit.as_str());
    if crate::text::contains_seq(&hv, &plv) || crate::text::contains_seq(&hv, &pv) {
        let mut rest = pairs_without(&pairs, &key);
        let ghost rv = crate::weburl::pair_views(rest@);
        rest.push((key, next));
        assert(crate::weburl::pair_views(rest@) =~= rv.push((rest@[rest@.len() - 1].0@, rest@[rest@.len() - 1].1@)));
        crate::weburl::replace_query(current, &rest)
    } else {
        None
    }
}

/// The next page of a listing.
pub fn discover_next_page(current_url: &str, html: &str) -> (r: Option<String>)
    ensures
        r.deep_view() == next_page(current_url@, html@),
{
    match rel_next_of(REL_NEXT_RE, current_url, html) {
        Some(u) => return Some(u),
        None => {},
    }
    match rel_next_of(REL_NEXT_REV_RE, current_url, html) {
        Some(u) => return Some(u),
        None => {},
    }
    match anchor_next_of(A_REL_NEXT_RE, current_url, html) {
        Some(u) => return Some(u),
        None => {},
    }
    match anchor_next_of(A_CLASS_NEXT_RE, current_url, html) {
        Some(u) => return Some(u),
        None => {},
    }
    numbered_next_of(current_url, html)
}

/// The post links of a page never repeat.
pub proof fn lemma_post_links_no_repeats(current: Seq<char>, html: Seq<char>)
    ensures
        no_repeats(page_post_links(current, html)),
{
    lemma_post_links_fold(current, page_host(current), regex_captures(ANCHOR_HREF_RE@, 1, html));
}

proof fn lemma_post_links_fold(current: Seq<char>, host: Seq<char>, caps: Seq<Option<Seq<char>>>)
    ensures
        no_repeats(post_links(current, host, caps)),
    decreases caps.len(),
{
    if caps.len() > 0 {
        lemma_post_links_fold(current, host, caps.drop_last());
        let r = post_links(current, host, caps.drop_last());
        match caps.last() {
            Some(m) => lemma_add_unique_no_repeats(r, resolved_link(current, m)),
            None => {},
        }
    }
}

} // verus!
