//! Page text: the words of a caption and the hashtags among them, and what
//! a page's markup says of itself: publication time, description, tags and
//! embedded players.
use vstd::prelude::*;

use crate::links::{add_unique, lemma_add_unique_no_repeats, no_repeats, push_unique, resolve_relative_url, resolved_link};
use crate::patterns::{
    captures_of, first_capture, first_capture_of, regex_captures, IFRAME_SRC_RE, META_DESC_RE,
    TAG_HREF_RE, TIME_RE,
};
use crate::text::{
    char_vec, contains_lit, copy_string, has_sub, holds_string, in_class, is_ws, lowercase,
    slice_vec, string_of, to_lower, trim, trim_class, trim_ws, CharClass,
};

verus! {

/// The run of non-white-space characters at the end of `s`.
pub open spec fn open_word(s: Seq<char>) -> Seq<char>
    decreases s.len(),
{
    if s.len() == 0 || is_ws(s.last()) {
        seq![]
    } else {
        open_word(s.drop_last()).push(s.last())
    }
}

/// The words of `s` that white space has already ended.
pub open spec fn closed_words(s: Seq<char>) -> Seq<Seq<char>>
    decreases s.len(),
{
    if s.len() == 0 {
        seq![]
    } else if is_ws(s.last()) && open_word(s.drop_last()).len() > 0 {
        closed_words(s.drop_last()).push(open_word(s.drop_last()))
    } else {
        closed_words(s.drop_last())
    }
}

/// The words of `s`: its maximal runs of non-white-space characters, as
/// `str::split_whitespace` gives them.
pub open spec fn ws_words(s: Seq<char>) -> Seq<Seq<char>> {
    if open_word(s).len() > 0 {
        closed_words(s).push(open_word(s))
    } else {
        closed_words(s)
    }
}

/// The words of `s`.
pub fn split_whitespace(s: &Vec<char>) -> (r: Vec<Vec<char>>)
    ensures
        r.deep_view() == ws_words(s@),
{
    let mut done: Vec<Vec<char>> = Vec::new();
    let mut cur: Vec<char> = Vec::new();
    let mut i: usize = 0;
    while i < s.len()
        invariant
            i <= s@.len(),
            done.deep_view() == closed_words(s@.take(i as int)),
            cur@ == open_word(s@.take(i as int)),
        decreases s.len() - i,
    {
        let c = s[i];
        assert(s@.take(i + 1).drop_last() =~= s@.take(i as int));
        assert(s@.take(i + 1).last() == c);
        let ws = crate::text::class_has(&CharClass::Whitespace, c);
        if ws {
            if cur.len() > 0 {
                let ghost before = done.deep_view();
                let w = cur;
                proof {
                    crate::text::lemma_char_vec_deep_view(w);
                }
                done.push(w);
                assert(done.deep_view() =~= before.push(open_word(s@.take(i as int))));
            }
            cur = Vec::new();
            assert(cur@ =~= open_word(s@.take(i + 1)));
        } else {
            cur.push(c);
        }
        i += 1;
    }
    assert(s@.take(s@.len() as int) =~= s@);
    if cur.len() > 0 {
        let ghost before = done.deep_view();
        let w = cur;
        proof {
            crate::text::lemma_char_vec_deep_view(w);
        }
        done.push(w);
        assert(done.deep_view() =~= before.push(open_word(s@)));
    }
    done
}

/// The tag of a word: after a leading `#`, without ASCII punctuation or
/// white space at its ends, when something is left.
pub open spec fn tag_of(word: Seq<char>) -> Option<Seq<char>> {
    if word.len() > 0 && word[0] == '#' {
        let t = trim(word.drop_first(), CharClass::PunctOrWhitespace);
        if t.len() > 0 {
            Some(t)
        } else {
            None
        }
    } else {
        None
    }
}

/// The lowercase forms of tags.
pub open spec fn lowered(tags: Seq<Seq<char>>) -> Seq<Seq<char>> {
    tags.map_values(|t: Seq<char>| lowercase(t))
}

/// The hashtags of a list of words, in order, a tag dropped when one that
/// is equal ignoring case came before it.
pub open spec fn hashtags(words: Seq<Seq<char>>) -> Seq<Seq<char>>
    decreases words.len(),
{
    if words.len() == 0 {
        seq![]
    } else {
        let r = hashtags(words.drop_last());
        match tag_of(words.last()) {
            Some(t) => if lowered(r).contains(lowercase(t)) {
                r
            } else {
                r.push(t)
            },
            None => r,
        }
    }
}

/// The hashtags of a text.
pub open spec fn text_hashtags(text: Seq<char>) -> Seq<Seq<char>> {
    hashtags(ws_words(text))
}

/// The tag of a word.
fn word_tag(word: &Vec<char>) -> (r: Option<Vec<char>>)
    ensures
        r.is_some() == tag_of(word@).is_some(),
        r.is_some() ==> r.unwrap()@ == tag_of(word@).unwrap(),
{
    if word.len() == 0 || word[0] != '#' {
        return None;
    }
    let rest = slice_vec(word, 1, word.len());
    assert(rest@ =~= word@.drop_first());
    let t = trim_class(&rest, &CharClass::PunctOrWhitespace);
    if t.len() > 0 {
        Some(t)
    } else {
        None
    }
}

/// The hashtags of a text, in order of first appearance, distinct ignoring
/// case, each without its `#` and surrounding punctuation.
pub fn extract_hashtags_from_text(text: &str) -> (r: Vec<String>)
    ensures
        r.deep_view() == text_hashtags(text@),
{
    let chars = char_vec(text);
    let words = split_whitespace(&chars);
    let mut tags: Vec<String> = Vec::new();
    let mut seen: Vec<String> = Vec::new();
    let mut i: usize = 0;
    while i < words.len()
        invariant
            i <= words@.len(),
            words.deep_view() == ws_words(text@),
            tags.deep_view() == hashtags(words.deep_view().take(i as int)),
            seen.deep_view() == lowered(tags.deep_view()),
        decreases words.len() - i,
    {
        let ghost ws = words.deep_view();
        assert(ws.take(i + 1).drop_last() =~= ws.take(i as int));
        assert(ws.take(i + 1).last() == ws[i as int]);
        proof {
            crate::text::lemma_char_vec_deep_view(words@[i as int]);
        }
        match word_tag(&words[i]) {
            Some(t) => {
                let tag = string_of(&t);
                let low = to_lower(tag.as_str());
                if !holds_string(&seen, &low) {
                    let ghost tb = tags.deep_view();
                    let ghost sb = seen.deep_view();
                    seen.push(low);
                    tags.push(tag);
                    assert(tags.deep_view() =~= tb.push(t@));
                    assert(seen.deep_view() =~= sb.push(lowercase(t@)));
                    assert(lowered(tags.deep_view()) =~= lowered(tb).push(lowercase(t@)));
                }
            },
            None => {},
        }
        i += 1;
    }
    assert(words.deep_view().take(words@.len() as int) =~= words.deep_view());
    tags
}

// ---------------------------------------------------------------------------
// Page metadata
// ---------------------------------------------------------------------------

/// The first capture of a pattern, without surrounding white space.
pub open spec fn trimmed_capture(pattern: Seq<char>, html: Seq<char>) -> Option<Seq<char>> {
    match first_capture(pattern, 1, html) {
        Some(m) => Some(trim(m, CharClass::Whitespace)),
        None => None,
    }
}

/// Computes `trimmed_capture`.
fn trimmed_capture_of(pattern: &str, html: &str) -> (r: Option<String>)
    ensures
        r.deep_view() == trimmed_capture(pattern@, html@),
{
    match first_capture_of(pattern, 1, html) {
        Some(m) => {
            let v = char_vec(m.as_str());
            Some(string_of(&trim_ws(&v)))
        },
        None => None,
    }
}

/// The `datetime` of the page's first `<time>` element.
pub fn extract_published_time(html: &str) -> (r: Option<String>)
    ensures
        r.deep_view() == trimmed_capture(TIME_RE@, html@),
{
    trimmed_capture_of(TIME_RE, html)
}

/// The page's description (`description` or `og:description` meta tag).
pub fn extract_post_text(html: &str) -> (r: Option<String>)
    ensures
        r.deep_view() == trimmed_capture(META_DESC_RE@, html@),
{
    trimmed_capture_of(META_DESC_RE, html)
}

/// The tags named by tag-page links, trimmed and lowercase, non-empty, in
/// order, each once.
pub open spec fn link_tags(caps: Seq<Option<Seq<char>>>) -> Seq<Seq<char>>
    decreases caps.len(),
{
    if caps.len() == 0 {
        seq![]
    } else {
        let r = link_tags(caps.drop_last());
        match caps.last() {
            Some(m) => {
                let tag = lowercase(trim(m, CharClass::Whitespace));
                if tag.len() > 0 {
                    add_unique(r, tag)
                } else {
                    r
                }
            },
            None => r,
        }
    }
}

/// The tags of a page, from its links to tag pages.
pub fn extract_tags(html: &str) -> (r: Vec<String>)
    ensures
        r.deep_view() == link_tags(regex_captures(TAG_HREF_RE@, 1, html@)),
{
    let caps = captures_of(TAG_HREF_RE, 1, html);
    let ghost cv = caps.deep_view();
    let mut out: Vec<String> = Vec::new();
    let mut i: usize = 0;
    while i < caps.len()
        invariant
            i <= caps@.len(),
            cv == caps.deep_view(),
            out.deep_view() == link_tags(cv.take(i as int)),
        decreases caps.len() - i,
    {
        assert(cv.take(i + 1).drop_last() =~= cv.take(i as int));
        assert(cv.take(i + 1).last() == cv[i as int]);
        match &caps[i] {
            Some(m) => {
                let v = char_vec(m.as_str());
                let t = string_of(&trim_ws(&v));
                let tag = to_lower(t.as_str());
                let tv = char_vec(tag.as_str());
                if tv.len() > 0 {
                    push_unique(&mut out, tag);
                }
            },
            None => {},
        }
        i += 1;
    }
    assert(cv.take(cv.len() as int) =~= cv);
    out
}

/// Hosts of known embeddable players.
pub open spec fn known_player(lower: Seq<char>) -> bool {
    ||| has_sub(lower, "youtube.com/embed"@)
    ||| has_sub(lower, "youtu.be"@)
    ||| has_sub(lower, "player.vimeo.com"@)
    ||| has_sub(lower, "redgifs.com/ifr"@)
    ||| has_sub(lower, "streamable.com/e/"@)
    ||| has_sub(lower, "megacloud"@)
    ||| has_sub(lower, "rabbitstream"@)
}

/// The frame sources that are known players, resolved, in order, each once.
pub open spec fn player_links(current: Seq<char>, caps: Seq<Option<Seq<char>>>) -> Seq<Seq<char>>
    decreases caps.len(),
{
    if caps.len() == 0 {
        seq![]
    } else {
        let r = player_links(current, caps.drop_last());
        match caps.last() {
            Some(m) => {
                let full = resolved_link(current, m);
                if known_player(lowercase(full)) {
                    add_unique(r, full)
                } else {
                    r
                }
            },
            None => r,
        }
    }
}

/// Tests `known_player`.
fn is_known_player(lower: &Vec<char>) -> (r: bool)
    ensures
        r == known_player(lower@),
{
    contains_lit(lower, "youtube.com/embed") || contains_lit(lower, "youtu.be") || contains_lit(
        lower,
        "player.vimeo.com",
    ) || contains_lit(lower, "redgifs.com/ifr") || contains_lit(lower, "streamable.com/e/")
        || contains_lit(lower, "megacloud") || contains_lit(lower, "rabbitstream")
}

/// The embedded players of a page.
pub fn extract_embedded_players(current_url: &str, html: &str) -> (r: Vec<String>)
    ensures
        r.deep_view() == player_links(current_url@, regex_captures(IFRAME_SRC_RE@, 1, html@)),
{
    let caps = captures_of(IFRAME_SRC_RE, 1, html);
    let ghost cv = caps.deep_view();
    let mut out: Vec<String> = Vec::new();
    let mut i: usize = 0;
    while i < caps.len()
        invariant
            i <= caps@.len(),
            cv == caps.deep_view(),
            out.deep_view() == player_links(current_url@, cv.take(i as int)),
        decreases caps.len() - i,
    {
        assert(cv.take(i + 1).drop_last() =~= cv.take(i as int));
        assert(cv.take(i + 1).last() == cv[i as int]);
        match &caps[i] {
            Some(m) => {
                let full = resolve_relative_url(current_url, m.as_str());
                let lower = to_lower(full.as_str());
                let lv = char_vec(lower.as_str());
                if is_known_player(&lv) {
                    push_unique(&mut out, full);
                }
            },
            None => {},
        }
        i += 1;
    }
    assert(cv.take(cv.len() as int) =~= cv);
    out
}

/// The hashtags of a text are non-empty and no two are equal ignoring
/// case.
pub proof fn lemma_hashtags_distinct(words: Seq<Seq<char>>)
    ensures
        forall|i: int, j: int|
            0 <= i < j < hashtags(words).len() ==> lowercase(#[trigger] hashtags(words)[i]) != lowercase(
                #[trigger] hashtags(words)[j],
            ),
        forall|i: int| 0 <= i < hashtags(words).len() ==> (#[trigger] hashtags(words)[i]).len() > 0,
    decreases words.len(),
{
    if words.len() > 0 {
        lemma_hashtags_distinct(words.drop_last());
        let r = hashtags(words.drop_last());
        match tag_of(words.last()) {
            Some(t) => if !lowered(r).contains(lowercase(t)) {
                let w = r.push(t);
                assert forall|i: int, j: int| 0 <= i < j < w.len() implies lowercase(#[trigger] w[i]) != lowercase(
                    #[trigger] w[j],
                ) by {
                    if j == w.len() - 1 {
                        assert(lowered(r)[i] == lowercase(r[i]));
                    }
                }
            },
            None => {},
        }
    }
}

/// The tags of a page never repeat.
pub proof fn lemma_link_tags_no_repeats(caps: Seq<Option<Seq<char>>>)
    ensures
        no_repeats(link_tags(caps)),
    decreases caps.len(),
{
    if caps.len() > 0 {
        lemma_link_tags_no_repeats(caps.drop_last());
        match caps.last() {
            Some(m) => lemma_add_unique_no_repeats(link_tags(caps.drop_last()), lowercase(trim(m, CharClass::Whitespace))),
            None => {},
        }
    }
}

/// The embedded players of a page never repeat.
pub proof fn lemma_player_links_no_repeats(current: Seq<char>, caps: Seq<Option<Seq<char>>>)
    ensures
        no_repeats(player_links(current, caps)),
    decreases caps.len(),
{
    if caps.len() > 0 {
        lemma_player_links_no_repeats(current, caps.drop_last());
        match caps.last() {
            Some(m) => lemma_add_unique_no_repeats(player_links(current, caps.drop_last()), resolved_link(current, m)),
            None => {},
        }
    }
}

} // verus!
