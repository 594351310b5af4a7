//! Committing a processed asset or its AI enrichment: which new people get
//! their cover face filled in, which person each detected face is bound
//! to, and which model tags link to which tag rows.
use vstd::prelude::*;

use crate::records::IngestionRepo;
use crate::tagging::{lookup_tag_row, row_lookup, row_views};
use crate::text::{char_vec, copy_string, holds_string, lowercase, string_of, to_lower, trim, trim_ws, CharClass};

verus! {

/// A text that is empty, or blank when blanks count as empty.
pub open spec fn is_blank(s: Seq<char>, trim_blank: bool) -> bool {
    if trim_blank {
        trim(s, CharClass::Whitespace).len() == 0
    } else {
        s.len() == 0
    }
}

/// Pairs of strings seen as plain values.
pub open spec fn pairs_view(v: Seq<(String, String)>) -> Seq<(Seq<char>, Seq<char>)> {
    v.map_values(|p: (String, String)| (p.0@, p.1@))
}

/// The new people whose cover face is to be filled in: those with a cover
/// face that is not empty (nor blank, when blanks count as empty), as
/// (person, cover face) pairs, in order.
pub open spec fn cover_backfills(people: Seq<(Seq<char>, Seq<char>)>, trim_blank: bool) -> Seq<(Seq<char>, Seq<char>)> {
    people.filter(|p: (Seq<char>, Seq<char>)| !is_blank(p.1, trim_blank))
}

/// The people that detected faces name: their ids without surrounding
/// white space, blank ones left out, in order.
pub open spec fn referenced_people(ids: Seq<Seq<char>>) -> Seq<Seq<char>>
    decreases ids.len(),
{
    if ids.len() == 0 {
        seq![]
    } else {
        let r = referenced_people(ids.drop_last());
        let t = trim(ids.last(), CharClass::Whitespace);
        if t.len() > 0 {
            r.push(t)
        } else {
            r
        }
    }
}

/// The person a detected face is saved with: none for a blank id; when the
/// existing people are known, none unless the trimmed id is among them;
/// otherwise the id as given.
pub open spec fn face_binding(person_id: Seq<char>, existing: Option<Seq<Seq<char>>>) -> Option<Seq<char>> {
    let t = trim(person_id, CharClass::Whitespace);
    if t.len() == 0 {
        None
    } else {
        match existing {
            Some(found) => if found.contains(t) {
                Some(person_id)
            } else {
                None
            },
            None => Some(person_id),
        }
    }
}

/// The links of model tags to tag rows: for each tag (by position) whose
/// lowercase name names a row, that row's id.
pub open spec fn model_tag_links(names: Seq<Seq<char>>, rows: Seq<(i64, Seq<char>)>) -> Seq<(int, i64)>
    decreases names.len(),
{
    if names.len() == 0 {
        seq![]
    } else {
        let r = model_tag_links(names.drop_last(), rows);
        match row_lookup(rows, lowercase(names.last())) {
            Some(id) => r.push((names.len() - 1, id)),
            None => r,
        }
    }
}

/// Whether a text is empty (or blank).
fn blank(s: &str, trim_blank: bool) -> (r: bool)
    ensures
        r == is_blank(s@, trim_blank),
{
    let v = char_vec(s);
    if trim_blank {
        trim_ws(&v).len() == 0
    } else {
        v.len() == 0
    }
}

impl IngestionRepo {
    /// The (person, cover face) pairs to fill in after the faces are saved.
    pub fn cover_backfills(people: &Vec<(String, String)>, trim_blank: bool) -> (r: Vec<(String, String)>)
        ensures
            pairs_view(r@) == cover_backfills(pairs_view(people@), trim_blank),
    {
        let ghost pv = pairs_view(people@);
        let mut out: Vec<(String, String)> = Vec::new();
        let mut i: usize = 0;
        while i < people.len()
            invariant
                i <= people@.len(),
                pv == pairs_view(people@),
                pairs_view(out@) == pv.take(i as int).filter(|p: (Seq<char>, Seq<char>)| !is_blank(p.1, trim_blank)),
            decreases people.len() - i,
        {
            let ghost before = pairs_view(out@);
            assert(pv.take(i + 1) =~= pv.take(i as int).push(pv[i as int]));
            proof {
                pv.take(i as int).lemma_filter_push(pv[i as int], |p: (Seq<char>, Seq<char>)| !is_blank(p.1, trim_blank));
            }
            if !blank(people[i].1.as_str(), trim_blank) {
                out.push((copy_string(&people[i].0), copy_string(&people[i].1)));
                assert(pairs_view(out@) =~= before.push(pv[i as int]));
            }
            i += 1;
        }
        assert(pv.take(pv.len() as int) =~= pv);
        out
    }

    /// The trimmed, non-blank person ids that detected faces name.
    pub fn referenced_person_ids(ids: &Vec<String>) -> (r: Vec<String>)
        ensures
            r.deep_view() == referenced_people(ids.deep_view()),
    {
        let ghost iv = ids.deep_view();
        let mut out: Vec<String> = Vec::new();
        let mut i: usize = 0;
        while i < ids.len()
            invariant
                i <= ids@.len(),
                iv == ids.deep_view(),
                out.deep_view() == referenced_people(iv.take(i as int)),
            decreases ids.len() - i,
        {
            let ghost pre = iv.take(i + 1);
            assert(pre.drop_last() =~= iv.take(i as int));
            assert(pre.last() == iv[i as int]);
            let v = char_vec(ids[i].as_str());
            let t = trim_ws(&v);
            if t.len() > 0 {
                let ghost before = out.deep_view();
                out.push(string_of(&t));
                assert(out.deep_view() =~= before.push(t@));
            }
            i += 1;
        }
        assert(iv.take(iv.len() as int) =~= iv);
        out
    }

    /// The person a detected face is saved with.
    pub fn face_person(person_id: &str, existing: Option<&Vec<String>>) -> (r: Option<String>)
        ensures
            r.deep_view() == face_binding(
                person_id@,
                match existing {
                    Some(v) => Some(v.deep_view()),
                    None => None,
                },
            ),
    {
        let v = char_vec(person_id);
        let t = trim_ws(&v);
        if t.len() == 0 {
            return None;
        }
        match existing {
            Some(found) => {
                let ts = string_of(&t);
                if holds_string(found, &ts) {
                    Some(person_id.to_owned())
                } else {
                    None
                }
            },
            None => Some(person_id.to_owned()),
        }
    }

    /// The links of model tags (by position) to the user's tag rows.
    pub fn model_tag_links(names: &Vec<String>, rows: &Vec<(i64, String)>) -> (r: Vec<(usize, i64)>)
        ensures
            r@.map_values(|l: (usize, i64)| (l.0 as int, l.1)) == model_tag_links(names.deep_view(), row_views(rows@)),
    {
        let ghost nv = names.deep_view();
        let mut out: Vec<(usize, i64)> = Vec::new();
        let mut i: usize = 0;
        while i < names.len()
            invariant
                i <= names@.len(),
                nv == names.deep_view(),
                out@.map_values(|l: (usize, i64)| (l.0 as int, l.1)) == model_tag_links(nv.take(i as int), row_views(rows@)),
            decreases names.len() - i,
        {
            let ghost pre = nv.take(i + 1);
            assert(pre.drop_last() =~= nv.take(i as int));
            assert(pre.last() == nv[i as int]);
            let low = to_lower(names[i].as_str());
            match lookup_tag_row(rows, low.as_str()) {
                Some(id) => {
                    let ghost before = out@.map_values(|l: (usize, i64)| (l.0 as int, l.1));
                    out.push((i, id));
                    assert(out@.map_values(|l: (usize, i64)| (l.0 as int, l.1)) =~= before.push((i as int, id)));
                },
                None => {},
            }
            i += 1;
        }
        assert(nv.take(nv.len() as int) =~= nv);
        out
    }
}

/// A face is never bound to an unknown person: a blank id binds no one,
/// and when the existing people are given, a binding (trimmed) is one of
/// them.
pub proof fn lemma_face_binding_known(person_id: Seq<char>, existing: Option<Seq<Seq<char>>>)
    ensures
        trim(person_id, CharClass::Whitespace).len() == 0 ==> face_binding(person_id, existing) is None,
        existing matches Some(found) ==> (face_binding(person_id, existing) matches Some(b) ==> found.contains(
            trim(b, CharClass::Whitespace),
        )),
{
}

} // verus!
