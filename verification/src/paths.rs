//! File-system paths built as strings under Unix rules: joining components
//! the way `Path::join` does, and reading the extension of a path's final
//! name the way `Path::extension` does.
use vstd::prelude::*;

use crate::text::{after_last, char_vec, concat, concat3, is_prefix, is_suffix, split_on, string_of};

verus! {

/// How `Path::join` joins `name` onto `dir` on Unix: an absolute name
/// replaces the directory, and a separator is put between the two parts
/// unless the directory is empty or already ends with one.
pub open spec fn join_path(dir: Seq<char>, name: Seq<char>) -> Seq<char> {
    if is_prefix(seq!['/'], name) || dir.len() == 0 {
        name
    } else if is_suffix(seq!['/'], dir) {
        dir + name
    } else {
        dir + seq!['/'] + name
    }
}

/// Joins a path component onto a directory.
pub fn join_path_str(dir: &str, name: &str) -> (p: String)
    ensures
        p@ == join_path(dir@, name@),
{
    let d = char_vec(dir);
    let n = char_vec(name);
    let absolute = n.len() > 0 && n[0] == '/';
    proof {
        if n@.len() > 0 {
            if n@[0] == '/' {
                assert(n@.subrange(0, 1) =~= seq!['/']);
            } else {
                assert(n@.subrange(0, 1)[0] != seq!['/'][0]);
            }
        }
    }
    if absolute || d.len() == 0 {
        string_of(&n)
    } else if d[d.len() - 1] == '/' {
        proof {
            assert(d@.subrange(d@.len() - 1, d@.len() as int) =~= seq!['/']);
        }
        concat(dir, name)
    } else {
        proof {
            assert(d@.subrange(d@.len() - 1, d@.len() as int)[0] != seq!['/'][0]);
        }
        let sep = vec!['/'];
        let slash = string_of(&sep);
        proof {
            assert(sep@ =~= seq!['/']);
        }
        concat3(dir, slash.as_str(), name)
    }
}

/// The pieces of a path that name something: its `/`-separated pieces
/// without the empty ones and `.`, in order.
pub open spec fn named_pieces(pieces: Seq<Seq<char>>) -> Seq<Seq<char>>
    decreases pieces.len(),
{
    if pieces.len() == 0 {
        seq![]
    } else {
        let r = named_pieces(pieces.drop_last());
        let p = pieces.last();
        if p.len() == 0 || p == seq!['.'] {
            r
        } else {
            r.push(p)
        }
    }
}

/// The final name of a path under Unix rules, as `Path::file_name` gives
/// it: the last piece that names something, unless it is `..` or there is
/// none.
pub open spec fn unix_file_name(path: Seq<char>) -> Option<Seq<char>> {
    let named = named_pieces(split_on(path, '/'));
    if named.len() == 0 || named.last() == seq!['.', '.'] {
        None
    } else {
        Some(named.last())
    }
}

/// The extension of a file name: what follows its last dot, unless it has
/// no dot or its only dot leads the name.
pub open spec fn plain_extension(name: Seq<char>) -> Option<Seq<char>> {
    match name.index_of_last('.') {
        Some(i) => if i == 0 {
            None
        } else {
            Some(after_last(name, '.'))
        },
        None => None,
    }
}

/// The extension of a path under Unix rules, as `Path::extension` gives it:
/// the extension of its final name.
pub open spec fn path_extension(path: Seq<char>) -> Option<Seq<char>> {
    match unix_file_name(path) {
        Some(n) => plain_extension(n),
        None => None,
    }
}

/// The pieces that name something.
fn keep_named(pieces: &Vec<Vec<char>>) -> (r: Vec<Vec<char>>)
    ensures
        r.deep_view() == named_pieces(pieces.deep_view()),
{
    let ghost pv = pieces.deep_view();
    let mut r: Vec<Vec<char>> = Vec::new();
    let mut i: usize = 0;
    while i < pieces.len()
        invariant
            i <= pieces.len(),
            pv == pieces.deep_view(),
            r.deep_view() == named_pieces(pv.take(i as int)),
        decreases pieces.len() - i,
    {
        proof {
            assert(pv.take(i + 1).drop_last() =~= pv.take(i as int));
            crate::text::lemma_char_vec_deep_view(pieces@[i as int]);
        }
        let p = &pieces[i];
        let dot = p.len() == 1 && p[0] == '.';
        proof {
            if p@.len() == 1 {
                if p@[0] == '.' {
                    assert(p@ =~= seq!['.']);
                } else {
                    assert(p@[0] != seq!['.'][0]);
                }
            }
        }
        if p.len() > 0 && !dot {
            let ghost before = r.deep_view();
            let q = crate::text::slice_vec(p, 0, p.len());
            proof {
                assert(q@ =~= p@);
                crate::text::lemma_char_vec_deep_view(q);
            }
            r.push(q);
            assert(r.deep_view() =~= before.push(pv[i as int]));
        }
        i += 1;
    }
    assert(pv.take(pv.len() as int) =~= pv);
    r
}

/// The extension of a path under Unix rules (what `Path::extension` reports
/// on Unix).
pub(crate) fn file_extension(path: &str) -> (r: Option<String>)
    ensures
        r.deep_view() == path_extension(path@),
{
    let v = char_vec(path);
    let pieces = crate::text::split_chars(&v, '/');
    let named = keep_named(&pieces);
    if named.len() == 0 {
        return None;
    }
    let last = &named[named.len() - 1];
    proof {
        crate::text::lemma_char_vec_deep_view(named@[named@.len() - 1]);
        assert(named.deep_view().last() == last@);
        if last@.len() == 2 {
            if last@[0] == '.' && last@[1] == '.' {
                assert(last@ =~= seq!['.', '.']);
            } else if last@[0] != '.' {
                assert(last@[0] != seq!['.', '.'][0]);
            } else {
                assert(last@[1] != seq!['.', '.'][1]);
            }
        }
    }
    if last.len() == 2 && last[0] == '.' && last[1] == '.' {
        return None;
    }
    match crate::text::find_last(last, '.') {
        Some(i) => if i == 0 {
            None
        } else {
            Some(string_of(&crate::text::suffix_after(last, '.')))
        },
        None => None,
    }
}

} // verus!
