//! Where uploaded originals are stored: sanitized folder paths, per-user
//! upload directories and on-disk file names.
use vstd::prelude::*;

use crate::paths::{file_extension, join_path, join_path_str, path_extension};
use crate::text::{
    char_vec, in_class, concat3, equals_lit, join_chars, join_with, lowercase, split_chars, split_on,
    string_of, to_lower, trim, trim_class, trim_end, trim_start, trim_ws, CharClass,
};

verus! {

/// Naming and placement rules for stored files.
pub struct StorageService;

/// The segments of a folder path that survive sanitizing: each piece
/// trimmed of white space, empty pieces and `..` dropped.
pub open spec fn kept_segments(pieces: Seq<Seq<char>>) -> Seq<Seq<char>>
    decreases pieces.len(),
{
    if pieces.len() == 0 {
        seq![]
    } else {
        let r = kept_segments(pieces.drop_last());
        let p = trim(pieces.last(), CharClass::Whitespace);
        if p.len() > 0 && p != seq!['.', '.'] {
            r.push(p)
        } else {
            r
        }
    }
}

/// The sanitized form of a folder path: surrounding white space and slashes
/// removed, segments trimmed, empty and `..` segments dropped, the rest
/// joined with `/`; `root` when nothing is left.
pub open spec fn sanitized_folder(folder: Seq<char>) -> Seq<char> {
    let trimmed = trim(trim(folder, CharClass::Whitespace), CharClass::Only('/'));
    let parts = kept_segments(split_on(trimmed, '/'));
    if trimmed.len() == 0 || parts.len() == 0 {
        "root"@
    } else {
        join_with(parts, seq!['/'])
    }
}

/// The upload directory of a user: `<root>/users/<user>/originals`, then
/// the folder unless it is empty or `root`.
pub open spec fn upload_dir(root: Seq<char>, user_id: Seq<char>, folder: Seq<char>) -> Seq<char> {
    let dir = join_path(join_path(join_path(root, "users"@), user_id), "originals"@);
    if folder.len() == 0 || folder == "root"@ {
        dir
    } else {
        join_path(dir, folder)
    }
}

/// The stored name of an asset: its id, a dot, and the lowercased extension
/// of the original name (`raw` when it has none).
pub open spec fn disk_filename(asset_id: Seq<char>, ext: Option<Seq<char>>) -> Seq<char> {
    let e = match ext {
        Some(x) => lowercase(x),
        None => lowercase("raw"@),
    };
    asset_id + seq!['.'] + e
}

fn keep_segments(pieces: &Vec<Vec<char>>) -> (r: Vec<Vec<char>>)
    ensures
        r.deep_view() == kept_segments(pieces.deep_view()),
{
    let mut r: Vec<Vec<char>> = Vec::new();
    let mut i: usize = 0;
    while i < pieces.len()
        invariant
            i <= pieces.len(),
            r.deep_view() == kept_segments(pieces.deep_view().take(i as int)),
        decreases pieces.len() - i,
    {
        proof {
            assert(pieces.deep_view().take(i + 1).drop_last() =~= pieces.deep_view().take(i as int));
            crate::text::lemma_char_vec_deep_view(pieces@[i as int]);
        }
        let p = trim_ws(&pieces[i]);
        if p.len() > 0 && !equals_lit(&p, "..") {
            let ghost before = r.deep_view();
            proof {
                crate::text::lemma_char_vec_deep_view(p);
                reveal_strlit("..");
                assert(".."@ =~= seq!['.', '.']);
            }
            r.push(p);
            assert(r.deep_view() =~= before.push(p@));
        } else {
            proof {
                reveal_strlit("..");
                assert(".."@ =~= seq!['.', '.']);
            }
        }
        i += 1;
    }
    assert(pieces.deep_view().take(pieces.len() as int) =~= pieces.deep_view());
    r
}

impl StorageService {
    /// Normalizes a user-supplied folder path into a safe relative path.
    pub fn sanitize_folder_path(folder: &str) -> (r: String)
        ensures
            r@ == sanitized_folder(folder@),
    {
        let f = char_vec(folder);
        let t1 = trim_ws(&f);
        let trimmed = trim_class(&t1, &CharClass::Only('/'));
        if trimmed.len() == 0 {
            return "root".to_owned();
        }
        let pieces = split_chars(&trimmed, '/');
        let parts = keep_segments(&pieces);
        if parts.len() == 0 {
            "root".to_owned()
        } else {
            let sep = vec!['/'];
            assert(sep@ =~= seq!['/']);
            let joined = join_chars(&parts, &sep);
            string_of(&joined)
        }
    }

    /// The directory for a user's uploads: `<root>/users/<user>/originals`,
    /// plus the sanitized folder unless it is empty or `root`.
    pub fn resolve_upload_dir(storage_root: &str, user_id: &str, sanitized_folder: &str) -> (r:
        String)
        ensures
            r@ == upload_dir(storage_root@, user_id@, sanitized_folder@),
    {
        let a = join_path_str(storage_root, "users");
        let b = join_path_str(a.as_str(), user_id);
        let dir = join_path_str(b.as_str(), "originals");
        let f = char_vec(sanitized_folder);
        if f.len() == 0 || equals_lit(&f, "root") {
            dir
        } else {
            join_path_str(dir.as_str(), sanitized_folder)
        }
    }

    /// The name under which an asset is stored: `<asset_id>.<ext>`, with the
    /// original name's extension lowercased, or `raw` when it has none.
    pub fn generate_disk_filename(asset_id: &str, original_filename: &str) -> (r: String)
        ensures
            r@ == disk_filename(asset_id@, path_extension(original_filename@)),
    {
        let ext = file_extension(original_filename);
        let lower = match &ext {
            Some(e) => to_lower(e.as_str()),
            None => to_lower("raw"),
        };
        proof {
            reveal_strlit(".");
            assert("."@ =~= seq!['.']);
        }
        concat3(asset_id, ".", lower.as_str())
    }
}

/// A segment that a sanitized path may hold: not empty, not `..`, free of
/// `/`, and without white space at either end.
pub open spec fn safe_segment(p: Seq<char>) -> bool {
    &&& p.len() > 0
    &&& p != seq!['.', '.']
    &&& !p.contains('/')
    &&& trim(p, CharClass::Whitespace) == p
}

/// No piece of `split_on(s, c)` holds `c`.
proof fn lemma_pieces_lack_separator(s: Seq<char>, c: char)
    ensures
        forall|k: int| 0 <= k < split_on(s, c).len() ==> !(#[trigger] split_on(s, c)[k]).contains(c),
    decreases s.len(),
{
    if s.len() > 0 {
        let t = s.drop_last();
        lemma_pieces_lack_separator(t, c);
        crate::text::lemma_split_on_nonempty(t, c);
        let r = split_on(t, c);
        let out = split_on(s, c);
        if s.last() == c {
            assert(out == r.push(seq![]));
            assert forall|k: int| 0 <= k < out.len() implies !(#[trigger] out[k]).contains(c) by {
                if k < r.len() {
                    assert(out[k] == r[k]);
                } else {
                    assert(out[k] =~= Seq::<char>::empty());
                }
            }
        } else {
            let last = r.last().push(s.last());
            assert(out == r.update(r.len() - 1, last));
            assert(!r[r.len() - 1].contains(c));
            assert(!last.contains(c)) by {
                if last.contains(c) {
                    let i = choose|i: int| 0 <= i < last.len() && last[i] == c;
                    assert(r.last()[i] == c);
                }
            }
            assert forall|k: int| 0 <= k < out.len() implies !(#[trigger] out[k]).contains(c) by {
                if k < r.len() - 1 {
                    assert(out[k] == r[k]);
                }
            }
        }
    }
}

proof fn lemma_trim_start_lacks(s: Seq<char>, class: CharClass, c: char)
    requires
        !s.contains(c),
    ensures
        !trim_start(s, class).contains(c),
    decreases s.len(),
{
    if s.len() > 0 && crate::text::in_class(class, s[0]) {
        assert(!s.drop_first().contains(c)) by {
            if s.drop_first().contains(c) {
                let i = choose|i: int| 0 <= i < s.drop_first().len() && s.drop_first()[i] == c;
                assert(s[i + 1] == c);
            }
        }
        lemma_trim_start_lacks(s.drop_first(), class, c);
    }
}

proof fn lemma_trim_end_lacks(s: Seq<char>, class: CharClass, c: char)
    requires
        !s.contains(c),
    ensures
        !trim_end(s, class).contains(c),
    decreases s.len(),
{
    if s.len() > 0 && crate::text::in_class(class, s.last()) {
        assert(!s.drop_last().contains(c)) by {
            if s.drop_last().contains(c) {
                let i = choose|i: int| 0 <= i < s.drop_last().len() && s.drop_last()[i] == c;
                assert(s[i] == c);
            }
        }
        lemma_trim_end_lacks(s.drop_last(), class, c);
    }
}

/// Every kept segment is safe when no piece holds a `/`.
proof fn lemma_kept_segments_safe(pieces: Seq<Seq<char>>)
    requires
        forall|k: int| 0 <= k < pieces.len() ==> !(#[trigger] pieces[k]).contains('/'),
    ensures
        forall|k: int| 0 <= k < kept_segments(pieces).len() ==> safe_segment(#[trigger] kept_segments(pieces)[k]),
    decreases pieces.len(),
{
    if pieces.len() > 0 {
        let t = pieces.drop_last();
        assert forall|k: int| 0 <= k < t.len() implies !(#[trigger] t[k]).contains('/') by {
            assert(t[k] == pieces[k]);
        }
        lemma_kept_segments_safe(t);
        let p = trim(pieces.last(), CharClass::Whitespace);
        assert(!pieces[pieces.len() - 1].contains('/'));
        lemma_trim_start_lacks(pieces.last(), CharClass::Whitespace, '/');
        lemma_trim_end_lacks(trim_start(pieces.last(), CharClass::Whitespace), CharClass::Whitespace, '/');
        lemma_trim_idempotent(pieces.last(), CharClass::Whitespace);
        let r = kept_segments(t);
        let out = kept_segments(pieces);
        assert forall|k: int| 0 <= k < out.len() implies safe_segment(#[trigger] out[k]) by {
            if k < r.len() {
                assert(out[k] == r[k]);
            } else {
                assert(out[k] == p);
            }
        }
    }
}

/// A sanitized folder path is never empty. It is `root`, or segments joined
/// by `/`, each of them non-empty, not `..`, free of `/` and trimmed of
/// white space: it cannot climb out of the user's directory nor be
/// absolute.
pub proof fn lemma_sanitized_folder_is_safe(folder: Seq<char>)
    ensures
        sanitized_folder(folder).len() > 0,
        sanitized_folder(folder) == "root"@ || exists|segs: Seq<Seq<char>>|
            segs.len() > 0 && sanitized_folder(folder) == #[trigger] join_with(segs, seq!['/'])
                && forall|k: int| 0 <= k < segs.len() ==> safe_segment(#[trigger] segs[k]),
{
    let trimmed = trim(trim(folder, CharClass::Whitespace), CharClass::Only('/'));
    let pieces = split_on(trimmed, '/');
    lemma_pieces_lack_separator(trimmed, '/');
    lemma_kept_segments_safe(pieces);
    let segs = kept_segments(pieces);
    if !(trimmed.len() == 0 || segs.len() == 0) {
        assert(sanitized_folder(folder) == join_with(segs, seq!['/']));
        assert forall|k: int| 0 <= k < segs.len() implies #[trigger] segs[k].len() > 0 && !segs[k].contains('/') by {
            assert(safe_segment(segs[k]));
        }
        lemma_join_split(segs, '/');
    } else {
        reveal_strlit("root");
    }
}


// ---------------------------------------------------------------------------
// Laws of sanitizing
// ---------------------------------------------------------------------------

/// The first character left by `trim_start` is outside the class.
proof fn lemma_trim_start_first(s: Seq<char>, class: CharClass)
    ensures
        trim_start(s, class).len() > 0 ==> !in_class(class, trim_start(s, class)[0]),
    decreases s.len(),
{
    if s.len() > 0 && in_class(class, s[0]) {
        lemma_trim_start_first(s.drop_first(), class);
    }
}

/// `trim_end` keeps a prefix of `s` whose last character is outside the
/// class.
proof fn lemma_trim_end_prefix(s: Seq<char>, class: CharClass)
    ensures
        trim_end(s, class).len() <= s.len(),
        forall|i: int| 0 <= i < trim_end(s, class).len() ==> #[trigger] trim_end(s, class)[i] == s[i],
        trim_end(s, class).len() > 0 ==> !in_class(class, trim_end(s, class).last()),
    decreases s.len(),
{
    if s.len() > 0 && in_class(class, s.last()) {
        lemma_trim_end_prefix(s.drop_last(), class);
    }
}

/// Both ends of a trimmed string lie outside the class.
proof fn lemma_trim_ends(s: Seq<char>, class: CharClass)
    ensures
        trim(s, class).len() > 0 ==> !in_class(class, trim(s, class)[0]) && !in_class(
            class,
            trim(s, class).last(),
        ),
{
    let u = trim_start(s, class);
    lemma_trim_start_first(s, class);
    lemma_trim_end_prefix(u, class);
    if trim(s, class).len() > 0 {
        assert(trim(s, class)[0] == u[0]);
    }
}

/// A string whose ends lie outside the class is its own trim.
proof fn lemma_trim_unchanged(s: Seq<char>, class: CharClass)
    requires
        s.len() > 0,
        !in_class(class, s[0]),
        !in_class(class, s.last()),
    ensures
        trim(s, class) == s,
{
    assert(trim_start(s, class) == s);
    assert(trim_end(s, class) == s);
}

/// Trimming twice trims once.
proof fn lemma_trim_idempotent(s: Seq<char>, class: CharClass)
    ensures
        trim(trim(s, class), class) == trim(s, class),
{
    let t = trim(s, class);
    lemma_trim_ends(s, class);
    if t.len() > 0 {
        lemma_trim_unchanged(t, class);
    } else {
        assert(t =~= Seq::<char>::empty());
    }
}

/// `trim_start` of a string with one more character at its end.
proof fn lemma_trim_start_push(s: Seq<char>, w: char, class: CharClass)
    requires
        in_class(class, w),
    ensures
        trim_start(s.push(w), class) == if trim_start(s, class).len() > 0 {
            trim_start(s, class).push(w)
        } else {
            Seq::<char>::empty()
        },
    decreases s.len(),
{
    if s.len() == 0 {
        let e = Seq::<char>::empty();
        assert(s.push(w) =~= seq![w]);
        assert(seq![w].drop_first() =~= e);
        assert(trim_start(e, class) == e);
        assert(trim_start(seq![w], class) == trim_start(e, class));
    } else {
        assert(s.push(w)[0] == s[0]);
        if in_class(class, s[0]) {
            assert(s.push(w).drop_first() =~= s.drop_first().push(w));
            lemma_trim_start_push(s.drop_first(), w, class);
        }
    }
}

/// A character of the class added at the end does not change the trim.
proof fn lemma_trim_push(s: Seq<char>, w: char, class: CharClass)
    requires
        in_class(class, w),
    ensures
        trim(s.push(w), class) == trim(s, class),
{
    lemma_trim_start_push(s, w, class);
    let u = trim_start(s, class);
    if u.len() > 0 {
        assert(u.push(w).drop_last() =~= u);
    } else {
        assert(u =~= Seq::<char>::empty());
    }
}

/// Segments are kept piece by piece.
proof fn lemma_kept_concat(a: Seq<Seq<char>>, b: Seq<Seq<char>>)
    ensures
        kept_segments(a + b) == kept_segments(a) + kept_segments(b),
    decreases b.len(),
{
    if b.len() == 0 {
        assert(a + b =~= a);
        assert(kept_segments(a) + kept_segments(b) =~= kept_segments(a));
    } else {
        assert((a + b).drop_last() =~= a + b.drop_last());
        assert((a + b).last() == b.last());
        lemma_kept_concat(a, b.drop_last());
        let p = trim(b.last(), CharClass::Whitespace);
        if p.len() > 0 && p != seq!['.', '.'] {
            assert(kept_segments(a) + kept_segments(b.drop_last()).push(p) =~= (kept_segments(a)
                + kept_segments(b.drop_last())).push(p));
        }
    }
}

/// Two pieces with the same trim keep the same segments.
proof fn lemma_kept_single(x: Seq<char>, y: Seq<char>)
    requires
        trim(x, CharClass::Whitespace) == trim(y, CharClass::Whitespace),
    ensures
        kept_segments(seq![x]) == kept_segments(seq![y]),
{
    assert(seq![x].drop_last() =~= Seq::<Seq<char>>::empty());
    assert(seq![y].drop_last() =~= Seq::<Seq<char>>::empty());
    assert(kept_segments(Seq::<Seq<char>>::empty()) == Seq::<Seq<char>>::empty());
}

/// An empty piece keeps nothing.
proof fn lemma_kept_empty_piece()
    ensures
        kept_segments(seq![Seq::<char>::empty()]) == Seq::<Seq<char>>::empty(),
{
    let e = Seq::<char>::empty();
    assert(seq![e].drop_last() =~= Seq::<Seq<char>>::empty());
    assert(kept_segments(Seq::<Seq<char>>::empty()) == Seq::<Seq<char>>::empty());
    assert(trim_start(e, CharClass::Whitespace) == e);
    assert(trim_end(e, CharClass::Whitespace) == e);
}

/// The pieces of a string with one more character at its front.
proof fn lemma_split_cons(c0: char, t: Seq<char>, c: char)
    ensures
        split_on(seq![c0] + t, c) == if c0 == c {
            seq![Seq::<char>::empty()] + split_on(t, c)
        } else {
            split_on(t, c).update(0, seq![c0] + split_on(t, c)[0])
        },
    decreases t.len(),
{
    let s = seq![c0] + t;
    crate::text::lemma_split_on_nonempty(t, c);
    if t.len() == 0 {
        assert(s =~= seq![c0]);
        assert(t =~= Seq::<char>::empty());
        assert(s.drop_last() =~= Seq::<char>::empty());
        assert(split_on(Seq::<char>::empty(), c) == seq![Seq::<char>::empty()]);
        assert(seq![c0] + Seq::<char>::empty() =~= seq![c0]);
        assert(Seq::<char>::empty().push(c0) =~= seq![c0]);
        if c0 == c {
            assert(split_on(s, c) =~= seq![Seq::<char>::empty()] + split_on(t, c));
        } else {
            assert(split_on(s, c) =~= split_on(t, c).update(0, seq![c0] + split_on(t, c)[0]));
        }
    } else {
        let t1 = t.drop_last();
        let x = t.last();
        assert(s.drop_last() =~= seq![c0] + t1);
        assert(s.last() == x);
        lemma_split_cons(c0, t1, c);
        crate::text::lemma_split_on_nonempty(t1, c);
        let r1 = split_on(t1, c);
        let big = split_on(seq![c0] + t1, c);
        if x == c {
            assert(split_on(t, c) == r1.push(Seq::<char>::empty()));
            assert(split_on(s, c) == big.push(Seq::<char>::empty()));
            if c0 == c {
                assert(split_on(s, c) =~= seq![Seq::<char>::empty()] + split_on(t, c));
            } else {
                assert(split_on(t, c)[0] == r1[0]);
                assert(split_on(s, c) =~= split_on(t, c).update(0, seq![c0] + split_on(t, c)[0]));
            }
        } else {
            let rt = r1.update(r1.len() - 1, r1.last().push(x));
            assert(split_on(t, c) == rt);
            assert(split_on(s, c) == big.update(big.len() - 1, big.last().push(x)));
            if c0 == c {
                assert(split_on(s, c) =~= seq![Seq::<char>::empty()] + split_on(t, c));
            } else {
                if r1.len() == 1 {
                    assert((seq![c0] + r1[0]).push(x) =~= seq![c0] + r1[0].push(x));
                    assert(split_on(s, c) =~= split_on(t, c).update(0, seq![c0] + split_on(t, c)[0]));
                } else {
                    assert(split_on(t, c)[0] == r1[0]);
                    assert(split_on(s, c) =~= split_on(t, c).update(0, seq![c0] + split_on(t, c)[0]));
                }
            }
        }
    }
}

/// Removing a leading white-space character or a leading `/` keeps the same
/// segments.
proof fn lemma_kept_drop_first(s: Seq<char>, class: CharClass)
    requires
        class == CharClass::Whitespace || class == CharClass::Only('/'),
        s.len() > 0,
        in_class(class, s[0]),
    ensures
        kept_segments(split_on(s.drop_first(), '/')) == kept_segments(split_on(s, '/')),
{
    let t = s.drop_first();
    let c0 = s[0];
    assert(s =~= seq![c0] + t);
    lemma_split_cons(c0, t, '/');
    crate::text::lemma_split_on_nonempty(t, '/');
    let st = split_on(t, '/');
    let rest = st.drop_first();
    assert(st =~= seq![st[0]] + rest);
    lemma_kept_concat(seq![st[0]], rest);
    if c0 == '/' {
        lemma_kept_concat(seq![Seq::<char>::empty()], st);
        lemma_kept_empty_piece();
        assert(kept_segments(split_on(s, '/')) =~= kept_segments(st));
    } else {
        let first = seq![c0] + st[0];
        assert(split_on(s, '/') =~= seq![first] + rest);
        lemma_kept_concat(seq![first], rest);
        assert(first.drop_first() =~= st[0]);
        assert(trim_start(first, CharClass::Whitespace) == trim_start(st[0], CharClass::Whitespace));
        lemma_kept_single(first, st[0]);
    }
}

/// Removing a trailing white-space character or a trailing `/` keeps the
/// same segments.
proof fn lemma_kept_drop_last(s: Seq<char>, class: CharClass)
    requires
        class == CharClass::Whitespace || class == CharClass::Only('/'),
        s.len() > 0,
        in_class(class, s.last()),
    ensures
        kept_segments(split_on(s.drop_last(), '/')) == kept_segments(split_on(s, '/')),
{
    let t = s.drop_last();
    let w = s.last();
    crate::text::lemma_split_on_nonempty(t, '/');
    let r = split_on(t, '/');
    let front = r.drop_last();
    assert(r =~= front + seq![r.last()]);
    lemma_kept_concat(front, seq![r.last()]);
    if w == '/' {
        assert(split_on(s, '/') == r.push(Seq::<char>::empty()));
        assert(r.push(Seq::<char>::empty()) =~= r + seq![Seq::<char>::empty()]);
        lemma_kept_concat(r, seq![Seq::<char>::empty()]);
        lemma_kept_empty_piece();
        assert(kept_segments(r) + Seq::<Seq<char>>::empty() =~= kept_segments(r));
    } else {
        let last = r.last().push(w);
        assert(split_on(s, '/') =~= front + seq![last]);
        lemma_kept_concat(front, seq![last]);
        lemma_trim_push(r.last(), w, CharClass::Whitespace);
        lemma_kept_single(last, r.last());
    }
}

/// Trimming white space or slashes at the start keeps the same segments.
proof fn lemma_kept_trim_start(s: Seq<char>, class: CharClass)
    requires
        class == CharClass::Whitespace || class == CharClass::Only('/'),
    ensures
        kept_segments(split_on(trim_start(s, class), '/')) == kept_segments(split_on(s, '/')),
    decreases s.len(),
{
    if s.len() > 0 && in_class(class, s[0]) {
        lemma_kept_trim_start(s.drop_first(), class);
        lemma_kept_drop_first(s, class);
    }
}

/// Trimming white space or slashes at the end keeps the same segments.
proof fn lemma_kept_trim_end(s: Seq<char>, class: CharClass)
    requires
        class == CharClass::Whitespace || class == CharClass::Only('/'),
    ensures
        kept_segments(split_on(trim_end(s, class), '/')) == kept_segments(split_on(s, '/')),
    decreases s.len(),
{
    if s.len() > 0 && in_class(class, s.last()) {
        lemma_kept_trim_end(s.drop_last(), class);
        lemma_kept_drop_last(s, class);
    }
}

/// The sanitized form of a folder path is decided by the pieces of the raw
/// path: the segments kept from them joined with `/`, `root` when none is
/// kept.
pub proof fn lemma_sanitized_from_raw_pieces(folder: Seq<char>)
    ensures
        sanitized_folder(folder) == if kept_segments(split_on(folder, '/')).len() == 0 {
            "root"@
        } else {
            join_with(kept_segments(split_on(folder, '/')), seq!['/'])
        },
{
    let ws = CharClass::Whitespace;
    let sl = CharClass::Only('/');
    let a = trim_start(folder, ws);
    let b = trim_end(a, ws);
    let c = trim_start(b, sl);
    let d = trim_end(c, sl);
    lemma_kept_trim_start(folder, ws);
    lemma_kept_trim_end(a, ws);
    lemma_kept_trim_start(b, sl);
    lemma_kept_trim_end(c, sl);
    if d.len() == 0 {
        assert(d =~= Seq::<char>::empty());
        assert(split_on(d, '/') =~= seq![Seq::<char>::empty()]);
        lemma_kept_empty_piece();
    }
}

/// A folder path whose pieces between slashes are all blank or `..`
/// sanitizes to `root`.
pub proof fn lemma_blank_folder_is_root(folder: Seq<char>)
    requires
        forall|k: int|
            0 <= k < split_on(folder, '/').len() ==> {
                let p = trim(#[trigger] split_on(folder, '/')[k], CharClass::Whitespace);
                p.len() == 0 || p == seq!['.', '.']
            },
    ensures
        sanitized_folder(folder) == "root"@,
{
    lemma_kept_none(split_on(folder, '/'));
    lemma_sanitized_from_raw_pieces(folder);
}

/// Pieces that are all blank or `..` keep nothing.
proof fn lemma_kept_none(pieces: Seq<Seq<char>>)
    requires
        forall|k: int|
            0 <= k < pieces.len() ==> {
                let p = trim(#[trigger] pieces[k], CharClass::Whitespace);
                p.len() == 0 || p == seq!['.', '.']
            },
    ensures
        kept_segments(pieces).len() == 0,
    decreases pieces.len(),
{
    if pieces.len() > 0 {
        let t = pieces.drop_last();
        assert forall|k: int| 0 <= k < t.len() implies {
            let p = trim(#[trigger] t[k], CharClass::Whitespace);
            p.len() == 0 || p == seq!['.', '.']
        } by {
            assert(t[k] == pieces[k]);
        }
        lemma_kept_none(t);
        assert(pieces.last() == pieces[pieces.len() - 1]);
    }
}

/// A piece free of the separator is the only piece.
proof fn lemma_split_single(s: Seq<char>, c: char)
    requires
        !s.contains(c),
    ensures
        split_on(s, c) == seq![s],
    decreases s.len(),
{
    if s.len() > 0 {
        assert(!s.drop_last().contains(c)) by {
            if s.drop_last().contains(c) {
                let i = choose|i: int| 0 <= i < s.drop_last().len() && s.drop_last()[i] == c;
                assert(s[i] == c);
            }
        }
        lemma_split_single(s.drop_last(), c);
        assert(s[s.len() - 1] == s.last());
        assert(s.drop_last().push(s.last()) =~= s);
        assert(split_on(s, c) =~= seq![s]);
    } else {
        assert(s =~= Seq::<char>::empty());
    }
}

/// Splitting after a separator and a last piece free of it.
proof fn lemma_split_append(a: Seq<char>, b: Seq<char>, c: char)
    requires
        !b.contains(c),
    ensures
        split_on(a + seq![c] + b, c) == split_on(a, c).push(b),
    decreases b.len(),
{
    let s = a + seq![c] + b;
    if b.len() == 0 {
        assert(s =~= a.push(c));
        assert(s.drop_last() =~= a);
        assert(b =~= Seq::<char>::empty());
    } else {
        assert(!b.drop_last().contains(c)) by {
            if b.drop_last().contains(c) {
                let i = choose|i: int| 0 <= i < b.drop_last().len() && b.drop_last()[i] == c;
                assert(b[i] == c);
            }
        }
        assert(b[b.len() - 1] == b.last());
        lemma_split_append(a, b.drop_last(), c);
        assert(s.drop_last() =~= a + seq![c] + b.drop_last());
        assert(s.last() == b.last());
        assert(b.drop_last().push(b.last()) =~= b);
        assert(split_on(s, c) =~= split_on(a, c).push(b));
    }
}

/// Joined segments free of the separator split back into the segments; the
/// joined string starts with the first segment's first character and ends
/// with the last segment's last character.
proof fn lemma_join_split(segs: Seq<Seq<char>>, c: char)
    requires
        segs.len() > 0,
        forall|k: int| 0 <= k < segs.len() ==> #[trigger] segs[k].len() > 0 && !segs[k].contains(c),
    ensures
        split_on(join_with(segs, seq![c]), c) == segs,
        join_with(segs, seq![c]).len() > 0,
        join_with(segs, seq![c])[0] == segs[0][0],
        join_with(segs, seq![c]).last() == segs.last().last(),
    decreases segs.len(),
{
    let last = segs[segs.len() - 1];
    assert(segs.last() == last);
    if segs.len() == 1 {
        lemma_split_single(segs[0], c);
        assert(seq![segs[0]] =~= segs);
    } else {
        let front = segs.drop_last();
        assert forall|k: int| 0 <= k < front.len() implies #[trigger] front[k].len() > 0 && !front[k].contains(c) by {
            assert(front[k] == segs[k]);
        }
        lemma_join_split(front, c);
        let j = join_with(front, seq![c]);
        assert(join_with(segs, seq![c]) == j + seq![c] + last);
        lemma_split_append(j, last, c);
        assert(front.push(last) =~= segs);
        assert(front[0] == segs[0]);
        assert((j + seq![c] + last)[0] == j[0]);
        assert((j + seq![c] + last).last() == last.last());
    }
}

/// Safe segments are all kept.
proof fn lemma_kept_safe_unchanged(segs: Seq<Seq<char>>)
    requires
        forall|k: int| 0 <= k < segs.len() ==> safe_segment(#[trigger] segs[k]),
    ensures
        kept_segments(segs) == segs,
    decreases segs.len(),
{
    if segs.len() > 0 {
        let front = segs.drop_last();
        assert forall|k: int| 0 <= k < front.len() implies safe_segment(#[trigger] front[k]) by {
            assert(front[k] == segs[k]);
        }
        lemma_kept_safe_unchanged(front);
        assert(safe_segment(segs[segs.len() - 1]));
        assert(segs.last() == segs[segs.len() - 1]);
        assert(front.push(segs.last()) =~= segs);
    }
}

/// `root` sanitizes to itself.
proof fn lemma_root_is_sanitized()
    ensures
        sanitized_folder("root"@) == "root"@,
{
    reveal_strlit("root");
    let r = "root"@;
    assert(!r.contains('/')) by {
        if r.contains('/') {
            let i = choose|i: int| 0 <= i < r.len() && r[i] == '/';
            assert(r[i] == '/');
        }
    }
    lemma_trim_unchanged(r, CharClass::Whitespace);
    lemma_trim_unchanged(r, CharClass::Only('/'));
    lemma_split_single(r, '/');
    assert(trim(r, CharClass::Whitespace) == r);
    assert(seq![r].drop_last() =~= Seq::<Seq<char>>::empty());
    assert(kept_segments(Seq::<Seq<char>>::empty()) == Seq::<Seq<char>>::empty());
    assert(r != seq!['.', '.']);
    assert(kept_segments(seq![r]) =~= seq![r]);
}

/// Sanitizing a sanitized folder path changes nothing.
pub proof fn lemma_sanitize_idempotent(folder: Seq<char>)
    ensures
        sanitized_folder(sanitized_folder(folder)) == sanitized_folder(folder),
{
    let s = sanitized_folder(folder);
    lemma_sanitized_folder_is_safe(folder);
    if s == "root"@ {
        lemma_root_is_sanitized();
    } else {
        let segs = choose|segs: Seq<Seq<char>>|
            segs.len() > 0 && s == #[trigger] join_with(segs, seq!['/'])
                && forall|k: int| 0 <= k < segs.len() ==> safe_segment(#[trigger] segs[k]);
        assert forall|k: int| 0 <= k < segs.len() implies #[trigger] segs[k].len() > 0 && !segs[k].contains('/') by {
            assert(safe_segment(segs[k]));
        }
        lemma_join_split(segs, '/');
        let first = segs[0];
        let last = segs[segs.len() - 1];
        assert(segs.last() == last);
        assert(safe_segment(first));
        assert(safe_segment(last));
        lemma_trim_ends(first, CharClass::Whitespace);
        lemma_trim_ends(last, CharClass::Whitespace);
        assert(first[0] != '/');
        assert(last.last() != '/') by {
            assert(last[last.len() - 1] == last.last());
        }
        lemma_trim_unchanged(s, CharClass::Whitespace);
        lemma_trim_unchanged(s, CharClass::Only('/'));
        lemma_kept_safe_unchanged(segs);
    }
}

} // verus!
