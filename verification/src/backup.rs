//! Remote backup paths: each asset gets a readable path under its owner's
//! folder, `users/{username}/{folder}/{file}`, made unique within a sync
//! run by numbering repeats (`name_1.ext`, `name_2.ext`, ...).
use vstd::prelude::*;

use crate::records::BackupRepo;
use crate::text::{
    char_vec, concat, concat3, copy_string, decimal, decimal_string, digit_char, equals_lit,
    holds_string, rsplit_once, split_last, string_of, trim, trim_class, CharClass,
};

verus! {

/// The name `path` takes at repeat `k`: its stem, `_k`, then its extension
/// (after the last `.`) when it has one.
pub open spec fn numbered(path: Seq<char>, k: nat) -> Seq<char> {
    match rsplit_once(path, '.') {
        Some((stem, ext)) => stem + "_"@ + decimal(k) + ("."@ + ext),
        None => path + "_"@ + decimal(k),
    }
}

/// The path a backup gets given the paths already taken: the path itself
/// when free, else its first free numbered form.
pub open spec fn unique_path(path: Seq<char>, taken: Seq<Seq<char>>, r: Seq<char>) -> bool {
    if !taken.contains(path) {
        r == path
    } else {
        exists|k: nat|
            #![trigger numbered(path, k)]
            k >= 1 && r == numbered(path, k) && !taken.contains(numbered(path, k)) && forall|j: nat|
                1 <= j < k ==> taken.contains(#[trigger] numbered(path, j))
    }
}

proof fn lemma_digit_char_injective(a: nat, b: nat)
    requires
        a < 10,
        b < 10,
        digit_char(a) == digit_char(b),
    ensures
        a == b,
{
}

proof fn lemma_decimal_len(n: nat)
    ensures
        decimal(n).len() >= 1,
        n >= 10 ==> decimal(n).len() >= 2,
    decreases n,
{
    if n >= 10 {
        lemma_decimal_len(n / 10);
    }
}

/// Decimal representations are distinct for distinct numbers.
proof fn lemma_decimal_injective(a: nat, b: nat)
    requires
        decimal(a) == decimal(b),
    ensures
        a == b,
    decreases a,
{
    lemma_decimal_len(a);
    lemma_decimal_len(b);
    if a < 10 && b < 10 {
        assert(decimal(a)[0] == digit_char(a));
        assert(decimal(b)[0] == digit_char(b));
        lemma_digit_char_injective(a, b);
    } else if a >= 10 && b >= 10 {
        let da = decimal(a);
        let db = decimal(b);
        assert(da.last() == digit_char(a % 10));
        assert(db.last() == digit_char(b % 10));
        lemma_digit_char_injective(a % 10, b % 10);
        assert(da.drop_last() == decimal(a / 10));
        assert(db.drop_last() == decimal(b / 10));
        lemma_decimal_injective(a / 10, b / 10);
    } else {
        assert(decimal(a).len() != decimal(b).len());
    }
}

/// Numbered forms are distinct for distinct numbers.
proof fn lemma_numbered_injective(path: Seq<char>, j: nat, k: nat)
    requires
        numbered(path, j) == numbered(path, k),
    ensures
        j == k,
{
    reveal_strlit("_");
    reveal_strlit(".");
    let dj = decimal(j);
    let dk = decimal(k);
    match rsplit_once(path, '.') {
        Some((stem, ext)) => {
            let tail = "."@ + ext;
            let a = stem + "_"@ + dj + tail;
            let b = stem + "_"@ + dk + tail;
            assert(a.len() == b.len());
            assert(dj.len() == dk.len());
            let s: int = stem.len() as int + 1;
            assert(a.subrange(s, s + dj.len() as int) =~= dj);
            assert(b.subrange(s, s + dk.len() as int) =~= dk);
        },
        None => {
            let a = path + "_"@ + dj;
            let b = path + "_"@ + dk;
            let s: int = path.len() as int + 1;
            assert(a.subrange(s, a.len() as int) =~= dj);
            assert(b.subrange(s, b.len() as int) =~= dk);
        },
    }
    lemma_decimal_injective(j, k);
}

/// The stem and the extension (with its dot) of a path.
fn split_extension(path: &str) -> (r: (String, String))
    ensures
        match rsplit_once(path@, '.') {
            Some((stem, ext)) => r.0@ == stem && r.1@ == "."@ + ext,
            None => r.0@ == path@ && r.1@ == Seq::<char>::empty(),
        },
{
    let v = char_vec(path);
    match split_last(&v, '.') {
        Some((stem, ext)) => {
            let e = string_of(&ext);
            (string_of(&stem), concat(".", e.as_str()))
        },
        None => {
            let e = String::new();
            (path.to_owned(), e)
        },
    }
}

impl BackupRepo {
    /// Makes `path` unique among the paths `seen` holds, records the
    /// result there and returns it.
    pub fn deduplicate_path(path: &str, seen: &mut Vec<String>) -> (r: String)
        requires
            old(seen)@.len() < usize::MAX,
        ensures
            unique_path(path@, old(seen).deep_view(), r@),
            final(seen).deep_view() == old(seen).deep_view().push(r@),
    {
        let p = path.to_owned();
        if !holds_string(seen, &p) {
            let ghost before = seen.deep_view();
            seen.push(copy_string(&p));
            assert(seen.deep_view() =~= before.push(p@));
            return p;
        }
        let ghost taken = seen.deep_view();
        let (stem, ext) = split_extension(path);
        let mut counter: u64 = 1;
        let ghost mut used: Set<Seq<char>> = Set::empty();
        loop
            invariant
                1 <= counter,
                counter <= taken.len() + 1,
                taken == seen.deep_view(),
                taken == old(seen).deep_view(),
                taken.len() == seen@.len(),
                seen@.len() < usize::MAX,
                taken.contains(path@),
                match rsplit_once(path@, '.') {
                    Some((s, e)) => stem@ == s && ext@ == "."@ + e,
                    None => stem@ == path@ && ext@ == Seq::<char>::empty(),
                },
                forall|j: nat| 1 <= j < counter ==> taken.contains(#[trigger] numbered(path@, j)),
                used.finite(),
                used.len() == counter - 1,
                used.subset_of(taken.to_set()),
                forall|s: Seq<char>| #[trigger] used.contains(s) ==> exists|j: nat| 1 <= j < counter && s == numbered(path@, j),
            decreases taken.len() + 1 - counter,
        {
            let d = decimal_string(counter);
            let head = concat3(stem.as_str(), "_", d.as_str());
            let candidate = concat(head.as_str(), ext.as_str());
            assert(candidate@ == numbered(path@, counter as nat)) by {
                match rsplit_once(path@, '.') {
                    Some((s, e)) => {
                        assert(candidate@ =~= s + "_"@ + decimal(counter as nat) + ("."@ + e));
                    },
                    None => {
                        assert(candidate@ =~= path@ + "_"@ + decimal(counter as nat) + ext@);
                    },
                }
            }
            if !holds_string(seen, &candidate) {
                let ghost before = seen.deep_view();
                seen.push(copy_string(&candidate));
                assert(seen.deep_view() =~= before.push(candidate@));
                assert(unique_path(path@, taken, candidate@)) by {
                    assert(candidate@ == numbered(path@, counter as nat));
                }
                return candidate;
            }
            proof {
                let c = numbered(path@, counter as nat);
                assert(!used.contains(c)) by {
                    if used.contains(c) {
                        let j = choose|j: nat| 1 <= j < counter && c == numbered(path@, j);
                        lemma_numbered_injective(path@, j, counter as nat);
                    }
                }
                let grown = used.insert(c);
                assert(grown.len() == used.len() + 1);
                assert(grown.subset_of(taken.to_set()));
                taken.lemma_cardinality_of_set();
                vstd::seq_lib::seq_to_set_is_finite(taken);
                vstd::set_lib::lemma_len_subset(grown, taken.to_set());
                assert forall|s: Seq<char>| #[trigger] grown.contains(s) implies exists|j: nat|
                    1 <= j < counter + 1 && s == numbered(path@, j) by {
                    if s == c {
                        assert(1 <= counter < counter + 1 && s == numbered(path@, counter as nat));
                    } else {
                        let j = choose|j: nat| 1 <= j < counter && s == numbered(path@, j);
                        assert(1 <= j < counter + 1 && s == numbered(path@, j));
                    }
                }
                used = grown;
            }
            counter += 1;
        }
    }
}

/// A backup candidate: an asset to copy, update or remove remotely.
#[derive(Debug, Clone)]
pub struct BackupCandidate {
    pub asset_id: String,
    pub user_id: String,
    pub username: String,
    pub disk_rel_path: String,
    pub suggested_remote_path: String,
    pub sha256: String,
    pub is_deleted: bool,
}

/// An asset awaiting backup, as the catalogue lists it.
#[derive(Debug, Clone)]
pub struct BackupRow {
    pub asset_id: String,
    pub user_id: String,
    pub username: String,
    pub disk_rel_path: String,
    pub folder_path: String,
    pub file_name: String,
    pub sha256: String,
    pub is_deleted: bool,
}

/// The remote path of an asset before numbering: under
/// `users/{username}/`, its folder without outer slashes (none for an
/// empty folder or `root`), then its file name.
pub open spec fn remote_base(username: Seq<char>, folder: Seq<char>, file: Seq<char>) -> Seq<char> {
    let base = trim(folder, CharClass::Only('/'));
    let clean = if base.len() == 0 || base == "root"@ {
        Seq::<char>::empty()
    } else {
        base + "/"@
    };
    "users/"@ + username + "/"@ + clean + file
}

/// Builds `remote_base`.
pub fn remote_base_of(username: &str, folder: &str, file: &str) -> (r: String)
    ensures
        r@ == remote_base(username@, folder@, file@),
{
    let fv = char_vec(folder);
    let base = trim_class(&fv, &CharClass::Only('/'));
    let clean = if base.len() == 0 || equals_lit(&base, "root") {
        String::new()
    } else {
        let b = string_of(&base);
        concat(b.as_str(), "/")
    };
    let head = concat3("users/", username, "/");
    let mid = concat(head.as_str(), clean.as_str());
    concat(mid.as_str(), file)
}

/// The suggested remote paths of candidates.
pub open spec fn remote_paths(cands: Seq<BackupCandidate>) -> Seq<Seq<char>> {
    cands.map_values(|c: BackupCandidate| c.suggested_remote_path@)
}

/// The backup candidates of listed assets, in order: each keeps its row's
/// fields and gets its remote base made unique among the paths given
/// before it.
pub fn backup_candidates(rows: &Vec<BackupRow>) -> (r: Vec<BackupCandidate>)
    requires
        rows@.len() < usize::MAX,
    ensures
        r@.len() == rows@.len(),
        forall|i: int|
            0 <= i < rows@.len() ==> {
                let row = #[trigger] rows@[i];
                let c = r@[i];
                &&& c.asset_id@ == row.asset_id@
                &&& c.user_id@ == row.user_id@
                &&& c.username@ == row.username@
                &&& c.disk_rel_path@ == row.disk_rel_path@
                &&& c.sha256@ == row.sha256@
                &&& c.is_deleted == row.is_deleted
                &&& unique_path(
                    remote_base(row.username@, row.folder_path@, row.file_name@),
                    remote_paths(r@).take(i),
                    c.suggested_remote_path@,
                )
            },
{
    let mut seen: Vec<String> = Vec::new();
    let mut out: Vec<BackupCandidate> = Vec::new();
    let mut i: usize = 0;
    while i < rows.len()
        invariant
            i <= rows@.len(),
            rows@.len() < usize::MAX,
            out@.len() == i,
            seen@.len() == i,
            seen.deep_view() == remote_paths(out@),
            forall|k: int|
                0 <= k < i ==> {
                    let row = #[trigger] rows@[k];
                    let c = out@[k];
                    &&& c.asset_id@ == row.asset_id@
                    &&& c.user_id@ == row.user_id@
                    &&& c.username@ == row.username@
                    &&& c.disk_rel_path@ == row.disk_rel_path@
                    &&& c.sha256@ == row.sha256@
                    &&& c.is_deleted == row.is_deleted
                    &&& unique_path(
                        remote_base(row.username@, row.folder_path@, row.file_name@),
                        remote_paths(out@).take(k),
                        c.suggested_remote_path@,
                    )
                },
        decreases rows.len() - i,
    {
        let row = &rows[i];
        let base = remote_base_of(row.username.as_str(), row.folder_path.as_str(), row.file_name.as_str());
        let ghost before = out@;
        let path = BackupRepo::deduplicate_path(base.as_str(), &mut seen);
        out.push(
            BackupCandidate {
                asset_id: copy_string(&row.asset_id),
                user_id: copy_string(&row.user_id),
                username: copy_string(&row.username),
                disk_rel_path: copy_string(&row.disk_rel_path),
                suggested_remote_path: path,
                sha256: copy_string(&row.sha256),
                is_deleted: row.is_deleted,
            },
        );
        proof {
            assert(remote_paths(out@) =~= remote_paths(before).push(out@[i as int].suggested_remote_path@));
            assert(remote_paths(out@).take(i as int) =~= remote_paths(before));
            assert forall|k: int| 0 <= k < i implies #[trigger] remote_paths(out@).take(k) == remote_paths(before).take(k) by {
                assert(remote_paths(out@).take(k) =~= remote_paths(before).take(k));
            }
        }
        i += 1;
    }
    out
}

/// Every path handed out in one run is distinct: a path made unique
/// among the paths before it differs from each of them.
pub proof fn lemma_remote_paths_distinct(bases: Seq<Seq<char>>, paths: Seq<Seq<char>>)
    requires
        bases.len() == paths.len(),
        forall|i: int| 0 <= i < paths.len() ==> unique_path(#[trigger] bases[i], paths.take(i), paths[i]),
    ensures
        forall|i: int, j: int| 0 <= i < j < paths.len() ==> paths[i] != paths[j],
{
    assert forall|i: int, j: int| 0 <= i < j < paths.len() implies paths[i] != paths[j] by {
        assert(unique_path(bases[j], paths.take(j), paths[j]));
        assert(paths.take(j)[i] == paths[i]);
        assert(paths.take(j).contains(paths[i]));
        if !paths.take(j).contains(bases[j]) {
        } else {
            let k = choose|k: nat|
                #![trigger numbered(bases[j], k)]
                k >= 1 && paths[j] == numbered(bases[j], k) && !paths.take(j).contains(numbered(bases[j], k))
                    && forall|m: nat| 1 <= m < k ==> paths.take(j).contains(#[trigger] numbered(bases[j], m));
        }
    }
}

} // verus!
