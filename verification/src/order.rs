//! Stable ordering by a pair of integer keys, the order that `sort_by_key`
//! gives, stated as insertion into an already ordered list.
use vstd::prelude::*;

verus! {

/// Lexicographic order on key pairs.
pub open spec fn key_le(a: (int, int), b: (int, int)) -> bool {
    a.0 < b.0 || (a.0 == b.0 && a.1 <= b.1)
}

/// Inserts index `i` into `s` after every trailing entry whose key is at most
/// that of `i`: the step of a stable insertion sort.
pub open spec fn insert_stable(s: Seq<int>, keys: Seq<(int, int)>, i: int) -> Seq<int>
    decreases s.len(),
{
    if s.len() == 0 {
        seq![i]
    } else if key_le(keys[s.last()], keys[i]) {
        s.push(i)
    } else {
        insert_stable(s.drop_last(), keys, i).push(s.last())
    }
}

/// The indices `0..n` in stable ascending order of their keys: equal keys
/// keep their relative order.
pub open spec fn stable_order(keys: Seq<(int, int)>, n: nat) -> Seq<int>
    decreases n,
{
    if n == 0 {
        seq![]
    } else {
        insert_stable(stable_order(keys, (n - 1) as nat), keys, n - 1)
    }
}

/// The keys as mathematical integers.
pub open spec fn int_keys(keys: Seq<(u128, u128)>) -> Seq<(int, int)> {
    keys.map_values(|k: (u128, u128)| (k.0 as int, k.1 as int))
}

/// Indices as mathematical integers.
pub open spec fn int_indices(v: Seq<usize>) -> Seq<int> {
    v.map_values(|i: usize| i as int)
}

proof fn lemma_insert_at(s: Seq<int>, keys: Seq<(int, int)>, i: int, j: int)
    requires
        0 <= j <= s.len(),
        j > 0 ==> key_le(keys[s[j - 1]], keys[i]),
        forall|k: int| j <= k < s.len() ==> !key_le(#[trigger] keys[s[k]], keys[i]),
    ensures
        insert_stable(s, keys, i) == s.take(j).push(i) + s.skip(j),
    decreases s.len(),
{
    if s.len() == j {
        assert(s.skip(j) =~= Seq::<int>::empty());
        assert(s.take(j) =~= s);
        if s.len() == 0 {
            assert(s.take(j).push(i) + s.skip(j) =~= seq![i]);
        } else {
            assert(s.last() == s[j - 1]);
            assert(s.take(j).push(i) + s.skip(j) =~= s.push(i));
        }
    } else {
        let t = s.drop_last();
        assert(!key_le(keys[s[s.len() - 1]], keys[i]));
        assert forall|k: int| j <= k < t.len() implies !key_le(#[trigger] keys[t[k]], keys[i]) by {
            assert(t[k] == s[k]);
        }
        if j > 0 {
            assert(t[j - 1] == s[j - 1]);
        }
        lemma_insert_at(t, keys, i, j);
        assert(t.take(j) =~= s.take(j));
        assert(t.skip(j).push(s.last()) =~= s.skip(j));
        assert(insert_stable(t, keys, i).push(s.last()) =~= s.take(j).push(i) + s.skip(j));
    }
}

/// Where `insert_stable` puts `i`: after the last trailing entry whose key
/// is at most that of `i`.
pub open spec fn insert_point(s: Seq<int>, keys: Seq<(int, int)>, i: int) -> int
    decreases s.len(),
{
    if s.len() == 0 {
        0
    } else if key_le(keys[s.last()], keys[i]) {
        s.len() as int
    } else {
        insert_point(s.drop_last(), keys, i)
    }
}

/// A stable insertion splits the list at its insertion point.
proof fn lemma_insert_split(s: Seq<int>, keys: Seq<(int, int)>, i: int)
    ensures
        0 <= insert_point(s, keys, i) <= s.len(),
        insert_stable(s, keys, i) == s.take(insert_point(s, keys, i)).push(i) + s.skip(
            insert_point(s, keys, i),
        ),
        insert_point(s, keys, i) > 0 ==> key_le(keys[s[insert_point(s, keys, i) - 1]], keys[i]),
        forall|k: int|
            insert_point(s, keys, i) <= k < s.len() ==> !key_le(#[trigger] keys[s[k]], keys[i]),
    decreases s.len(),
{
    let p = insert_point(s, keys, i);
    if s.len() == 0 {
        assert(s.take(0).push(i) + s.skip(0) =~= seq![i]);
    } else if key_le(keys[s.last()], keys[i]) {
        assert(s.take(s.len() as int).push(i) + s.skip(s.len() as int) =~= s.push(i));
    } else {
        let t = s.drop_last();
        lemma_insert_split(t, keys, i);
        assert(p == insert_point(t, keys, i));
        assert(t.take(p) =~= s.take(p));
        assert(t.skip(p).push(s.last()) =~= s.skip(p));
        assert(insert_stable(t, keys, i).push(s.last()) =~= s.take(p).push(i) + s.skip(p));
        assert forall|k: int| p <= k < s.len() implies !key_le(#[trigger] keys[s[k]], keys[i]) by {
            if k < t.len() {
                assert(t[k] == s[k]);
            }
        }
        if p > 0 {
            assert(t[p - 1] == s[p - 1]);
        }
    }
}

/// Indices in ascending order of their keys.
pub open spec fn sorted_by_key(s: Seq<int>, keys: Seq<(int, int)>) -> bool {
    forall|a: int, b: int|
        0 <= a < b < s.len() ==> key_le(#[trigger] keys[s[a]], #[trigger] keys[s[b]])
}

/// `stable_order(keys, n)` lists each of the indices `0..n` and is in
/// ascending order of their keys.
pub proof fn lemma_stable_order(keys: Seq<(int, int)>, n: nat)
    ensures
        stable_order(keys, n).len() == n,
        forall|k: int| 0 <= k < n ==> 0 <= #[trigger] stable_order(keys, n)[k] < n,
        forall|j: int| 0 <= j < n ==> #[trigger] stable_order(keys, n).contains(j),
        sorted_by_key(stable_order(keys, n), keys),
    decreases n,
{
    if n > 0 {
        let m = (n - 1) as nat;
        let i: int = n - 1;
        let s = stable_order(keys, m);
        lemma_stable_order(keys, m);
        lemma_insert_split(s, keys, i);
        let p = insert_point(s, keys, i);
        let r = stable_order(keys, n);
        assert(r == s.take(p).push(i) + s.skip(p));
        assert(r.len() == n);
        assert forall|k: int| 0 <= k < r.len() implies #[trigger] r[k] == (if k < p {
            s[k]
        } else if k == p {
            i
        } else {
            s[k - 1]
        }) by {}
        assert forall|k: int| 0 <= k < n implies 0 <= #[trigger] r[k] < n by {
            if k < p {
                assert(r[k] == s[k]);
            } else if k > p {
                assert(r[k] == s[k - 1]);
            }
        }
        assert forall|j: int| 0 <= j < n implies #[trigger] r.contains(j) by {
            if j < i {
                assert(s.contains(j));
                let k0 = choose|k: int| 0 <= k < s.len() && #[trigger] s[k] == j;
                if k0 < p {
                    assert(r[k0] == j);
                } else {
                    assert(r[k0 + 1] == j);
                }
            } else {
                assert(r[p] == j);
            }
        }
        assert forall|x: int| 0 <= x < p implies key_le(#[trigger] keys[s[x]], keys[i]) by {
            if x < p - 1 {
                assert(key_le(keys[s[x]], keys[s[p - 1]]));
            }
        }
        assert forall|x: int| p <= x < s.len() implies key_le(keys[i], #[trigger] keys[s[x]]) by {
            assert(!key_le(keys[s[x]], keys[i]));
        }
        assert forall|a: int, b: int| 0 <= a < b < r.len() implies key_le(
            #[trigger] keys[r[a]],
            #[trigger] keys[r[b]],
        ) by {
            if b < p {
                assert(r[a] == s[a] && r[b] == s[b]);
            } else if b == p {
                assert(r[a] == s[a] && r[b] == i);
            } else if a < p {
                assert(r[a] == s[a] && r[b] == s[b - 1]);
                assert(key_le(keys[s[a]], keys[i]));
                assert(key_le(keys[i], keys[s[b - 1]]));
            } else if a == p {
                assert(r[a] == i && r[b] == s[b - 1]);
            } else {
                assert(r[a] == s[a - 1] && r[b] == s[b - 1]);
            }
        }
    }
}

/// Whether key pair `a` comes strictly after `b`.
fn key_gt(a: (u128, u128), b: (u128, u128)) -> (r: bool)
    ensures
        r == !key_le((a.0 as int, a.1 as int), (b.0 as int, b.1 as int)),
{
    a.0 > b.0 || (a.0 == b.0 && a.1 > b.1)
}

/// The positions `0..keys.len()` in stable ascending order of their keys.
pub fn stable_sorted_indices(keys: &Vec<(u128, u128)>) -> (order: Vec<usize>)
    ensures
        int_indices(order@) == stable_order(int_keys(keys@), keys@.len()),
        order@.len() == keys@.len(),
        forall|k: int| 0 <= k < order@.len() ==> order@[k] < keys@.len(),
{
    let ghost ks = int_keys(keys@);
    let mut order: Vec<usize> = Vec::new();
    let n = keys.len();
    let mut i: usize = 0;
    while i < n
        invariant
            n == keys@.len(),
            ks == int_keys(keys@),
            i <= n,
            order@.len() == i,
            int_indices(order@) == stable_order(ks, i as nat),
            forall|k: int| 0 <= k < order@.len() ==> order@[k] < i,
        decreases n - i,
    {
        let ki = keys[i];
        let mut j = order.len();
        while j > 0 && key_gt(keys[order[j - 1]], ki)
            invariant
                n == keys@.len(),
                ks == int_keys(keys@),
                i < n,
                ki == keys@[i as int],
                j <= order@.len(),
                order@.len() == i,
                forall|k: int| 0 <= k < order@.len() ==> order@[k] < i,
                forall|k: int|
                    j <= k < order@.len() ==> !key_le(
                        #[trigger] ks[order@[k] as int],
                        ks[i as int],
                    ),
            decreases j,
        {
            j -= 1;
        }
        proof {
            let s = int_indices(order@);
            assert forall|k: int| j <= k < s.len() implies !key_le(
                #[trigger] ks[s[k]],
                ks[i as int],
            ) by {
                assert(s[k] == order@[k] as int);
            }
            if j > 0 {
                assert(s[j - 1] == order@[j - 1] as int);
                assert(key_le(ks[s[j - 1]], ks[i as int]));
            }
            lemma_insert_at(s, ks, i as int, j as int);
        }
        let ghost old_order = order@;
        order.insert(j, i);
        proof {
            assert(int_indices(order@) =~= int_indices(old_order).take(j as int).push(i as int)
                + int_indices(old_order).skip(j as int));
            assert forall|k: int| 0 <= k < order@.len() implies order@[k] < i + 1 by {
                if k < j {
                    assert(order@[k] == old_order[k]);
                } else if k > j {
                    assert(order@[k] == old_order[k - 1]);
                }
            }
        }
        i += 1;
    }
    order
}

} // verus!
