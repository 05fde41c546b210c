//! Ordering records by a 32-bit key: the order that canonical encodings
//! use, and the proof that it does not depend on the order records came in.

use vstd::prelude::*;
use vstd::multiset::Multiset;

verus! {

/// No key occurs twice.
pub open spec fn keys_distinct<T>(s: Seq<T>, key: spec_fn(T) -> u32) -> bool {
    forall|i: int, j: int| 0 <= i < j < s.len() ==> key(s[i]) != key(s[j])
}

/// Keys strictly increase along the sequence.
pub open spec fn keys_increasing<T>(s: Seq<T>, key: spec_fn(T) -> u32) -> bool {
    forall|i: int, j: int| 0 <= i < j < s.len() ==> key(s[i]) < key(s[j])
}

/// Index of the first record with the smallest key.
pub open spec fn min_key_index<T>(s: Seq<T>, key: spec_fn(T) -> u32) -> int
    decreases s.len(),
{
    if s.len() <= 1 {
        0
    } else {
        let m = min_key_index(s.drop_last(), key);
        if key(s.last()) < key(s[m]) {
            s.len() - 1
        } else {
            m
        }
    }
}

/// `min_key_index` picks a record in range whose key no other record
/// undercuts.
pub proof fn lemma_min_key_index<T>(s: Seq<T>, key: spec_fn(T) -> u32)
    requires
        s.len() > 0,
    ensures
        0 <= min_key_index(s, key) < s.len(),
        forall|k: int| 0 <= k < s.len() ==> key(s[min_key_index(s, key)]) <= #[trigger] key(s[k]),
    decreases s.len(),
{
    if s.len() > 1 {
        let t = s.drop_last();
        lemma_min_key_index(t, key);
        assert forall|k: int| 0 <= k < s.len() implies key(s[min_key_index(s, key)]) <= #[trigger] key(
            s[k],
        ) by {
            if k < s.len() - 1 {
                assert(s[k] == t[k]);
            }
        }
    }
}

/// The records ordered by key, smallest first; among equal keys the one
/// that came first goes first.
pub open spec fn sort_by_key<T>(s: Seq<T>, key: spec_fn(T) -> u32) -> Seq<T>
    decreases s.len(),
{
    if s.len() == 0 {
        Seq::empty()
    } else {
        let m = min_key_index(s, key);
        proof {
            lemma_min_key_index(s, key);
        }
        seq![s[m]] + sort_by_key(s.remove(m), key)
    }
}

/// Removing a record keeps the remaining keys distinct.
proof fn lemma_remove_keeps_distinct<T>(s: Seq<T>, m: int, key: spec_fn(T) -> u32)
    requires
        0 <= m < s.len(),
        keys_distinct(s, key),
    ensures
        keys_distinct(s.remove(m), key),
{
    let r = s.remove(m);
    assert forall|i: int, j: int| 0 <= i < j < r.len() implies key(r[i]) != key(r[j]) by {
        let a = if i < m { i } else { i + 1 };
        let b = if j < m { j } else { j + 1 };
        assert(r[i] == s[a]);
        assert(r[j] == s[b]);
    }
}

/// Sorting keeps every record, as many times as it occurs, and nothing
/// else; its keys never decrease.
pub proof fn lemma_sort_by_key_sorted<T>(s: Seq<T>, key: spec_fn(T) -> u32)
    ensures
        sort_by_key(s, key).to_multiset() == s.to_multiset(),
        sort_by_key(s, key).len() == s.len(),
        forall|i: int, j: int|
            0 <= i < j < s.len() ==> key(sort_by_key(s, key)[i]) <= key(sort_by_key(s, key)[j]),
    decreases s.len(),
{
    broadcast use {
        vstd::seq_lib::to_multiset_remove,
        vstd::seq_lib::to_multiset_contains,
        vstd::seq_lib::to_multiset_len,
        vstd::multiset::group_multiset_axioms,
    };

    if s.len() == 0 {
        assert(sort_by_key(s, key).to_multiset() =~= s.to_multiset());
    } else {
        let m = min_key_index(s, key);
        lemma_min_key_index(s, key);
        let rest = s.remove(m);
        lemma_sort_by_key_sorted(rest, key);
        let sr = sort_by_key(rest, key);
        let r = sort_by_key(s, key);
        assert(r == seq![s[m]] + sr);
        assert(r.drop_first() =~= sr);
        assert(r.to_multiset() =~= s.to_multiset()) by {
            vstd::seq_lib::lemma_multiset_commutative(seq![s[m]], sr);
            assert(seq![s[m]].to_multiset() =~= Multiset::singleton(s[m])) by {
                assert(seq![s[m]] =~= Seq::<T>::empty().push(s[m]));
                vstd::seq_lib::to_multiset_build(Seq::<T>::empty(), s[m]);
                assert(Seq::<T>::empty().to_multiset() =~= Multiset::<T>::empty());
            }
            assert(s.to_multiset() =~= rest.to_multiset().insert(s[m]));
        }
        assert forall|i: int, j: int| 0 <= i < j < s.len() implies key(r[i]) <= key(r[j]) by {
            if i == 0 {
                assert(r[j] == sr[j - 1]);
                assert(sr.to_multiset().count(sr[j - 1]) > 0);
                assert(rest.contains(sr[j - 1]));
                let k = choose|k: int| 0 <= k < rest.len() && rest[k] == sr[j - 1];
                let kk = if k < m { k } else { k + 1 };
                assert(rest[k] == s[kk]);
            } else {
                assert(r[i] == sr[i - 1]);
                assert(r[j] == sr[j - 1]);
            }
        }
    }
}

/// Sorting orders records with distinct keys by strictly increasing key.
pub proof fn lemma_sort_by_key_increasing<T>(s: Seq<T>, key: spec_fn(T) -> u32)
    requires
        keys_distinct(s, key),
    ensures
        keys_increasing(sort_by_key(s, key), key),
{
    broadcast use {
        vstd::seq_lib::to_multiset_remove,
        vstd::seq_lib::to_multiset_contains,
        vstd::seq_lib::to_multiset_len,
        vstd::multiset::group_multiset_axioms,
    };

    lemma_sort_by_key_sorted(s, key);
    let r = sort_by_key(s, key);
    assert forall|i: int, j: int| 0 <= i < j < r.len() implies key(r[i]) < key(r[j]) by {
        if key(r[i]) == key(r[j]) {
            assert(r.to_multiset().count(r[i]) > 0);
            assert(r.to_multiset().count(r[j]) > 0);
            assert(s.contains(r[i]));
            assert(s.contains(r[j]));
            let a = choose|a: int| 0 <= a < s.len() && s[a] == r[i];
            let b = choose|b: int| 0 <= b < s.len() && s[b] == r[j];
            if a == b {
                // two positions of the sorted records hold the same record,
                // which occurs once in `s`
                lemma_distinct_keys_count_one(s, key, a);
                lemma_two_positions_count(r, i, j);
            }
        }
    }
}

/// A record whose key occurs once is counted once.
proof fn lemma_distinct_keys_count_one<T>(s: Seq<T>, key: spec_fn(T) -> u32, a: int)
    requires
        keys_distinct(s, key),
        0 <= a < s.len(),
    ensures
        s.to_multiset().count(s[a]) == 1,
    decreases s.len(),
{
    broadcast use {
        vstd::seq_lib::to_multiset_remove,
        vstd::seq_lib::to_multiset_contains,
        vstd::seq_lib::to_multiset_len,
        vstd::multiset::group_multiset_axioms,
    };

    let last = s.len() - 1;
    let t = s.drop_last();
    assert(s =~= t.push(s[last]));
    vstd::seq_lib::to_multiset_build(t, s[last]);
    assert forall|i: int, j: int| 0 <= i < j < t.len() implies key(t[i]) != key(t[j]) by {
        assert(t[i] == s[i] && t[j] == s[j]);
    }
    if a == last {
        if t.contains(s[a]) {
            let k = choose|k: int| 0 <= k < t.len() && t[k] == s[a];
            assert(s[k] == s[a]);
        }
        assert(t.to_multiset().count(s[a]) == 0);
    } else {
        assert(t[a] == s[a]);
        lemma_distinct_keys_count_one(t, key, a);
        assert(s[last] != s[a]);
    }
}

/// A record that stands at two positions is counted at least twice.
proof fn lemma_two_positions_count<T>(r: Seq<T>, i: int, j: int)
    requires
        0 <= i < j < r.len(),
        r[i] == r[j],
    ensures
        r.to_multiset().count(r[i]) >= 2,
{
    broadcast use {
        vstd::seq_lib::to_multiset_remove,
        vstd::seq_lib::to_multiset_contains,
        vstd::seq_lib::to_multiset_len,
        vstd::multiset::group_multiset_axioms,
    };

    let x = r[i];
    let r1 = r.remove(j);
    assert(r1[i] == x);
    assert(r1.contains(x));
    assert(r1.to_multiset().count(x) > 0);
    assert(r1.to_multiset() == r.to_multiset().remove(x));
}

/// Reordering records keeps their keys distinct.
pub proof fn lemma_keys_distinct_permutation<T>(a: Seq<T>, b: Seq<T>, key: spec_fn(T) -> u32)
    requires
        a.to_multiset() == b.to_multiset(),
        keys_distinct(a, key),
    ensures
        keys_distinct(b, key),
{
    broadcast use {
        vstd::seq_lib::to_multiset_contains,
        vstd::multiset::group_multiset_axioms,
    };

    assert forall|i: int, j: int| 0 <= i < j < b.len() implies key(b[i]) != key(b[j]) by {
        if key(b[i]) == key(b[j]) {
            assert(b.to_multiset().count(b[i]) > 0);
            assert(b.to_multiset().count(b[j]) > 0);
            assert(a.contains(b[i]));
            assert(a.contains(b[j]));
            let p = choose|p: int| 0 <= p < a.len() && a[p] == b[i];
            let q = choose|q: int| 0 <= q < a.len() && a[q] == b[j];
            if p == q {
                lemma_distinct_keys_count_one(a, key, p);
                lemma_two_positions_count(b, i, j);
            } else if p < q {
                assert(key(a[p]) != key(a[q]));
            } else {
                assert(key(a[q]) != key(a[p]));
            }
        }
    }
}

/// Records with distinct keys sort the same whatever order they come in.
pub proof fn lemma_sort_by_key_permutation<T>(a: Seq<T>, b: Seq<T>, key: spec_fn(T) -> u32)
    requires
        a.to_multiset() == b.to_multiset(),
        keys_distinct(a, key),
        keys_distinct(b, key),
    ensures
        sort_by_key(a, key) == sort_by_key(b, key),
    decreases a.len(),
{
    broadcast use {
        vstd::seq_lib::to_multiset_remove,
        vstd::seq_lib::to_multiset_contains,
        vstd::seq_lib::to_multiset_len,
        vstd::multiset::group_multiset_axioms,
    };

    assert(a.len() == b.len()) by {
        vstd::seq_lib::to_multiset_len(a);
        vstd::seq_lib::to_multiset_len(b);
    }
    if a.len() == 0 {
        assert(sort_by_key(a, key) =~= sort_by_key(b, key));
    } else {
        let ma = min_key_index(a, key);
        let mb = min_key_index(b, key);
        lemma_min_key_index(a, key);
        lemma_min_key_index(b, key);
        let e = a[ma];
        assert(a.to_multiset().count(e) > 0);
        assert(b.contains(e));
        let j = choose|j: int| 0 <= j < b.len() && b[j] == e;
        assert(b.to_multiset().count(b[mb]) > 0);
        assert(a.contains(b[mb]));
        let i = choose|i: int| 0 <= i < a.len() && a[i] == b[mb];
        assert(key(e) <= key(a[i]));
        assert(key(b[mb]) <= key(b[j]));
        if mb != j {
            assert(key(b[mb]) != key(b[j]));
        }
        assert(b[mb] == e);
        lemma_remove_keeps_distinct(a, ma, key);
        lemma_remove_keeps_distinct(b, mb, key);
        lemma_sort_by_key_permutation(a.remove(ma), b.remove(mb), key);
    }
}

/// The positions of the records in key order, found from their keys.
pub fn sort_order<T>(keys: &Vec<u32>, Ghost(s): Ghost<Seq<T>>, Ghost(key): Ghost<spec_fn(T) -> u32>) -> (order: Vec<usize>)
    requires
        s.len() == keys@.len(),
        forall|i: int| 0 <= i < s.len() ==> key(s[i]) == keys@[i],
    ensures
        order@.len() == s.len(),
        forall|j: int| 0 <= j < order@.len() ==> order@[j] < s.len(),
        order@.map_values(|i: usize| s[i as int]) == sort_by_key(s, key),
{
    let mut rest: Vec<usize> = Vec::new();
    let mut i: usize = 0;
    while i < keys.len()
        invariant
            i <= keys@.len(),
            rest@.len() == i,
            forall|k: int| 0 <= k < i ==> rest@[k] == k,
        decreases keys@.len() - i,
    {
        rest.push(i);
        i = i + 1;
    }
    proof {
        assert(rest@.map_values(|i: usize| s[i as int]) =~= s);
    }
    let mut order: Vec<usize> = Vec::new();
    while rest.len() > 0
        invariant
            s.len() == keys@.len(),
            forall|i: int| 0 <= i < s.len() ==> key(s[i]) == keys@[i],
            forall|k: int| 0 <= k < rest@.len() ==> rest@[k] < s.len(),
            forall|k: int| 0 <= k < order@.len() ==> order@[k] < s.len(),
            order@.len() + rest@.len() == s.len(),
            sort_by_key(s, key) == order@.map_values(|i: usize| s[i as int]) + sort_by_key(
                rest@.map_values(|i: usize| s[i as int]),
                key,
            ),
        decreases rest@.len(),
    {
        let ghost rv = rest@.map_values(|i: usize| s[i as int]);
        let mut m: usize = 0;
        let mut k: usize = 1;
        proof {
            assert(rv.take(1).len() == 1);
        }
        while k < rest.len()
            invariant
                1 <= k <= rest@.len(),
                rv == rest@.map_values(|i: usize| s[i as int]),
                s.len() == keys@.len(),
                forall|i: int| 0 <= i < s.len() ==> key(s[i]) == keys@[i],
                forall|q: int| 0 <= q < rest@.len() ==> rest@[q] < s.len(),
                m < k,
                m == min_key_index(rv.take(k as int), key),
            decreases rest@.len() - k,
        {
            proof {
                assert(rv.take(k + 1).drop_last() =~= rv.take(k as int));
                lemma_min_key_index(rv.take(k as int), key);
                assert(rv[k as int] == s[rest@[k as int] as int]);
                assert(rv[m as int] == s[rest@[m as int] as int]);
            }
            if keys[rest[k]] < keys[rest[m]] {
                m = k;
            }
            k = k + 1;
        }
        proof {
            assert(rv.take(k as int) =~= rv);
            lemma_min_key_index(rv, key);
            assert(sort_by_key(rv, key) == seq![rv[m as int]] + sort_by_key(rv.remove(m as int), key));
        }
        let ghost before = order@;
        let ghost rest_before = rest@;
        order.push(rest[m]);
        rest.remove(m);
        proof {
            assert(rest@.map_values(|i: usize| s[i as int]) =~= rv.remove(m as int));
            assert(order@.map_values(|i: usize| s[i as int]) =~= before.map_values(
                |i: usize| s[i as int],
            ).push(rv[m as int]));
            assert(before.map_values(|i: usize| s[i as int]) + (seq![rv[m as int]] + sort_by_key(
                rv.remove(m as int),
                key,
            )) =~= order@.map_values(|i: usize| s[i as int]) + sort_by_key(
                rest@.map_values(|i: usize| s[i as int]),
                key,
            ));
        }
    }
    proof {
        assert(rest@.map_values(|i: usize| s[i as int]) =~= Seq::<T>::empty());
        assert(order@.map_values(|i: usize| s[i as int]) + Seq::<T>::empty() =~= order@.map_values(
            |i: usize| s[i as int],
        ));
    }
    order
}

} // verus!
