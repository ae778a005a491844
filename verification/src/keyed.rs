//! Association lists with distinct keys, read as finite maps.
//!
//! The index keeps its label table, its item store and the metadata of an
//! item as vectors of `(key, value)` pairs in which no key occurs twice.
//! This module gives such a sequence its meaning as a `Map` and proves the
//! facts that the containers built on it need.
use vstd::prelude::*;

verus! {

/// No key occurs twice in `s`.
pub open spec fn unique_keys<K, V>(s: Seq<(K, V)>) -> bool {
    forall|i: int, j: int|
        0 <= i < s.len() && 0 <= j < s.len() && #[trigger] s[i].0 == #[trigger] s[j].0 ==> i == j
}

/// Some pair of `s` has key `k`.
pub open spec fn has_key<K, V>(s: Seq<(K, V)>, k: K) -> bool {
    exists|i: int| 0 <= i < s.len() && #[trigger] s[i].0 == k
}

/// A position of `s` whose key is `k` (meaningful when `has_key(s, k)`).
pub open spec fn key_position<K, V>(s: Seq<(K, V)>, k: K) -> int {
    choose|i: int| 0 <= i < s.len() && #[trigger] s[i].0 == k
}

/// The map that the pairs of `s` describe.
pub open spec fn pairs_map<K, V>(s: Seq<(K, V)>) -> Map<K, V> {
    Map::new(|k: K| has_key(s, k), |k: K| s[key_position(s, k)].1)
}

/// Replaces the value of `k` where `k` occurs, else appends `(k, v)`.
pub open spec fn put_pair<K, V>(s: Seq<(K, V)>, k: K, v: V) -> Seq<(K, V)> {
    if has_key(s, k) {
        s.update(key_position(s, k), (k, v))
    } else {
        s.push((k, v))
    }
}

/// The pairs of `s` put one after the other into `base`.
pub open spec fn put_all<K, V>(base: Seq<(K, V)>, s: Seq<(K, V)>) -> Seq<(K, V)>
    decreases s.len(),
{
    if s.len() == 0 {
        base
    } else {
        let rest = put_all(base, s.drop_last());
        put_pair(rest, s.last().0, s.last().1)
    }
}

/// The map of `s` after inserting its pairs one after the other, a later pair
/// winning over an earlier one with the same key.
pub open spec fn fold_insert<K, V>(m: Map<K, V>, s: Seq<(K, V)>) -> Map<K, V>
    decreases s.len(),
{
    if s.len() == 0 {
        m
    } else {
        fold_insert(m, s.drop_last()).insert(s.last().0, s.last().1)
    }
}

/// Reading the pair at position `i` through the map.
pub proof fn lemma_pairs_map_at<K, V>(s: Seq<(K, V)>, i: int)
    requires
        unique_keys(s),
        0 <= i < s.len(),
    ensures
        pairs_map(s).contains_key(s[i].0),
        pairs_map(s)[s[i].0] == s[i].1,
        key_position(s, s[i].0) == i,
{
    assert(has_key(s, s[i].0));
    let j = key_position(s, s[i].0);
    assert(s[j].0 == s[i].0);
}

/// Every key of the map stands at its chosen position.
pub proof fn lemma_pairs_map_key<K, V>(s: Seq<(K, V)>, k: K)
    requires
        pairs_map(s).contains_key(k),
    ensures
        0 <= key_position(s, k) < s.len(),
        s[key_position(s, k)].0 == k,
        pairs_map(s)[k] == s[key_position(s, k)].1,
{
}

/// The empty sequence describes the empty map.
pub proof fn lemma_pairs_map_empty<K, V>(s: Seq<(K, V)>)
    requires
        s.len() == 0,
    ensures
        pairs_map(s) == Map::<K, V>::empty(),
        unique_keys(s),
{
    assert(pairs_map(s) =~= Map::<K, V>::empty());
}

/// Putting a pair into a sequence with distinct keys inserts into its map and
/// keeps the keys distinct.
pub proof fn lemma_put_pair<K, V>(s: Seq<(K, V)>, k: K, v: V)
    requires
        unique_keys(s),
    ensures
        unique_keys(put_pair(s, k, v)),
        pairs_map(put_pair(s, k, v)) == pairs_map(s).insert(k, v),
        has_key(s, k) ==> put_pair(s, k, v).len() == s.len(),
        !has_key(s, k) ==> put_pair(s, k, v).len() == s.len() + 1,
{
    let t = put_pair(s, k, v);
    if has_key(s, k) {
        let p = key_position(s, k);
        assert(unique_keys(t)) by {
            assert forall|i: int, j: int|
                0 <= i < t.len() && 0 <= j < t.len() && #[trigger] t[i].0 == #[trigger] t[j].0 implies i
                == j by {
                if i != p && j != p {
                    assert(s[i].0 == s[j].0);
                } else if i == p && j != p {
                    assert(s[j].0 == s[p].0);
                } else if i != p && j == p {
                    assert(s[i].0 == s[p].0);
                }
            }
        }
        assert forall|key: K| #[trigger] pairs_map(t).contains_key(key) <==> pairs_map(s).insert(
            k,
            v,
        ).contains_key(key) by {
            if has_key(t, key) {
                let i = key_position(t, key);
                if i != p {
                    assert(s[i].0 == key);
                }
            }
            if has_key(s, key) {
                let i = key_position(s, key);
                if i != p {
                    assert(t[i].0 == key);
                } else {
                    assert(t[p].0 == k);
                }
            }
            if key == k {
                assert(t[p].0 == k);
            }
        }
        assert forall|key: K| #[trigger] pairs_map(t).contains_key(key) implies pairs_map(t)[key]
            == pairs_map(s).insert(k, v)[key] by {
            let i = key_position(t, key);
            if key == k {
                assert(t[p].0 == k);
                lemma_pairs_map_at(t, p);
            } else {
                assert(i != p);
                assert(s[i].0 == key);
                lemma_pairs_map_at(s, i);
                lemma_pairs_map_at(t, i);
            }
        }
        assert(pairs_map(t) =~= pairs_map(s).insert(k, v));
    } else {
        let n = s.len() as int;
        assert(unique_keys(t)) by {
            assert forall|i: int, j: int|
                0 <= i < t.len() && 0 <= j < t.len() && #[trigger] t[i].0 == #[trigger] t[j].0 implies i
                == j by {
                if i < n && j < n {
                    assert(s[i].0 == s[j].0);
                } else if i < n {
                    assert(s[i].0 == k);
                } else if j < n {
                    assert(s[j].0 == k);
                }
            }
        }
        assert forall|key: K| #[trigger] pairs_map(t).contains_key(key) <==> pairs_map(s).insert(
            k,
            v,
        ).contains_key(key) by {
            if has_key(t, key) {
                let i = key_position(t, key);
                if i < n {
                    assert(s[i].0 == key);
                }
            }
            if has_key(s, key) {
                let i = key_position(s, key);
                assert(t[i].0 == key);
            }
            if key == k {
                assert(t[n].0 == k);
            }
        }
        assert forall|key: K| #[trigger] pairs_map(t).contains_key(key) implies pairs_map(t)[key]
            == pairs_map(s).insert(k, v)[key] by {
            let i = key_position(t, key);
            if key == k {
                assert(t[n].0 == k);
                lemma_pairs_map_at(t, n);
            } else {
                assert(i < n);
                assert(s[i].0 == key);
                lemma_pairs_map_at(s, i);
                lemma_pairs_map_at(t, i);
            }
        }
        assert(pairs_map(t) =~= pairs_map(s).insert(k, v));
    }
}

/// The map of a sequence with distinct keys is finite and has one entry per pair.
pub proof fn lemma_pairs_map_len<K, V>(s: Seq<(K, V)>)
    requires
        unique_keys(s),
    ensures
        pairs_map(s).dom().finite(),
        pairs_map(s).len() == s.len(),
    decreases s.len(),
{
    if s.len() == 0 {
        lemma_pairs_map_empty(s);
    } else {
        let r = s.drop_last();
        assert(unique_keys(r)) by {
            assert forall|i: int, j: int|
                0 <= i < r.len() && 0 <= j < r.len() && #[trigger] r[i].0 == #[trigger] r[j].0 implies i
                == j by {
                assert(s[i].0 == s[j].0);
            }
        }
        lemma_pairs_map_len(r);
        assert(!has_key(r, s.last().0)) by {
            if has_key(r, s.last().0) {
                let i = key_position(r, s.last().0);
                assert(s[i].0 == s[s.len() - 1].0);
            }
        }
        lemma_put_pair(r, s.last().0, s.last().1);
        assert(put_pair(r, s.last().0, s.last().1) =~= s);
    }
}

/// Putting the pairs of `s` one after the other into `base` gives the map of
/// `base` with those pairs inserted in turn.
pub proof fn lemma_put_all<K, V>(base: Seq<(K, V)>, s: Seq<(K, V)>)
    requires
        unique_keys(base),
    ensures
        unique_keys(put_all(base, s)),
        pairs_map(put_all(base, s)) == fold_insert(pairs_map(base), s),
    decreases s.len(),
{
    if s.len() > 0 {
        lemma_put_all(base, s.drop_last());
        lemma_put_pair(put_all(base, s.drop_last()), s.last().0, s.last().1);
    }
}

/// Inserting the pairs of a sequence with distinct keys one after the other
/// into the empty map gives the map that the sequence describes.
pub proof fn lemma_fold_insert_unique<K, V>(s: Seq<(K, V)>)
    requires
        unique_keys(s),
    ensures
        fold_insert(Map::<K, V>::empty(), s) == pairs_map(s),
    decreases s.len(),
{
    if s.len() == 0 {
        lemma_pairs_map_empty(s);
    } else {
        let r = s.drop_last();
        assert(unique_keys(r)) by {
            assert forall|i: int, j: int|
                0 <= i < r.len() && 0 <= j < r.len() && #[trigger] r[i].0 == #[trigger] r[j].0 implies i
                == j by {
                assert(s[i].0 == s[j].0);
            }
        }
        lemma_fold_insert_unique(r);
        assert(!has_key(r, s.last().0)) by {
            if has_key(r, s.last().0) {
                let i = key_position(r, s.last().0);
                assert(s[i].0 == s[s.len() - 1].0);
            }
        }
        lemma_put_pair(r, s.last().0, s.last().1);
        assert(put_pair(r, s.last().0, s.last().1) =~= s);
    }
}

/// The pairs of `s` with `f` applied to each value.
pub open spec fn map_pair_values<K, V, W>(s: Seq<(K, V)>, f: spec_fn(V) -> W) -> Seq<(K, W)> {
    s.map_values(|p: (K, V)| (p.0, f(p.1)))
}

/// Applying `f` to the values keeps the keys distinct and applies `f` to the
/// values of the map.
pub proof fn lemma_map_pair_values<K, V, W>(s: Seq<(K, V)>, f: spec_fn(V) -> W)
    requires
        unique_keys(s),
    ensures
        unique_keys(map_pair_values(s, f)),
        pairs_map(map_pair_values(s, f)) == pairs_map(s).map_values(f),
{
    let t = map_pair_values(s, f);
    assert forall|i: int, j: int|
        0 <= i < t.len() && 0 <= j < t.len() && #[trigger] t[i].0 == #[trigger] t[j].0 implies i
        == j by {
        assert(s[i].0 == s[j].0);
    }
    assert forall|k: K| #[trigger] pairs_map(t).contains_key(k) <==> pairs_map(s).contains_key(
        k,
    ) by {
        if has_key(t, k) {
            let i = key_position(t, k);
            assert(s[i].0 == k);
        }
        if has_key(s, k) {
            let i = key_position(s, k);
            assert(t[i].0 == k);
        }
    }
    assert forall|k: K| #[trigger] pairs_map(t).contains_key(k) implies pairs_map(t)[k]
        == pairs_map(s).map_values(f)[k] by {
        let i = key_position(t, k);
        assert(s[i].0 == k);
        lemma_pairs_map_at(s, i);
        lemma_pairs_map_at(t, i);
    }
    assert(pairs_map(t) =~= pairs_map(s).map_values(f));
}

} // verus!
