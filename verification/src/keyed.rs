//! Sequences of keyed entries read as finite maps.

use vstd::prelude::*;

verus! {

/// No key occurs in two entries.
pub open spec fn keys_distinct<K, V>(s: Seq<(K, V)>) -> bool {
    forall|i: int, j: int| 0 <= i < j < s.len() ==> (#[trigger] s[i]).0 != (#[trigger] s[j]).0
}

/// Some entry has key `k`.
pub open spec fn has_key<K, V>(s: Seq<(K, V)>, k: K) -> bool {
    exists|i: int| 0 <= i < s.len() && (#[trigger] s[i]).0 == k
}

/// The position of an entry with key `k`.
pub open spec fn slot<K, V>(s: Seq<(K, V)>, k: K) -> int {
    choose|i: int| 0 <= i < s.len() && (#[trigger] s[i]).0 == k
}

/// The map from each key to the value of its entry.
pub open spec fn as_map<K, V>(s: Seq<(K, V)>) -> Map<K, V> {
    Map::new(|k: K| has_key(s, k), |k: K| s[slot(s, k)].1)
}

/// The entry at position `i` is what the map holds for its key.
pub proof fn lemma_as_map_at<K, V>(s: Seq<(K, V)>, i: int)
    requires
        keys_distinct(s),
        0 <= i < s.len(),
    ensures
        as_map(s).dom().contains(s[i].0),
        as_map(s)[s[i].0] == s[i].1,
        slot(s, s[i].0) == i,
{
    let k = s[i].0;
    assert(has_key(s, k));
    let j = slot(s, k);
    assert(0 <= j < s.len() && s[j].0 == k);
    if j < i {
        assert(s[j].0 != s[i].0);
    } else if i < j {
        assert(s[i].0 != s[j].0);
    }
}

/// A key of the map is the key of some entry.
pub proof fn lemma_as_map_key<K, V>(s: Seq<(K, V)>, k: K)
    requires
        keys_distinct(s),
        as_map(s).dom().contains(k),
    ensures
        0 <= slot(s, k) < s.len(),
        s[slot(s, k)].0 == k,
        as_map(s)[k] == s[slot(s, k)].1,
{
    assert(has_key(s, k));
}

/// A key that no entry has is not in the map.
pub proof fn lemma_as_map_absent<K, V>(s: Seq<(K, V)>, k: K)
    requires
        forall|i: int| 0 <= i < s.len() ==> (#[trigger] s[i]).0 != k,
    ensures
        !as_map(s).dom().contains(k),
{
}

/// Inserting an entry with a fresh key, at any position, inserts it into the map.
pub proof fn lemma_as_map_insert<K, V>(s: Seq<(K, V)>, p: int, e: (K, V))
    requires
        keys_distinct(s),
        0 <= p <= s.len(),
        !as_map(s).dom().contains(e.0),
    ensures
        keys_distinct(s.insert(p, e)),
        as_map(s.insert(p, e)) == as_map(s).insert(e.0, e.1),
{
    let t = s.insert(p, e);
    assert forall|i: int| 0 <= i < s.len() implies (#[trigger] s[i]).0 != e.0 by {
        if s[i].0 == e.0 {
            assert(has_key(s, e.0));
        }
    }
    assert(keys_distinct(t)) by {
        assert forall|i: int, j: int| 0 <= i < j < t.len() implies (#[trigger] t[i]).0 != (
        #[trigger] t[j]).0 by {
            let oi = if i < p { i } else { i - 1 };
            let oj = if j < p { j } else { j - 1 };
            if i != p && j != p {
                assert(t[i] == s[oi] && t[j] == s[oj]);
                assert(s[oi].0 != s[oj].0);
            } else if i == p {
                assert(t[j] == s[oj]);
            } else {
                assert(t[i] == s[oi]);
            }
        }
    }
    assert forall|k: K| as_map(t).dom().contains(k) <==> as_map(s).insert(e.0, e.1).dom().contains(
        k,
    ) by {
        if has_key(t, k) {
            let i = slot(t, k);
            if i != p {
                let oi = if i < p { i } else { i - 1 };
                assert(t[i] == s[oi]);
                assert(has_key(s, k));
            }
        }
        if has_key(s, k) {
            let i = slot(s, k);
            let ni = if i < p { i } else { i + 1 };
            assert(t[ni] == s[i]);
            assert(has_key(t, k));
        }
        if k == e.0 {
            assert(t[p] == e);
            assert(has_key(t, k));
        }
    }
    assert forall|k: K| #[trigger] as_map(t).dom().contains(k) implies as_map(t)[k] == as_map(
        s,
    ).insert(e.0, e.1)[k] by {
        assert(has_key(t, k));
        let i = slot(t, k);
        if i == p {
            assert(t[p] == e);
        } else {
            let oi = if i < p { i } else { i - 1 };
            assert(t[i] == s[oi]);
            lemma_as_map_at(s, oi);
        }
    }
    assert(as_map(t) =~= as_map(s).insert(e.0, e.1));
}

/// Removing the entry at position `p` removes its key from the map.
pub proof fn lemma_as_map_remove<K, V>(s: Seq<(K, V)>, p: int)
    requires
        keys_distinct(s),
        0 <= p < s.len(),
    ensures
        keys_distinct(s.remove(p)),
        as_map(s.remove(p)) == as_map(s).remove(s[p].0),
{
    let t = s.remove(p);
    assert(keys_distinct(t)) by {
        assert forall|i: int, j: int| 0 <= i < j < t.len() implies (#[trigger] t[i]).0 != (
        #[trigger] t[j]).0 by {
            let oi = if i < p { i } else { i + 1 };
            let oj = if j < p { j } else { j + 1 };
            assert(t[i] == s[oi] && t[j] == s[oj]);
            assert(s[oi].0 != s[oj].0);
        }
    }
    assert forall|k: K| as_map(t).dom().contains(k) <==> as_map(s).remove(s[p].0).dom().contains(
        k,
    ) by {
        if has_key(t, k) {
            let i = slot(t, k);
            let oi = if i < p { i } else { i + 1 };
            assert(t[i] == s[oi]);
            assert(has_key(s, k));
            if oi < p {
                assert(s[oi].0 != s[p].0);
            } else {
                assert(s[p].0 != s[oi].0);
            }
        }
        if has_key(s, k) && k != s[p].0 {
            let i = slot(s, k);
            let ni = if i < p { i } else { i - 1 };
            assert(t[ni] == s[i]);
            assert(has_key(t, k));
        }
    }
    assert forall|k: K| #[trigger] as_map(t).dom().contains(k) implies as_map(t)[k] == as_map(
        s,
    ).remove(s[p].0)[k] by {
        assert(has_key(t, k));
        let i = slot(t, k);
        let oi = if i < p { i } else { i + 1 };
        assert(t[i] == s[oi]);
        lemma_as_map_at(s, oi);
    }
    assert(as_map(t) =~= as_map(s).remove(s[p].0));
}

/// Replacing the value of the entry at position `p` replaces it in the map.
pub proof fn lemma_as_map_update<K, V>(s: Seq<(K, V)>, p: int, v: V)
    requires
        keys_distinct(s),
        0 <= p < s.len(),
    ensures
        keys_distinct(s.update(p, (s[p].0, v))),
        as_map(s.update(p, (s[p].0, v))) == as_map(s).insert(s[p].0, v),
{
    let t = s.update(p, (s[p].0, v));
    assert(keys_distinct(t)) by {
        assert forall|i: int, j: int| 0 <= i < j < t.len() implies (#[trigger] t[i]).0 != (
        #[trigger] t[j]).0 by {
            assert(t[i].0 == s[i].0 && t[j].0 == s[j].0);
            assert(s[i].0 != s[j].0);
        }
    }
    assert forall|k: K| as_map(t).dom().contains(k) <==> as_map(s).insert(s[p].0, v).dom().contains(
        k,
    ) by {
        if has_key(t, k) {
            let i = slot(t, k);
            assert(t[i].0 == s[i].0);
            assert(has_key(s, k));
        }
        if has_key(s, k) {
            let i = slot(s, k);
            assert(t[i].0 == s[i].0);
            assert(has_key(t, k));
        }
        if k == s[p].0 {
            assert(t[p].0 == k);
            assert(has_key(t, k));
        }
    }
    assert forall|k: K| #[trigger] as_map(t).dom().contains(k) implies as_map(t)[k] == as_map(
        s,
    ).insert(s[p].0, v)[k] by {
        assert(has_key(t, k));
        let i = slot(t, k);
        lemma_as_map_at(t, i);
        if i != p {
            assert(t[i] == s[i]);
            lemma_as_map_at(s, i);
        }
    }
    assert(as_map(t) =~= as_map(s).insert(s[p].0, v));
}

/// The map of a sequence without repeated keys is finite, with one key for each entry.
pub proof fn lemma_as_map_len<K, V>(s: Seq<(K, V)>)
    requires
        keys_distinct(s),
    ensures
        as_map(s).dom().finite(),
        as_map(s).dom().len() == s.len(),
    decreases s.len(),
{
    if s.len() == 0 {
        assert(as_map(s).dom() =~= Set::empty());
    } else {
        let last = s.len() - 1;
        let t = s.remove(last);
        lemma_as_map_remove(s, last);
        lemma_as_map_len(t);
        lemma_as_map_at(s, last);
        assert(as_map(s).dom() =~= as_map(t).dom().insert(s[last].0));
    }
}

} // verus!
