//! Sequences of records read as maps from a key of each record to the
//! record, for tables keyed by more than one field.
use vstd::prelude::*;

verus! {

/// No two records of `s` share a key.
pub open spec fn keys_unique<K, V>(s: Seq<V>, key: spec_fn(V) -> K) -> bool {
    forall|i: int, j: int| 0 <= i < s.len() && 0 <= j < s.len() && key(#[trigger] s[i]) == key(#[trigger] s[j]) ==> i == j
}

/// Whether some record of `s` has key `k`.
pub open spec fn has_key<K, V>(s: Seq<V>, key: spec_fn(V) -> K, k: K) -> bool {
    exists|i: int| 0 <= i < s.len() && key(#[trigger] s[i]) == k
}

/// The map from each key to the record of `s` holding it.
pub open spec fn to_map<K, V>(s: Seq<V>, key: spec_fn(V) -> K) -> Map<K, V> {
    Map::new(|k: K| has_key(s, key, k), |k: K| s[choose|i: int| 0 <= i < s.len() && key(#[trigger] s[i]) == k])
}

/// With unique keys, the record at `i` is what its key maps to.
pub proof fn lemma_to_map_at<K, V>(s: Seq<V>, key: spec_fn(V) -> K, i: int)
    requires
        keys_unique(s, key),
        0 <= i < s.len(),
    ensures
        to_map(s, key).contains_key(key(s[i])),
        to_map(s, key)[key(s[i])] == s[i],
{
    let k = key(s[i]);
    assert(has_key(s, key, k));
    let j = choose|j: int| 0 <= j < s.len() && key(#[trigger] s[j]) == k;
    assert(key(s[j]) == key(s[i]));
}

/// Appending a record with a fresh key inserts it into the map.
pub proof fn lemma_to_map_push<K, V>(s: Seq<V>, key: spec_fn(V) -> K, v: V)
    requires
        keys_unique(s, key),
        !has_key(s, key, key(v)),
    ensures
        keys_unique(s.push(v), key),
        to_map(s.push(v), key) == to_map(s, key).insert(key(v), v),
{
    let t = s.push(v);
    assert forall|i: int, j: int| 0 <= i < t.len() && 0 <= j < t.len() && key(#[trigger] t[i]) == key(#[trigger] t[j]) implies i == j by {
        if i < s.len() && j < s.len() {
            assert(t[i] == s[i] && t[j] == s[j]);
        } else if i < s.len() {
            assert(key(s[i]) == key(v));
        } else if j < s.len() {
            assert(key(s[j]) == key(v));
        }
    }
    let m = to_map(s, key).insert(key(v), v);
    assert forall|k: K| #[trigger] to_map(t, key).contains_key(k) == m.contains_key(k) by {
        if has_key(s, key, k) {
            let i = choose|i: int| 0 <= i < s.len() && key(#[trigger] s[i]) == k;
            assert(t[i] == s[i]);
        }
        if k == key(v) {
            assert(t[s.len() as int] == v);
        }
        if has_key(t, key, k) && k != key(v) {
            let i = choose|i: int| 0 <= i < t.len() && key(#[trigger] t[i]) == k;
            assert(i < s.len());
            assert(t[i] == s[i]);
        }
    }
    assert forall|k: K| #[trigger] to_map(t, key).contains_key(k) implies to_map(t, key)[k] == m[k] by {
        if k == key(v) {
            lemma_to_map_at(t, key, s.len() as int);
        } else {
            let i = choose|i: int| 0 <= i < t.len() && key(#[trigger] t[i]) == k;
            assert(i < s.len());
            assert(t[i] == s[i]);
            lemma_to_map_at(t, key, i);
            lemma_to_map_at(s, key, i);
        }
    }
    assert(to_map(t, key) =~= m);
}

/// Replacing the record at `i` by one with the same key updates the map.
pub proof fn lemma_to_map_update<K, V>(s: Seq<V>, key: spec_fn(V) -> K, i: int, v: V)
    requires
        keys_unique(s, key),
        0 <= i < s.len(),
        key(v) == key(s[i]),
    ensures
        keys_unique(s.update(i, v), key),
        to_map(s.update(i, v), key) == to_map(s, key).insert(key(v), v),
{
    let t = s.update(i, v);
    assert forall|a: int, b: int| 0 <= a < t.len() && 0 <= b < t.len() && key(#[trigger] t[a]) == key(#[trigger] t[b]) implies a == b by {
        assert(key(t[a]) == key(s[a]));
        assert(key(t[b]) == key(s[b]));
    }
    let m = to_map(s, key).insert(key(v), v);
    assert forall|k: K| #[trigger] to_map(t, key).contains_key(k) == m.contains_key(k) by {
        if has_key(s, key, k) {
            let j = choose|j: int| 0 <= j < s.len() && key(#[trigger] s[j]) == k;
            assert(key(t[j]) == key(s[j]));
        }
        if has_key(t, key, k) {
            let j = choose|j: int| 0 <= j < t.len() && key(#[trigger] t[j]) == k;
            assert(key(t[j]) == key(s[j]));
        }
        if k == key(v) {
            assert(key(t[i]) == k);
        }
    }
    assert forall|k: K| #[trigger] to_map(t, key).contains_key(k) implies to_map(t, key)[k] == m[k] by {
        let j = choose|j: int| 0 <= j < t.len() && key(#[trigger] t[j]) == k;
        assert(key(t[j]) == key(s[j]));
        lemma_to_map_at(t, key, j);
        if j != i {
            assert(t[j] == s[j]);
            lemma_to_map_at(s, key, j);
        }
    }
    assert(to_map(t, key) =~= m);
}

} // verus!
