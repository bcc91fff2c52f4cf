use vstd::prelude::*;

verus! {

/// True when `key` gives every record in `s` its own distinct key.
pub open spec fn keys_distinct<V, K>(s: Seq<V>, key: spec_fn(V) -> K) -> bool {
    forall|i: int, j: int|
        0 <= i < s.len() && 0 <= j < s.len() && i != j ==> key(s[i]) != key(s[j])
}

/// The finite map induced by a sequence of records, each stored under its
/// own key; when two records share a key, the later one wins.
pub open spec fn key_map<V, K>(s: Seq<V>, key: spec_fn(V) -> K) -> Map<K, V>
    decreases s.len(),
{
    if s.len() == 0 {
        Map::empty()
    } else {
        key_map(s.drop_last(), key).insert(key(s.last()), s.last())
    }
}

/// The sum of `f` over all records of `s`.
pub open spec fn sum_by<V>(s: Seq<V>, f: spec_fn(V) -> int) -> int
    decreases s.len(),
{
    if s.len() == 0 {
        0
    } else {
        sum_by(s.drop_last(), f) + f(s.last())
    }
}

/// A key is in the induced map exactly when some record of `s` carries it.
pub proof fn lemma_key_map_contains<V, K>(s: Seq<V>, key: spec_fn(V) -> K, k: K)
    ensures
        key_map(s, key).dom().contains(k) <==> exists|i: int|
            0 <= i < s.len() && key(#[trigger] s[i]) == k,
    decreases s.len(),
{
    if s.len() > 0 {
        lemma_key_map_contains(s.drop_last(), key, k);
        if key(s.last()) == k {
            assert(key(s[s.len() - 1]) == k);
        } else if exists|i: int| 0 <= i < s.len() && key(#[trigger] s[i]) == k {
            let i = choose|i: int| 0 <= i < s.len() && key(#[trigger] s[i]) == k;
            assert(s.drop_last()[i] == s[i]);
        }
    }
}

/// With distinct keys, the record at index `i` is what the map holds
/// under its key.
pub proof fn lemma_key_map_index<V, K>(s: Seq<V>, key: spec_fn(V) -> K, i: int)
    requires
        keys_distinct(s, key),
        0 <= i < s.len(),
    ensures
        key_map(s, key).dom().contains(key(s[i])),
        key_map(s, key)[key(s[i])] == s[i],
    decreases s.len(),
{
    if i < s.len() - 1 {
        assert(keys_distinct(s.drop_last(), key)) by {
            assert(forall|a: int| 0 <= a < s.len() - 1 ==> s.drop_last()[a] == s[a]);
        }
        lemma_key_map_index(s.drop_last(), key, i);
        assert(s.drop_last()[i] == s[i]);
        assert(key(s[i]) != key(s.last()));
    }
}

/// Appending a record with a fresh key inserts it into the induced map.
pub proof fn lemma_key_map_push<V, K>(s: Seq<V>, key: spec_fn(V) -> K, v: V)
    ensures
        key_map(s.push(v), key) == key_map(s, key).insert(key(v), v),
{
    assert(s.push(v).drop_last() =~= s);
    assert(s.push(v).last() == v);
}

/// Replacing the record at index `i` by one with the same key updates the
/// induced map at that key.
pub proof fn lemma_key_map_update<V, K>(s: Seq<V>, key: spec_fn(V) -> K, i: int, v: V)
    requires
        keys_distinct(s, key),
        0 <= i < s.len(),
        key(v) == key(s[i]),
    ensures
        key_map(s.update(i, v), key) == key_map(s, key).insert(key(v), v),
    decreases s.len(),
{
    let t = s.update(i, v);
    if i == s.len() - 1 {
        assert(t.drop_last() =~= s.drop_last());
        assert(t.last() == v);
        assert(key_map(s.drop_last(), key).insert(key(s.last()), s.last()).insert(key(v), v)
            =~= key_map(s.drop_last(), key).insert(key(v), v));
    } else {
        assert(keys_distinct(s.drop_last(), key)) by {
            assert(forall|a: int| 0 <= a < s.len() - 1 ==> s.drop_last()[a] == s[a]);
        }
        assert(t.drop_last() =~= s.drop_last().update(i, v));
        assert(t.last() == s.last());
        lemma_key_map_update(s.drop_last(), key, i, v);
        assert(key(v) != key(s.last()));
        assert(key_map(s.drop_last(), key).insert(key(v), v).insert(key(s.last()), s.last())
            =~= key_map(s.drop_last(), key).insert(key(s.last()), s.last()).insert(key(v), v));
    }
}

/// Removing the record at index `i` removes its key from the induced map.
pub proof fn lemma_key_map_remove<V, K>(s: Seq<V>, key: spec_fn(V) -> K, i: int)
    requires
        keys_distinct(s, key),
        0 <= i < s.len(),
    ensures
        key_map(s.remove(i), key) == key_map(s, key).remove(key(s[i])),
    decreases s.len(),
{
    let t = s.remove(i);
    if i == s.len() - 1 {
        assert(t =~= s.drop_last());
        lemma_key_map_contains(s.drop_last(), key, key(s[i]));
        assert(forall|a: int| 0 <= a < s.len() - 1 ==> s.drop_last()[a] == s[a]);
        assert(!key_map(s.drop_last(), key).dom().contains(key(s[i])));
        assert(key_map(s.drop_last(), key).insert(key(s.last()), s.last()).remove(key(s[i]))
            =~= key_map(s.drop_last(), key));
    } else {
        assert(keys_distinct(s.drop_last(), key)) by {
            assert(forall|a: int| 0 <= a < s.len() - 1 ==> s.drop_last()[a] == s[a]);
        }
        assert(t.drop_last() =~= s.drop_last().remove(i));
        assert(t.last() == s.last());
        lemma_key_map_remove(s.drop_last(), key, i);
        assert(key(s[i]) != key(s.last()));
        assert(key_map(s.drop_last(), key).remove(key(s[i])).insert(key(s.last()), s.last())
            =~= key_map(s.drop_last(), key).insert(key(s.last()), s.last()).remove(key(s[i])));
    }
}

/// Appending a record adds its contribution to the sum.
pub proof fn lemma_sum_by_push<V>(s: Seq<V>, f: spec_fn(V) -> int, v: V)
    ensures
        sum_by(s.push(v), f) == sum_by(s, f) + f(v),
{
    assert(s.push(v).drop_last() =~= s);
    assert(s.push(v).last() == v);
}

/// Replacing the record at index `i` shifts the sum by the difference of
/// the two contributions.
pub proof fn lemma_sum_by_update<V>(s: Seq<V>, f: spec_fn(V) -> int, i: int, v: V)
    requires
        0 <= i < s.len(),
    ensures
        sum_by(s.update(i, v), f) == sum_by(s, f) - f(s[i]) + f(v),
    decreases s.len(),
{
    let t = s.update(i, v);
    if i == s.len() - 1 {
        assert(t.drop_last() =~= s.drop_last());
        assert(t.last() == v);
    } else {
        assert(t.drop_last() =~= s.drop_last().update(i, v));
        assert(t.last() == s.last());
        lemma_sum_by_update(s.drop_last(), f, i, v);
        assert(s.drop_last()[i] == s[i]);
    }
}

/// A sum of pointwise non-negative contributions is non-negative.
pub proof fn lemma_sum_by_nonneg<V>(s: Seq<V>, f: spec_fn(V) -> int)
    requires
        forall|i: int| 0 <= i < s.len() ==> f(#[trigger] s[i]) >= 0,
    ensures
        sum_by(s, f) >= 0,
    decreases s.len(),
{
    if s.len() > 0 {
        assert(forall|i: int| 0 <= i < s.len() - 1 ==> s.drop_last()[i] == s[i]);
        lemma_sum_by_nonneg(s.drop_last(), f);
        assert(f(s[s.len() - 1]) >= 0);
    }
}

/// With pointwise non-negative contributions, each single contribution is
/// bounded by the whole sum.
pub proof fn lemma_sum_by_term_bound<V>(s: Seq<V>, f: spec_fn(V) -> int, i: int)
    requires
        forall|j: int| 0 <= j < s.len() ==> f(#[trigger] s[j]) >= 0,
        0 <= i < s.len(),
    ensures
        f(s[i]) <= sum_by(s, f),
    decreases s.len(),
{
    assert(forall|j: int| 0 <= j < s.len() - 1 ==> s.drop_last()[j] == s[j]);
    if i == s.len() - 1 {
        lemma_sum_by_nonneg(s.drop_last(), f);
    } else {
        lemma_sum_by_term_bound(s.drop_last(), f, i);
        assert(f(s[s.len() - 1]) >= 0);
    }
}

} // verus!
