//! Finite maps held as sequences of key/value pairs with distinct keys.

use vstd::prelude::*;

verus! {

/// The map that a sequence of pairs describes, later pairs overriding
/// earlier ones.
pub open spec fn map_of_pairs<K, V>(s: Seq<(K, V)>) -> Map<K, V>
    decreases s.len(),
{
    if s.len() == 0 {
        Map::empty()
    } else {
        map_of_pairs(s.drop_last()).insert(s.last().0, s.last().1)
    }
}

/// No key occurs twice.
pub open spec fn keys_distinct<K, V>(s: Seq<(K, V)>) -> bool {
    forall|i: int, j: int| 0 <= i < j < s.len() ==> s[i].0 != s[j].0
}

/// With distinct keys, the map holds each pair.
pub proof fn lemma_pairs_lookup<K, V>(s: Seq<(K, V)>, k: int)
    requires
        keys_distinct(s),
        0 <= k < s.len(),
    ensures
        map_of_pairs(s).contains_key(s[k].0),
        map_of_pairs(s)[s[k].0] == s[k].1,
    decreases s.len(),
{
    if k < s.len() - 1 {
        lemma_pairs_lookup(s.drop_last(), k);
    }
}

/// A key that no pair holds is not in the map.
pub proof fn lemma_pairs_absent<K, V>(s: Seq<(K, V)>, key: K)
    requires
        forall|k: int| 0 <= k < s.len() ==> s[k].0 != key,
    ensures
        !map_of_pairs(s).contains_key(key),
    decreases s.len(),
{
    if s.len() > 0 {
        lemma_pairs_absent(s.drop_last(), key);
    }
}

/// Appending a pair with a new key inserts it into the map.
pub proof fn lemma_pairs_push<K, V>(s: Seq<(K, V)>, key: K, value: V)
    requires
        keys_distinct(s),
        forall|k: int| 0 <= k < s.len() ==> s[k].0 != key,
    ensures
        map_of_pairs(s.push((key, value))) == map_of_pairs(s).insert(key, value),
        keys_distinct(s.push((key, value))),
{
    assert(s.push((key, value)).drop_last() =~= s);
}

/// Replacing the value of one pair updates the map at its key.
pub proof fn lemma_pairs_update<K, V>(s: Seq<(K, V)>, k: int, value: V)
    requires
        keys_distinct(s),
        0 <= k < s.len(),
    ensures
        map_of_pairs(s.update(k, (s[k].0, value))) == map_of_pairs(s).insert(s[k].0, value),
        keys_distinct(s.update(k, (s[k].0, value))),
    decreases s.len(),
{
    let updated = s.update(k, (s[k].0, value));
    if k == s.len() - 1 {
        assert(updated.drop_last() =~= s.drop_last());
        assert(map_of_pairs(updated) =~= map_of_pairs(s).insert(s[k].0, value));
    } else {
        lemma_pairs_update(s.drop_last(), k, value);
        assert(updated.drop_last() =~= s.drop_last().update(k, (s[k].0, value)));
        assert(map_of_pairs(updated) =~= map_of_pairs(s).insert(s[k].0, value));
    }
}

/// Dropping one pair removes its key from the map.
pub proof fn lemma_pairs_remove<K, V>(s: Seq<(K, V)>, i: int)
    requires
        keys_distinct(s),
        0 <= i < s.len(),
    ensures
        map_of_pairs(s.remove(i)) == map_of_pairs(s).remove(s[i].0),
        keys_distinct(s.remove(i)),
    decreases s.len(),
{
    let r = s.remove(i);
    assert forall|p: int, q: int| 0 <= p < q < r.len() implies r[p].0 != r[q].0 by {
        let p0 = if p < i { p } else { p + 1 };
        let q0 = if q < i { q } else { q + 1 };
        assert(r[p] == s[p0] && r[q] == s[q0]);
    }
    if i == s.len() - 1 {
        assert(r =~= s.drop_last());
        lemma_pairs_absent(s.drop_last(), s[i].0);
        assert(map_of_pairs(r) =~= map_of_pairs(s).remove(s[i].0));
    } else {
        lemma_pairs_remove(s.drop_last(), i);
        assert(r.drop_last() =~= s.drop_last().remove(i));
        assert(r.last() == s.last());
        assert(map_of_pairs(r) =~= map_of_pairs(s).remove(s[i].0));
    }
}

} // verus!
