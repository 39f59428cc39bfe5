//! Ghost model of an association list: a sequence of key/value pairs seen as
//! a map. The stores of this crate keep their entries in vectors whose keys
//! never repeat; their contracts speak about the map those vectors denote.

use vstd::prelude::*;

verus! {

/// The map denoted by a sequence of key/value pairs. A later pair with the
/// same key overrides an earlier one, as repeated insertion into a map would.
pub open spec fn kv_map<K, V>(s: Seq<(K, V)>) -> Map<K, V>
    decreases s.len(),
{
    if s.len() == 0 {
        Map::empty()
    } else {
        kv_map(s.drop_last()).insert(s.last().0, s.last().1)
    }
}

/// No key occurs twice in the sequence.
pub open spec fn distinct_keys<K, V>(s: Seq<(K, V)>) -> bool {
    forall|i: int, j: int| 0 <= i < j < s.len() ==> s[i].0 != s[j].0
}

/// A key is in the map exactly when some pair of the sequence carries it.
pub proof fn lemma_kv_map_domain<K, V>(s: Seq<(K, V)>, k: K)
    ensures
        kv_map(s).contains_key(k) <==> exists|i: int| 0 <= i < s.len() && s[i].0 == k,
    decreases s.len(),
{
    if s.len() > 0 {
        lemma_kv_map_domain(s.drop_last(), k);
        if kv_map(s).contains_key(k) {
            if s.last().0 == k {
                assert(s[s.len() - 1].0 == k);
            } else {
                let i = choose|i: int| 0 <= i < s.drop_last().len() && s.drop_last()[i].0 == k;
                assert(s[i].0 == k);
            }
        }
        if exists|i: int| 0 <= i < s.len() && s[i].0 == k {
            let i = choose|i: int| 0 <= i < s.len() && s[i].0 == k;
            if i < s.len() - 1 {
                assert(s.drop_last()[i].0 == k);
            }
        }
    }
}

/// With distinct keys, the map sends each listed key to its listed value.
pub proof fn lemma_kv_map_index<K, V>(s: Seq<(K, V)>, i: int)
    requires
        distinct_keys(s),
        0 <= i < s.len(),
    ensures
        kv_map(s).contains_key(s[i].0),
        kv_map(s)[s[i].0] == s[i].1,
    decreases s.len(),
{
    if i < s.len() - 1 {
        assert(s.drop_last()[i] == s[i]);
        lemma_kv_map_index(s.drop_last(), i);
        assert(s[i].0 != s.last().0);
    }
}

/// Replacing the value at position `i` inserts over the key kept there.
pub proof fn lemma_kv_map_update<K, V>(s: Seq<(K, V)>, i: int, v: V)
    requires
        distinct_keys(s),
        0 <= i < s.len(),
    ensures
        kv_map(s.update(i, (s[i].0, v))) =~= kv_map(s).insert(s[i].0, v),
        distinct_keys(s.update(i, (s[i].0, v))),
    decreases s.len(),
{
    let k = s[i].0;
    let t = s.update(i, (k, v));
    assert forall|a: int, b: int| 0 <= a < b < t.len() implies t[a].0 != t[b].0 by {
        assert(s[a].0 != s[b].0);
    }
    if i == s.len() - 1 {
        assert(t.drop_last() =~= s.drop_last());
        assert(kv_map(t) =~= kv_map(s).insert(k, v));
    } else {
        assert(t.drop_last() =~= s.drop_last().update(i, (k, v)));
        assert(t.last() == s.last());
        lemma_kv_map_update(s.drop_last(), i, v);
        assert(k != s.last().0);
        assert(kv_map(t) =~= kv_map(s).insert(k, v));
    }
}

/// Removing the pair at position `i` removes its key from the map.
pub proof fn lemma_kv_map_remove<K, V>(s: Seq<(K, V)>, i: int)
    requires
        distinct_keys(s),
        0 <= i < s.len(),
    ensures
        kv_map(s.remove(i)) =~= kv_map(s).remove(s[i].0),
        distinct_keys(s.remove(i)),
    decreases s.len(),
{
    let k = s[i].0;
    let t = s.remove(i);
    assert forall|a: int, b: int| 0 <= a < b < t.len() implies t[a].0 != t[b].0 by {
        let sa = if a < i { a } else { a + 1 };
        let sb = if b < i { b } else { b + 1 };
        assert(t[a] == s[sa]);
        assert(t[b] == s[sb]);
    }
    if i == s.len() - 1 {
        assert(t =~= s.drop_last());
        lemma_kv_map_domain(s.drop_last(), k);
        assert(!kv_map(s.drop_last()).contains_key(k));
        assert(kv_map(t) =~= kv_map(s).remove(k));
    } else {
        assert(t.drop_last() =~= s.drop_last().remove(i));
        assert(t.last() == s.last());
        assert(s.drop_last()[i] == s[i]);
        lemma_kv_map_remove(s.drop_last(), i);
        assert(k != s.last().0);
        assert(kv_map(t) =~= kv_map(s).remove(k));
    }
}

/// Appending a pair with a fresh key inserts it and keeps the keys distinct.
pub proof fn lemma_kv_map_push_fresh<K, V>(s: Seq<(K, V)>, k: K, v: V)
    requires
        distinct_keys(s),
        forall|i: int| 0 <= i < s.len() ==> s[i].0 != k,
    ensures
        kv_map(s.push((k, v))) =~= kv_map(s).insert(k, v),
        distinct_keys(s.push((k, v))),
{
    assert(s.push((k, v)).drop_last() =~= s);
}

} // verus!
