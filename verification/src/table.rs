//! Map view of an association list.
//!
//! The registry and the pending-call table store their entries as vectors of
//! key/value pairs whose keys are pairwise distinct.  Their contracts speak
//! of the `Map` those pairs denote; the lemmas here connect the two.

use vstd::prelude::*;

verus! {

/// The map an association list denotes; later pairs win, but the tables
/// keep their keys distinct so the question never arises.
pub open spec fn map_of<K, V>(s: Seq<(K, V)>) -> Map<K, V>
    decreases s.len(),
{
    if s.len() == 0 {
        Map::empty()
    } else {
        map_of(s.drop_last()).insert(s.last().0, s.last().1)
    }
}

/// No two pairs share a key.
pub open spec fn keys_unique<K, V>(s: Seq<(K, V)>) -> bool {
    forall|i: int, j: int| 0 <= i < j < s.len() ==> s[i].0 != s[j].0
}

/// A key is in the map exactly when some pair holds it.
pub proof fn lemma_map_of_contains<K, V>(s: Seq<(K, V)>, k: K)
    ensures
        map_of(s).contains_key(k) <==> exists|i: int| 0 <= i < s.len() && s[i].0 == k,
    decreases s.len(),
{
    if s.len() > 0 {
        let prefix = s.drop_last();
        lemma_map_of_contains(prefix, k);
        if s.last().0 == k {
            assert(s[s.len() - 1].0 == k);
        } else {
            if map_of(s).contains_key(k) {
                let i = choose|i: int| 0 <= i < prefix.len() && prefix[i].0 == k;
                assert(s[i].0 == k);
            }
            if exists|i: int| 0 <= i < s.len() && s[i].0 == k {
                let i = choose|i: int| 0 <= i < s.len() && s[i].0 == k;
                assert(prefix[i].0 == k);
            }
        }
    }
}

/// With distinct keys, the map sends each pair's key to that pair's value.
pub proof fn lemma_map_of_index<K, V>(s: Seq<(K, V)>, i: int)
    requires
        keys_unique(s),
        0 <= i < s.len(),
    ensures
        map_of(s).contains_key(s[i].0),
        map_of(s)[s[i].0] == s[i].1,
    decreases s.len(),
{
    if i < s.len() - 1 {
        let prefix = s.drop_last();
        assert(prefix[i] == s[i]);
        lemma_map_of_index(prefix, i);
        assert(s.last().0 != s[i].0);
    }
}

/// Appending a pair inserts its binding.
pub proof fn lemma_map_of_push<K, V>(s: Seq<(K, V)>, k: K, v: V)
    ensures
        map_of(s.push((k, v))) == map_of(s).insert(k, v),
{
    assert(s.push((k, v)).drop_last() =~= s);
    assert(s.push((k, v)).last() == (k, v));
}

/// With distinct keys, removing the pair at `i` removes exactly its binding.
pub proof fn lemma_map_of_remove<K, V>(s: Seq<(K, V)>, i: int)
    requires
        keys_unique(s),
        0 <= i < s.len(),
    ensures
        keys_unique(s.remove(i)),
        map_of(s.remove(i)) == map_of(s).remove(s[i].0),
    decreases s.len(),
{
    s.remove_ensures(i);
    assert(keys_unique(s.remove(i))) by {
        assert forall|p: int, q: int| 0 <= p < q < s.remove(i).len() implies s.remove(i)[p].0
            != s.remove(i)[q].0 by {
            let p0 = if p < i { p } else { p + 1 };
            let q0 = if q < i { q } else { q + 1 };
            assert(s.remove(i)[p] == s[p0]);
            assert(s.remove(i)[q] == s[q0]);
        }
    }
    if i == s.len() - 1 {
        assert(s.remove(i) =~= s.drop_last());
        lemma_map_of_contains(s.drop_last(), s[i].0);
        assert(forall|j: int| 0 <= j < s.len() - 1 ==> s.drop_last()[j] == s[j]);
        assert(!map_of(s.drop_last()).contains_key(s[i].0));
        assert(map_of(s.remove(i)) =~= map_of(s).remove(s[i].0));
    } else {
        let prefix = s.drop_last();
        assert(s.remove(i).last() == s.last());
        assert(s.remove(i).drop_last() =~= prefix.remove(i));
        assert(prefix[i] == s[i]);
        lemma_map_of_remove(prefix, i);
        assert(map_of(s.remove(i)) == map_of(prefix.remove(i)).insert(s.last().0, s.last().1));
        assert(s.last().0 != s[i].0);
        assert(map_of(prefix).remove(s[i].0).insert(s.last().0, s.last().1) =~= map_of(
            prefix,
        ).insert(s.last().0, s.last().1).remove(s[i].0));
        assert(map_of(s.remove(i)) =~= map_of(s).remove(s[i].0));
    }
}

} // verus!
