//! Association lists as finite maps.
//!
//! The registry and the pending-request table both hold their entries in a
//! vector; their contracts speak of the `Map` those entries describe.  The
//! lemmas here connect the two under the invariant that no key repeats.

use vstd::prelude::*;

verus! {

/// The finite map described by an association list; a later entry for a key
/// shadows an earlier one.
pub open spec fn map_of<K: View, V: View>(s: Seq<(K, V)>) -> Map<K::V, V::V>
    decreases s.len(),
{
    if s.len() == 0 {
        Map::empty()
    } else {
        map_of(s.drop_last()).insert(s.last().0@, s.last().1@)
    }
}

/// No two entries share a key.
pub open spec fn distinct_keys<K: View, V: View>(s: Seq<(K, V)>) -> bool {
    forall|i: int, j: int| 0 <= i < j < s.len() ==> (#[trigger] s[i]).0@ != (#[trigger] s[j]).0@
}

/// A key lies in the map exactly when some entry carries it.
pub proof fn lemma_map_of_domain<K: View, V: View>(s: Seq<(K, V)>, k: K::V)
    ensures
        map_of(s).contains_key(k) <==> exists|i: int| 0 <= i < s.len() && (#[trigger] s[i]).0@ == k,
    decreases s.len(),
{
    if s.len() > 0 {
        lemma_map_of_domain(s.drop_last(), k);
        if s.last().0@ == k {
            assert((s[s.len() - 1]).0@ == k);
        } else if exists|i: int| 0 <= i < s.len() && (#[trigger] s[i]).0@ == k {
            let i = choose|i: int| 0 <= i < s.len() && (#[trigger] s[i]).0@ == k;
            assert((s.drop_last()[i]).0@ == k);
        }
    }
}

/// Under distinct keys, each entry gives its key's value.
pub proof fn lemma_map_of_index<K: View, V: View>(s: Seq<(K, V)>, i: int)
    requires
        distinct_keys(s),
        0 <= i < s.len(),
    ensures
        map_of(s).contains_key(s[i].0@),
        map_of(s)[s[i].0@] == s[i].1@,
    decreases s.len(),
{
    if i < s.len() - 1 {
        assert(distinct_keys(s.drop_last())) by {
            assert(forall|p: int, q: int|
                0 <= p < q < s.drop_last().len() ==> (#[trigger] s.drop_last()[p]).0@ != (
                #[trigger] s.drop_last()[q]).0@) by {
                assert(forall|p: int|
                    0 <= p < s.drop_last().len() ==> #[trigger] s.drop_last()[p] == s[p]);
            }
        }
        lemma_map_of_index(s.drop_last(), i);
        assert(s.drop_last()[i] == s[i]);
        assert(s[i].0@ != s.last().0@);
    }
}

/// Appending an entry inserts its pair.
pub proof fn lemma_map_of_push<K: View, V: View>(s: Seq<(K, V)>, p: (K, V))
    ensures
        map_of(s.push(p)) == map_of(s).insert(p.0@, p.1@),
{
    assert(s.push(p).drop_last() =~= s);
    assert(s.push(p).last() == p);
}

/// Under distinct keys, removing an entry removes its key.
pub proof fn lemma_map_of_remove<K: View, V: View>(s: Seq<(K, V)>, i: int)
    requires
        distinct_keys(s),
        0 <= i < s.len(),
    ensures
        map_of(s.remove(i)) == map_of(s).remove(s[i].0@),
    decreases s.len(),
{
    s.remove_ensures(i);
    assert(distinct_keys(s.drop_last())) by {
        assert(forall|p: int| 0 <= p < s.drop_last().len() ==> #[trigger] s.drop_last()[p] == s[p]);
    }
    if i == s.len() - 1 {
        assert(s.remove(i) =~= s.drop_last());
        lemma_map_of_domain(s.drop_last(), s[i].0@);
        assert(forall|p: int| 0 <= p < s.drop_last().len() ==> (#[trigger] s.drop_last()[p]).0@ != s[i].0@) by {
            assert(forall|p: int|
                0 <= p < s.drop_last().len() ==> #[trigger] s.drop_last()[p] == s[p]);
        }
        assert(!map_of(s.drop_last()).contains_key(s[i].0@));
        assert(map_of(s.drop_last()) =~= map_of(s).remove(s[i].0@));
    } else {
        lemma_map_of_remove(s.drop_last(), i);
        assert(s.remove(i).drop_last() =~= s.drop_last().remove(i));
        assert(s.remove(i).last() == s.last());
        assert(s[i] == s.drop_last()[i]);
        assert(s.last().0@ != s[i].0@);
        assert(map_of(s.remove(i)) == map_of(s.drop_last().remove(i)).insert(
            s.last().0@,
            s.last().1@,
        ));
        assert(map_of(s.drop_last()).remove(s[i].0@).insert(s.last().0@, s.last().1@) =~= map_of(
            s.drop_last(),
        ).insert(s.last().0@, s.last().1@).remove(s[i].0@));
    }
}

/// Distinctness survives removing an entry.
pub proof fn lemma_distinct_remove<K: View, V: View>(s: Seq<(K, V)>, i: int)
    requires
        distinct_keys(s),
        0 <= i < s.len(),
    ensures
        distinct_keys(s.remove(i)),
{
    s.remove_ensures(i);
    assert(forall|p: int, q: int|
        0 <= p < q < s.remove(i).len() ==> (#[trigger] s.remove(i)[p]).0@ != (#[trigger] s.remove(
            i,
        )[q]).0@) by {
        assert(forall|p: int|
            0 <= p < i ==> #[trigger] s.remove(i)[p] == s[p]);
        assert(forall|p: int|
            i <= p < s.len() - 1 ==> #[trigger] s.remove(i)[p] == s[p + 1]);
    }
}

} // verus!
