//! Sums over the values of finite maps.

use vstd::prelude::*;

verus! {

/// The sum of `f` over the values of a finite map.
pub open spec fn map_sum<K, V>(m: Map<K, V>, f: spec_fn(V) -> nat) -> nat
    decreases m.dom().len(),
    when m.dom().finite()
{
    if m.dom().len() == 0 {
        0
    } else {
        let k = m.dom().choose();
        f(m[k]) + map_sum(m.remove(k), f)
    }
}

/// The sum over the empty map is zero.
pub proof fn lemma_sum_empty<K, V>(f: spec_fn(V) -> nat)
    ensures
        map_sum(Map::<K, V>::empty(), f) == 0,
{
}

/// Any key can be split off the sum: the order in which a map is walked does
/// not matter.
pub proof fn lemma_sum_remove<K, V>(m: Map<K, V>, k: K, f: spec_fn(V) -> nat)
    requires
        m.dom().finite(),
        m.contains_key(k),
    ensures
        map_sum(m, f) == f(m[k]) + map_sum(m.remove(k), f),
    decreases m.dom().len(),
{
    let c = m.dom().choose();
    if c != k {
        lemma_sum_remove(m.remove(c), k, f);
        lemma_sum_remove(m.remove(k), c, f);
        assert(m.remove(c).remove(k) =~= m.remove(k).remove(c));
    }
}

/// Setting one value changes the sum by the difference at that key.
pub proof fn lemma_sum_insert<K, V>(m: Map<K, V>, k: K, v: V, f: spec_fn(V) -> nat)
    requires
        m.dom().finite(),
    ensures
        map_sum(m.insert(k, v), f) + (if m.contains_key(k) {
            f(m[k])
        } else {
            0
        }) == map_sum(m, f) + f(v),
{
    lemma_sum_remove(m.insert(k, v), k, f);
    assert(m.insert(k, v).remove(k) =~= m.remove(k));
    if m.contains_key(k) {
        lemma_sum_remove(m, k, f);
    } else {
        assert(m.remove(k) =~= m);
    }
}

/// Two distinct keys together hold no more than the whole map.
pub proof fn lemma_sum_bounds_pair<K, V>(m: Map<K, V>, a: K, b: K, f: spec_fn(V) -> nat)
    requires
        m.dom().finite(),
        m.contains_key(a),
        m.contains_key(b),
        a != b,
    ensures
        f(m[a]) + f(m[b]) <= map_sum(m, f),
{
    lemma_sum_remove(m, a, f);
    lemma_sum_remove(m.remove(a), b, f);
}

/// One key holds no more than the whole map.
pub proof fn lemma_sum_bounds<K, V>(m: Map<K, V>, a: K, f: spec_fn(V) -> nat)
    requires
        m.dom().finite(),
        m.contains_key(a),
    ensures
        f(m[a]) <= map_sum(m, f),
{
    lemma_sum_remove(m, a, f);
}

} // verus!
