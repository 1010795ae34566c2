//! Ordered association lists at the specification level.
//!
//! Node tables, controller tables and exit maps are modelled as sequences of
//! key/value pairs with distinct keys, scanned left to right. Keeping the
//! declared order in the model makes first-declared-wins tie-breaking and
//! round-trip statements direct.

use vstd::prelude::*;

verus! {

/// The first value bound to `key`, scanning left to right.
pub open spec fn alist_lookup<V>(m: Seq<(Seq<char>, V)>, key: Seq<char>) -> Option<V>
    decreases m.len(),
{
    if m.len() == 0 {
        None
    } else if m[0].0 == key {
        Some(m[0].1)
    } else {
        alist_lookup(m.skip(1), key)
    }
}

pub open spec fn alist_contains<V>(m: Seq<(Seq<char>, V)>, key: Seq<char>) -> bool {
    alist_lookup(m, key) is Some
}

/// Replace the first binding of `key`, or append a new one at the end.
pub open spec fn alist_insert<V>(m: Seq<(Seq<char>, V)>, key: Seq<char>, value: V) -> Seq<
    (Seq<char>, V),
>
    decreases m.len(),
{
    if m.len() == 0 {
        seq![(key, value)]
    } else if m[0].0 == key {
        seq![(key, value)] + m.skip(1)
    } else {
        seq![m[0]] + alist_insert(m.skip(1), key, value)
    }
}

pub open spec fn alist_distinct_keys<V>(m: Seq<(Seq<char>, V)>) -> bool {
    forall|i: int, j: int| 0 <= i < j < m.len() ==> (#[trigger] m[i]).0 != (#[trigger] m[j]).0
}

/// If the first binding of `key` stands at index `i`, the lookup returns it.
pub proof fn lemma_alist_lookup_first<V>(m: Seq<(Seq<char>, V)>, key: Seq<char>, i: int)
    requires
        0 <= i < m.len(),
        m[i].0 == key,
        forall|j: int| 0 <= j < i ==> (#[trigger] m[j]).0 != key,
    ensures
        alist_lookup(m, key) == Some(m[i].1),
    decreases i,
{
    if i == 0 {
    } else {
        assert(m[0].0 != key);
        lemma_alist_lookup_first(m.skip(1), key, i - 1);
    }
}

/// If no binding carries `key`, the lookup returns nothing.
pub proof fn lemma_alist_lookup_none<V>(m: Seq<(Seq<char>, V)>, key: Seq<char>)
    requires
        forall|j: int| 0 <= j < m.len() ==> (#[trigger] m[j]).0 != key,
    ensures
        alist_lookup(m, key) is None,
    decreases m.len(),
{
    if m.len() > 0 {
        lemma_alist_lookup_none(m.skip(1), key);
    }
}

/// Inserting a key bound at first index `i` updates that entry in place.
pub proof fn lemma_alist_insert_found<V>(m: Seq<(Seq<char>, V)>, key: Seq<char>, value: V, i: int)
    requires
        0 <= i < m.len(),
        m[i].0 == key,
        forall|j: int| 0 <= j < i ==> (#[trigger] m[j]).0 != key,
    ensures
        alist_insert(m, key, value) == m.update(i, (key, value)),
    decreases i,
{
    if i == 0 {
        assert(alist_insert(m, key, value) =~= m.update(0, (key, value)));
    } else {
        assert(m[0].0 != key);
        lemma_alist_insert_found(m.skip(1), key, value, i - 1);
        assert(seq![m[0]] + m.skip(1).update(i - 1, (key, value)) =~= m.update(i, (key, value)));
    }
}

/// Inserting an unbound key appends the new binding.
pub proof fn lemma_alist_insert_absent<V>(m: Seq<(Seq<char>, V)>, key: Seq<char>, value: V)
    requires
        forall|j: int| 0 <= j < m.len() ==> (#[trigger] m[j]).0 != key,
    ensures
        alist_insert(m, key, value) == m.push((key, value)),
    decreases m.len(),
{
    if m.len() == 0 {
        assert(alist_insert(m, key, value) =~= m.push((key, value)));
    } else {
        lemma_alist_insert_absent(m.skip(1), key, value);
        assert(seq![m[0]] + m.skip(1).push((key, value)) =~= m.push((key, value)));
    }
}

/// An insert preserves key distinctness.
pub proof fn lemma_alist_insert_distinct<V>(m: Seq<(Seq<char>, V)>, key: Seq<char>, value: V)
    requires
        alist_distinct_keys(m),
    ensures
        alist_distinct_keys(alist_insert(m, key, value)),
{
    if exists|i: int| 0 <= i < m.len() && (#[trigger] m[i]).0 == key {
        let i = choose|i: int|
            0 <= i < m.len() && (#[trigger] m[i]).0 == key && forall|j: int|
                0 <= j < i ==> (#[trigger] m[j]).0 != key;
        assert(exists|i: int|
            0 <= i < m.len() && (#[trigger] m[i]).0 == key && forall|j: int|
                0 <= j < i ==> (#[trigger] m[j]).0 != key) by {
            let w = choose|i: int| 0 <= i < m.len() && (#[trigger] m[i]).0 == key;
            lemma_first_matching_index(m, key, w);
        }
        lemma_alist_insert_found(m, key, value, i);
        let m2 = m.update(i, (key, value));
        assert forall|p: int, q: int| 0 <= p < q < m2.len() implies (#[trigger] m2[p]).0 != (
        #[trigger] m2[q]).0 by {
            assert(m[p].0 != m[q].0);
        }
    } else {
        assert(forall|j: int| 0 <= j < m.len() ==> (#[trigger] m[j]).0 != key);
        lemma_alist_insert_absent(m, key, value);
        let m2 = m.push((key, value));
        assert forall|p: int, q: int| 0 <= p < q < m2.len() implies (#[trigger] m2[p]).0 != (
        #[trigger] m2[q]).0 by {
            if q < m.len() {
                assert(m[p].0 != m[q].0);
            } else {
                assert(m2[q].0 == key);
                assert(m[p].0 != key);
            }
        }
    }
}

/// Ahead of any index whose key matches there is a first such index.
pub proof fn lemma_first_matching_index<V>(m: Seq<(Seq<char>, V)>, key: Seq<char>, w: int)
    requires
        0 <= w < m.len(),
        m[w].0 == key,
    ensures
        exists|i: int|
            0 <= i < m.len() && (#[trigger] m[i]).0 == key && forall|j: int|
                0 <= j < i ==> (#[trigger] m[j]).0 != key,
    decreases w,
{
    if forall|j: int| 0 <= j < w ==> (#[trigger] m[j]).0 != key {
        assert(0 <= w < m.len() && m[w].0 == key && forall|j: int|
            0 <= j < w ==> (#[trigger] m[j]).0 != key);
    } else {
        let w2 = choose|j: int| 0 <= j < w && (#[trigger] m[j]).0 == key;
        lemma_first_matching_index(m, key, w2);
    }
}

} // verus!
