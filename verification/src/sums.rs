//! Sums over finite maps of amounts.

use vstd::prelude::*;

verus! {

/// The amount recorded under `key`, zero where the map holds none.
pub open spec fn amount_at<K>(m: Map<K, u64>, key: K) -> u64 {
    if m.dom().contains(key) {
        m[key]
    } else {
        0
    }
}

/// The sum of all amounts in a finite map.
pub open spec fn total<K>(m: Map<K, u64>) -> nat
    decreases m.dom().len(),
    when m.dom().finite()
{
    if m.dom().len() == 0 {
        0
    } else {
        let key = m.dom().choose();
        m[key] as nat + total(m.remove(key))
    }
}

/// The empty map sums to zero.
pub proof fn lemma_total_empty<K>()
    ensures
        total(Map::<K, u64>::empty()) == 0,
{
}

/// Any one entry can be split off the sum, whichever it is.
pub proof fn lemma_total_remove<K>(m: Map<K, u64>, key: K)
    requires
        m.dom().finite(),
        m.dom().contains(key),
    ensures
        total(m) == m[key] + total(m.remove(key)),
    decreases m.dom().len(),
{
    let first = m.dom().choose();
    if first != key {
        lemma_total_remove(m.remove(first), key);
        lemma_total_remove(m.remove(key), first);
        assert(m.remove(first).remove(key) =~= m.remove(key).remove(first));
    }
}

/// Writing `amount` under `key` replaces what the key contributed to the sum.
pub proof fn lemma_total_insert<K>(m: Map<K, u64>, key: K, amount: u64)
    requires
        m.dom().finite(),
    ensures
        total(m.insert(key, amount)) + amount_at(m, key) == total(m) + amount,
{
    let written = m.insert(key, amount);
    lemma_total_remove(written, key);
    assert(written.remove(key) =~= m.remove(key));
    if m.dom().contains(key) {
        lemma_total_remove(m, key);
    } else {
        assert(m.remove(key) =~= m);
    }
}

/// No single amount exceeds the sum.
pub proof fn lemma_amount_within_total<K>(m: Map<K, u64>, key: K)
    requires
        m.dom().finite(),
    ensures
        amount_at(m, key) <= total(m),
{
    if m.dom().contains(key) {
        lemma_total_remove(m, key);
    }
}

/// Two distinct keys together hold no more than the sum.
pub proof fn lemma_pair_within_total<K>(m: Map<K, u64>, a: K, b: K)
    requires
        m.dom().finite(),
        a != b,
    ensures
        amount_at(m, a) + amount_at(m, b) <= total(m),
{
    if m.dom().contains(a) {
        lemma_total_remove(m, a);
        lemma_amount_within_total(m.remove(a), b);
    } else {
        lemma_amount_within_total(m, b);
    }
}

} // verus!
