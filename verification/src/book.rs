//! A book of amounts by key: the store behind balances and allowances.

use crate::address::Address;
use crate::sums::amount_at;
use vstd::prelude::*;

verus! {

/// What a book can be keyed by: values that can be told apart at run time.
pub trait Key: Sized {
    /// Whether the two keys are the same.
    fn same(&self, other: &Self) -> (r: bool)
        ensures
            r == (*self == *other),
    ;
}

impl Key for Address {
    fn same(&self, other: &Self) -> (r: bool) {
        *self == *other
    }
}

impl Key for (Address, Address) {
    fn same(&self, other: &Self) -> (r: bool) {
        self.0 == other.0 && self.1 == other.1
    }
}

/// One line of a book.
struct Entry<K> {
    key: K,
    amount: u64,
}

/// The map that a list of entries stands for; of two entries under one key
/// the later one counts.
spec fn recorded<K>(entries: Seq<Entry<K>>) -> Map<K, u64>
    decreases entries.len(),
{
    if entries.len() == 0 {
        Map::empty()
    } else {
        recorded(entries.drop_last()).insert(entries.last().key, entries.last().amount)
    }
}

/// No key heads two entries.
spec fn distinct_keys<K>(entries: Seq<Entry<K>>) -> bool {
    forall|i: int, j: int|
        0 <= i < j < entries.len() ==> (#[trigger] entries[i]).key != (#[trigger] entries[j]).key
}

/// The keys of the map are the keys of the entries, so there are finitely many.
proof fn lemma_recorded_keys<K>(entries: Seq<Entry<K>>)
    ensures
        recorded(entries).dom().finite(),
        forall|key: K|
            recorded(entries).dom().contains(key) <==> exists|i: int|
                0 <= i < entries.len() && (#[trigger] entries[i]).key == key,
    decreases entries.len(),
{
    if entries.len() > 0 {
        let front = entries.drop_last();
        lemma_recorded_keys(front);
        assert forall|key: K|
            recorded(entries).dom().contains(key) implies exists|i: int|
            0 <= i < entries.len() && (#[trigger] entries[i]).key == key by {
            if key == entries.last().key {
                assert(entries[entries.len() - 1].key == key);
            } else {
                let i = choose|i: int| 0 <= i < front.len() && (#[trigger] front[i]).key == key;
                assert(entries[i].key == key);
            }
        }
        assert forall|key: K|
            (exists|i: int| 0 <= i < entries.len() && (#[trigger] entries[i]).key == key)
            implies recorded(entries).dom().contains(key) by {
            let i = choose|i: int| 0 <= i < entries.len() && (#[trigger] entries[i]).key == key;
            if i < entries.len() - 1 {
                assert(front[i].key == key);
            }
        }
    }
}

/// With distinct keys, each entry's amount is what the map holds under its key.
proof fn lemma_recorded_entry<K>(entries: Seq<Entry<K>>, i: int)
    requires
        distinct_keys(entries),
        0 <= i < entries.len(),
    ensures
        recorded(entries).dom().contains(entries[i].key),
        recorded(entries)[entries[i].key] == entries[i].amount,
    decreases entries.len(),
{
    if i < entries.len() - 1 {
        let front = entries.drop_last();
        assert(front[i] == entries[i]);
        assert(entries[i].key != entries[entries.len() - 1].key);
        lemma_recorded_entry(front, i);
    }
}

/// With distinct keys, rewriting one entry's amount rewrites the map under
/// that entry's key and nowhere else.
proof fn lemma_recorded_update<K>(entries: Seq<Entry<K>>, i: int, amount: u64)
    requires
        distinct_keys(entries),
        0 <= i < entries.len(),
    ensures
        recorded(entries.update(i, Entry { key: entries[i].key, amount }))
            == recorded(entries).insert(entries[i].key, amount),
        distinct_keys(entries.update(i, Entry { key: entries[i].key, amount })),
    decreases entries.len(),
{
    let key = entries[i].key;
    let updated = entries.update(i, Entry { key, amount });
    let front = entries.drop_last();
    if i == entries.len() - 1 {
        assert(updated.drop_last() =~= front);
        assert(recorded(updated) =~= recorded(entries).insert(key, amount));
    } else {
        assert(front[i] == entries[i]);
        assert(entries[i].key != entries[entries.len() - 1].key);
        assert(updated.drop_last() =~= front.update(i, Entry { key, amount }));
        assert(updated.last() == entries.last());
        lemma_recorded_update(front, i, amount);
        assert(recorded(updated) =~= recorded(entries).insert(key, amount));
    }
}

/// A book of amounts by key. A key that was never written holds zero.
pub struct Book<K: Key> {
    entries: Vec<Entry<K>>,
}

impl<K: Key> View for Book<K> {
    type V = Map<K, u64>;

    closed spec fn view(&self) -> Map<K, u64> {
        recorded(self.entries@)
    }
}

impl<K: Key> Book<K> {
    /// The book is in order: no key is entered twice.
    pub closed spec fn wf(&self) -> bool {
        distinct_keys(self.entries@)
    }

    /// A book holds finitely many keys.
    pub proof fn lemma_finite(&self)
        ensures
            self@.dom().finite(),
    {
        lemma_recorded_keys(self.entries@);
    }

    /// The empty book.
    pub fn new() -> (r: Book<K>)
        ensures
            r.wf(),
            r@ == Map::<K, u64>::empty(),
    {
        Book { entries: Vec::new() }
    }

    /// Where the key is entered, if anywhere.
    fn position(&self, key: &K) -> (r: Option<usize>)
        ensures
            match r {
                Some(i) => i < self.entries@.len() && self.entries@[i as int].key == *key,
                None => forall|i: int|
                    0 <= i < self.entries@.len() ==> (#[trigger] self.entries@[i]).key != *key,
            },
    {
        let mut i: usize = 0;
        while i < self.entries.len()
            invariant
                i <= self.entries@.len(),
                forall|j: int| 0 <= j < i ==> (#[trigger] self.entries@[j]).key != *key,
            decreases self.entries@.len() - i,
        {
            if self.entries[i].key.same(key) {
                return Some(i);
            }
            i = i + 1;
        }
        None
    }

    /// The amount held under `key`: zero where none was written.
    pub fn get(&self, key: &K) -> (r: u64)
        requires
            self.wf(),
        ensures
            r == amount_at(self@, *key),
    {
        proof {
            lemma_recorded_keys(self.entries@);
        }
        match self.position(key) {
            Some(i) => {
                proof {
                    lemma_recorded_entry(self.entries@, i as int);
                }
                self.entries[i].amount
            },
            None => 0,
        }
    }

    /// Writes `amount` under `key`, in place of whatever was held there.
    pub fn set(&mut self, key: K, amount: u64)
        requires
            old(self).wf(),
        ensures
            final(self).wf(),
            final(self)@ == old(self)@.insert(key, amount),
    {
        match self.position(&key) {
            Some(i) => {
                proof {
                    lemma_recorded_update(self.entries@, i as int, amount);
                }
                self.entries.set(i, Entry { key, amount });
            },
            None => {
                self.entries.push(Entry { key, amount });
                proof {
                    assert(self.entries@.drop_last() =~= old(self).entries@);
                }
            },
        }
    }
}

} // verus!
