//! An ordered key-value store held in memory.

use vstd::prelude::*;
use crate::data::Comparison;
use crate::data::bytes_order::{lemma_compare_equal, lemma_compare_reverse, lemma_compare_transitive};
use crate::data::datum::{bytes_compare, compare_bytes};
use crate::data::text::to_vec;

verus! {

/// A key and its value.
#[derive(Debug)]
pub struct Entry {
    pub key: Vec<u8>,
    pub value: Vec<u8>,
}

impl View for Entry {
    type V = (Seq<u8>, Seq<u8>);

    open spec fn view(&self) -> (Seq<u8>, Seq<u8>) {
        (self.key@, self.value@)
    }
}

impl Clone for Entry {
    fn clone(&self) -> (r: Self)
        ensures
            r@ == self@,
    {
        Entry { key: to_vec(self.key.as_slice()), value: to_vec(self.value.as_slice()) }
    }
}

/// Whether the keys come in strictly ascending order.
pub open spec fn sorted(entries: Seq<(Seq<u8>, Seq<u8>)>) -> bool {
    forall|i: int, j: int|
        0 <= i < j < entries.len() ==> bytes_compare(
            (#[trigger] entries[i]).0,
            (#[trigger] entries[j]).0,
        ) == Comparison::Less
}

/// The place of the first key that is not below `key`.
pub open spec fn lower_bound(entries: Seq<(Seq<u8>, Seq<u8>)>, key: Seq<u8>, from: int) -> int
    decreases entries.len() - from,
{
    if from < 0 || from >= entries.len() || bytes_compare(entries[from].0, key)
        != Comparison::Less {
        from
    } else {
        lower_bound(entries, key, from + 1)
    }
}

/// The entries after `key` has been given `value`: the entry of that key is
/// replaced, or a new one put in its place in the order.
pub open spec fn put(entries: Seq<(Seq<u8>, Seq<u8>)>, key: Seq<u8>, value: Seq<u8>) -> Seq<
    (Seq<u8>, Seq<u8>),
> {
    let at = lower_bound(entries, key, 0);
    if 0 <= at < entries.len() && entries[at].0 == key {
        entries.update(at, (key, value))
    } else {
        entries.insert(at, (key, value))
    }
}

pub proof fn lemma_lower_bound(entries: Seq<(Seq<u8>, Seq<u8>)>, key: Seq<u8>, from: int)
    requires
        0 <= from <= entries.len(),
    ensures
        from <= lower_bound(entries, key, from) <= entries.len(),
        forall|i: int|
            from <= i < lower_bound(entries, key, from) ==> bytes_compare(
                (#[trigger] entries[i]).0,
                key,
            ) == Comparison::Less,
        lower_bound(entries, key, from) < entries.len() ==> bytes_compare(
            entries[lower_bound(entries, key, from)].0,
            key,
        ) != Comparison::Less,
    decreases entries.len() - from,
{
    if from < entries.len() && bytes_compare(entries[from].0, key) == Comparison::Less {
        lemma_lower_bound(entries, key, from + 1);
    }
}

/// Putting a key into sorted entries leaves them sorted.
pub proof fn lemma_put_sorted(entries: Seq<(Seq<u8>, Seq<u8>)>, key: Seq<u8>, value: Seq<u8>)
    requires
        sorted(entries),
    ensures
        sorted(put(entries, key, value)),
{
    let at = lower_bound(entries, key, 0);
    lemma_lower_bound(entries, key, 0);
    let after = put(entries, key, value);
    if 0 <= at < entries.len() && entries[at].0 == key {
        assert forall|i: int, j: int| 0 <= i < j < after.len() implies bytes_compare(
            (#[trigger] after[i]).0,
            (#[trigger] after[j]).0,
        ) == Comparison::Less by {
            assert(after[i].0 == entries[i].0);
            assert(after[j].0 == entries[j].0);
        }
    } else {
        assert forall|i: int, j: int| 0 <= i < j < after.len() implies bytes_compare(
            (#[trigger] after[i]).0,
            (#[trigger] after[j]).0,
        ) == Comparison::Less by {
            if at < entries.len() {
                lemma_compare_reverse(entries[at].0, key);
                lemma_compare_equal(entries[at].0, key);
                assert(bytes_compare(key, entries[at].0) == Comparison::Less);
            }
            if j < at {
                assert(after[i] == entries[i]);
                assert(after[j] == entries[j]);
            } else if j == at {
                assert(after[i] == entries[i]);
            } else if i < at {
                assert(after[i] == entries[i]);
                assert(after[j] == entries[j - 1]);
            } else if i == at {
                assert(after[j] == entries[j - 1]);
                if j - 1 > at {
                    lemma_compare_transitive(key, entries[at].0, entries[j - 1].0);
                }
            } else {
                assert(after[i] == entries[i - 1]);
                assert(after[j] == entries[j - 1]);
            }
        }
    }
}

/// An ordered key-value store. Its entries are kept in the ascending
/// lexicographic order of their keys, and no key occurs twice.
#[derive(Debug)]
pub struct Storage {
    entries: Vec<Entry>,
}

impl View for Storage {
    type V = Seq<(Seq<u8>, Seq<u8>)>;

    closed spec fn view(&self) -> Seq<(Seq<u8>, Seq<u8>)> {
        Seq::new(self.entries@.len(), |i: int| self.entries@[i]@)
    }
}

impl Storage {
    /// Whether the entries are in order. A new store is, and every change
    /// through this module keeps it so.
    pub open spec fn wf(self) -> bool {
        sorted(self@)
    }

    /// An empty store.
    pub fn new_in_mem() -> (s: Storage)
        ensures
            s@ == Seq::<(Seq<u8>, Seq<u8>)>::empty(),
            s.wf(),
    {
        let s = Storage { entries: Vec::new() };
        assert(s@ =~= Seq::<(Seq<u8>, Seq<u8>)>::empty());
        s
    }

    /// The number of entries.
    pub fn len(&self) -> (n: usize)
        ensures
            n == self@.len(),
    {
        self.entries.len()
    }

    /// The entry at `index` in key order.
    pub fn entry(&self, index: usize) -> (e: &Entry)
        requires
            index < self@.len(),
        ensures
            e@ == self@[index as int],
    {
        &self.entries[index]
    }

    /// Gives `key` the value `value`.
    pub fn put(&mut self, key: Vec<u8>, value: Vec<u8>)
        ensures
            final(self)@ == put(old(self)@, key@, value@),
            old(self).wf() ==> final(self).wf(),
    {
        proof {
            if self.wf() {
                lemma_put_sorted(self@, key@, value@);
            }
        }
        let ghost before = self@;
        let mut at: usize = 0;
        while at < self.entries.len() && compare_bytes(self.entries[at].key.as_slice(), key.as_slice())
            == Comparison::Less
            invariant
                at <= self.entries@.len(),
                self@ == before,
                lower_bound(before, key@, 0) == lower_bound(before, key@, at as int),
            decreases self.entries@.len() - at,
        {
            at += 1;
        }
        if at < self.entries.len() && crate::data::text::bytes_eq(
            self.entries[at].key.as_slice(),
            key.as_slice(),
        ) {
            self.entries[at] = Entry { key, value };
            assert(self@ =~= put(before, key@, value@));
        } else {
            self.entries.insert(at, Entry { key, value });
            assert(self@ =~= put(before, key@, value@));
        }
    }

    /// A store of the given entries, where their keys are in strictly
    /// ascending order; otherwise nothing.
    pub fn from_entries(entries: Vec<Entry>) -> (r: Option<Storage>)
        ensures
            r is Some <==> sorted(Seq::new(entries@.len(), |i: int| entries@[i]@)),
            r matches Some(s) ==> s@ == Seq::new(entries@.len(), |i: int| entries@[i]@) && s.wf(),
    {
        let ghost all = Seq::new(entries@.len(), |i: int| entries@[i]@);
        let mut i: usize = 1;
        while i < entries.len()
            invariant
                1 <= i,
                all == Seq::new(entries@.len(), |i: int| entries@[i]@),
                forall|a: int, b: int|
                    0 <= a < b < i && b < all.len() ==> bytes_compare(
                        (#[trigger] all[a]).0,
                        (#[trigger] all[b]).0,
                    ) == Comparison::Less,
            decreases entries@.len() - i,
        {
            if compare_bytes(entries[i - 1].key.as_slice(), entries[i].key.as_slice())
                != Comparison::Less {
                assert(all[i - 1].0 == entries@[i - 1].key@);
                assert(all[i as int].0 == entries@[i as int].key@);
                return None;
            }
            proof {
                assert forall|a: int, b: int| 0 <= a < b < i + 1 && b < all.len() implies bytes_compare(
                    (#[trigger] all[a]).0,
                    (#[trigger] all[b]).0,
                ) == Comparison::Less by {
                    if b == i {
                        assert(all[i - 1].0 == entries@[i - 1].key@);
                        assert(all[i as int].0 == entries@[i as int].key@);
                        if a < i - 1 {
                            lemma_compare_transitive(all[a].0, all[i - 1].0, all[b].0);
                        }
                    }
                }
            }
            i += 1;
        }
        Some(Storage { entries })
    }
}

} // verus!
