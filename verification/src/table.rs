//! A small keyed table: an association list in which no key occurs twice.

use vstd::prelude::*;

use crate::sums::nonzero;

verus! {

/// Whether an entry stands under `key`.
pub open spec fn holds_key<V>(entries: Seq<(u64, V)>, key: u64) -> bool {
    exists|i: int| 0 <= i < entries.len() && (#[trigger] entries[i]).0 == key
}

/// What the entries say of every key.
pub open spec fn entries_map<V>(entries: Seq<(u64, V)>) -> Map<u64, V>
    decreases entries.len(),
{
    if entries.len() == 0 {
        Map::empty()
    } else {
        entries_map(entries.drop_last()).insert(entries.last().0, entries.last().1)
    }
}

/// No key occurs twice.
pub open spec fn keys_distinct<V>(entries: Seq<(u64, V)>) -> bool {
    forall|i: int, j: int|
        0 <= i < entries.len() && 0 <= j < entries.len() && i != j ==> (#[trigger] entries[i]).0
            != (#[trigger] entries[j]).0
}

proof fn lemma_entries_map<V>(entries: Seq<(u64, V)>)
    requires
        keys_distinct(entries),
    ensures
        entries_map(entries).dom().finite(),
        entries_map(entries).dom().len() == entries.len(),
        forall|key: u64| #[trigger]
            entries_map(entries).dom().contains(key) <==> holds_key(entries, key),
        forall|i: int|
            0 <= i < entries.len() ==> entries_map(entries)[(#[trigger] entries[i]).0]
                == entries[i].1,
    decreases entries.len(),
{
    if entries.len() > 0 {
        let init = entries.drop_last();
        lemma_entries_map(init);
        if entries_map(init).dom().contains(entries.last().0) {
            let i = choose|i: int|
                0 <= i < init.len() && (#[trigger] init[i]).0 == entries.last().0;
            assert(entries[i].0 != entries[entries.len() - 1].0);
        }
        assert forall|key: u64| #[trigger]
            entries_map(entries).dom().contains(key) <==> holds_key(entries, key) by {
            if entries_map(entries).dom().contains(key) {
                if key == entries.last().0 {
                    assert(entries[entries.len() - 1].0 == key);
                } else {
                    let i = choose|i: int| 0 <= i < init.len() && (#[trigger] init[i]).0 == key;
                    assert(entries[i].0 == key);
                }
            }
            if holds_key(entries, key) {
                let i = choose|i: int| 0 <= i < entries.len() && (#[trigger] entries[i]).0 == key;
                if i < entries.len() - 1 {
                    assert(init[i].0 == key);
                    assert(holds_key(init, key));
                }
            }
        }
        assert forall|i: int| 0 <= i < entries.len() implies entries_map(entries)[(
        #[trigger] entries[i]).0] == entries[i].1 by {
            if i < entries.len() - 1 {
                assert(init[i] == entries[i]);
                assert(entries[i].0 != entries[entries.len() - 1].0);
            }
        }
    }
}

/// Writing a new value under a key that is there changes that key alone.
proof fn lemma_entries_update<V>(entries: Seq<(u64, V)>, at: int, value: V)
    requires
        keys_distinct(entries),
        0 <= at < entries.len(),
    ensures
        keys_distinct(entries.update(at, (entries[at].0, value))),
        entries_map(entries.update(at, (entries[at].0, value))) == entries_map(entries).insert(
            entries[at].0,
            value,
        ),
{
    let after = entries.update(at, (entries[at].0, value));
    assert(keys_distinct(after)) by {
        assert forall|i: int, j: int|
            0 <= i < after.len() && 0 <= j < after.len() && i != j implies (#[trigger] after[i]).0
            != (#[trigger] after[j]).0 by {
            assert(after[i].0 == entries[i].0 && after[j].0 == entries[j].0);
        }
    }
    lemma_entries_map(entries);
    lemma_entries_map(after);
    assert forall|key: u64| holds_key(after, key) <==> holds_key(entries, key) by {
        if holds_key(after, key) {
            let i = choose|i: int| 0 <= i < after.len() && (#[trigger] after[i]).0 == key;
            assert(entries[i].0 == key);
        }
        if holds_key(entries, key) {
            let i = choose|i: int| 0 <= i < entries.len() && (#[trigger] entries[i]).0 == key;
            assert(after[i].0 == key);
        }
    }
    let target = entries_map(entries).insert(entries[at].0, value);
    assert(holds_key(entries, entries[at].0));
    assert forall|key: u64| entries_map(after).dom().contains(key) implies entries_map(after)[key]
        == target[key] by {
        assert(holds_key(after, key));
        let i = choose|i: int| 0 <= i < after.len() && (#[trigger] after[i]).0 == key;
        assert(entries_map(after)[after[i].0] == after[i].1);
        assert(entries_map(entries)[entries[i].0] == entries[i].1);
        if i != at {
            assert(entries[i].0 != entries[at].0);
        }
    }
    assert(entries_map(after) =~= target);
}

/// A copy of a list.
pub(crate) fn copied<T: Copy>(items: &Vec<T>) -> (copy: Vec<T>)
    ensures
        copy@ == items@,
{
    let mut copy: Vec<T> = Vec::new();
    let mut i: usize = 0;
    while i < items.len()
        invariant
            i <= items@.len(),
            copy@ == items@.take(i as int),
        decreases items@.len() - i,
    {
        copy.push(items[i]);
        i = i + 1;
    }
    assert(copy@ =~= items@);
    copy
}

/// A table from numbers to values. No key occurs twice, and a key keeps the place it was
/// first written at.
#[derive(Debug)]
pub struct Table<V> {
    pub(crate) entries: Vec<(u64, V)>,
}

impl<V> View for Table<V> {
    type V = Map<u64, V>;

    open(crate) spec fn view(&self) -> Map<u64, V> {
        entries_map(self.entries@)
    }
}

impl<V: Copy> Table<V> {
    pub open(crate) spec fn wf(&self) -> bool {
        keys_distinct(self.entries@)
    }

    /// The table with nothing in it.
    pub fn new() -> (table: Self)
        ensures
            table.wf(),
            table@ == Map::<u64, V>::empty(),
    {
        Table { entries: Vec::new() }
    }

    fn position(&self, key: u64) -> (at: Option<usize>)
        requires
            self.wf(),
        ensures
            match at {
                Some(i) => i < self.entries@.len() && self.entries@[i as int].0 == key,
                None => !holds_key(self.entries@, key),
            },
    {
        let mut i: usize = 0;
        while i < self.entries.len()
            invariant
                i <= self.entries@.len(),
                forall|j: int| 0 <= j < i ==> (#[trigger] self.entries@[j]).0 != key,
            decreases self.entries@.len() - i,
        {
            if self.entries[i].0 == key {
                return Some(i);
            }
            i = i + 1;
        }
        None
    }

    /// The value under `key`.
    pub fn get(&self, key: u64) -> (value: Option<V>)
        requires
            self.wf(),
        ensures
            value == self@.get(key),
    {
        proof {
            lemma_entries_map(self.entries@);
        }
        match self.position(key) {
            Some(i) => {
                assert(holds_key(self.entries@, key));
                Some(self.entries[i].1)
            },
            None => None,
        }
    }

    /// Writes `value` under `key`.
    pub fn set(&mut self, key: u64, value: V)
        requires
            old(self).wf(),
        ensures
            final(self).wf(),
            final(self)@ == old(self)@.insert(key, value),
    {
        let ghost before = self.entries@;
        match self.position(key) {
            Some(i) => {
                proof {
                    lemma_entries_update(before, i as int, value);
                }
                self.entries.set(i, (key, value));
            },
            None => {
                self.entries.push((key, value));
                assert(self.entries@.drop_last() =~= before);
                assert forall|i: int, j: int|
                    0 <= i < self.entries@.len() && 0 <= j < self.entries@.len() && i
                        != j implies (#[trigger] self.entries@[i]).0 != (
                #[trigger] self.entries@[j]).0 by {
                    if i < before.len() {
                        assert(before[i] == self.entries@[i]);
                    }
                    if j < before.len() {
                        assert(before[j] == self.entries@[j]);
                    }
                }
            },
        }
    }

    /// A copy of the table.
    pub fn duplicate(&self) -> (copy: Self)
        requires
            self.wf(),
        ensures
            copy.wf(),
            copy@ == self@,
    {
        Table { entries: copied(&self.entries) }
    }

    /// What the entries have to do with the table.
    pub(crate) proof fn lemma_entries(&self)
        requires
            self.wf(),
        ensures
            self@.dom().finite(),
            self@.dom().len() == self.entries@.len(),
            forall|key: u64| #[trigger]
                self@.dom().contains(key) <==> holds_key(self.entries@, key),
            forall|i: int|
                0 <= i < self.entries@.len() ==> self@.dom().contains(
                    (#[trigger] self.entries@[i]).0,
                ) && self@[self.entries@[i].0] == self.entries@[i].1,
    {
        lemma_entries_map(self.entries@);
        assert forall|i: int| 0 <= i < self.entries@.len() implies self@.dom().contains(
            (#[trigger] self.entries@[i]).0,
        ) by {
            assert(holds_key(self.entries@, self.entries@[i].0));
        }
    }
}

impl Table<i128> {
    /// Drops the entries that are zero, and says how many there were.
    pub fn drop_zeros(&mut self) -> (dropped: usize)
        requires
            old(self).wf(),
        ensures
            final(self).wf(),
            final(self)@ == nonzero(old(self)@),
            dropped == old(self)@.dom().len() - final(self)@.dom().len(),
    {
        let ghost before = self.entries@;
        let ghost table = *self;
        proof {
            table.lemma_entries();
        }
        let mut kept: Table<i128> = Table::new();
        let mut dropped: usize = 0;
        let mut i: usize = 0;
        while i < self.entries.len()
            invariant
                before == self.entries@,
                keys_distinct(before),
                i <= before.len(),
                kept.wf(),
                kept@.dom().finite(),
                dropped + kept@.dom().len() == i,
                forall|key: u64| #[trigger]
                    kept@.dom().contains(key) <==> exists|j: int|
                        0 <= j < i && (#[trigger] before[j]).0 == key && before[j].1 != 0,
                forall|j: int|
                    0 <= j < i && (#[trigger] before[j]).1 != 0 ==> kept@[before[j].0]
                        == before[j].1,
            decreases before.len() - i,
        {
            let (key, amount): (u64, i128) = self.entries[i];
            if amount == 0 {
                dropped = dropped + 1;
            } else {
                let ghost earlier = kept@;
                assert(!earlier.dom().contains(key)) by {
                    if earlier.dom().contains(key) {
                        let j = choose|j: int|
                            0 <= j < i && (#[trigger] before[j]).0 == key && before[j].1 != 0;
                        assert(before[j].0 != before[i as int].0);
                    }
                }
                kept.set(key, amount);
            }
            assert forall|k: u64| #[trigger]
                kept@.dom().contains(k) <==> exists|j: int|
                    0 <= j < i + 1 && (#[trigger] before[j]).0 == k && before[j].1 != 0 by {
                if k == key && amount != 0 {
                    assert(before[i as int].0 == k && before[i as int].1 != 0);
                }
            }
            i = i + 1;
        }
        proof {
            let m = table@;
            assert forall|k: u64| kept@.dom().contains(k) <==> nonzero(m).dom().contains(k) by {
                if kept@.dom().contains(k) {
                    let j = choose|j: int|
                        0 <= j < i && (#[trigger] before[j]).0 == k && before[j].1 != 0;
                    assert(m.dom().contains(before[j].0));
                }
                if nonzero(m).dom().contains(k) {
                    let j = choose|j: int| 0 <= j < before.len() && (#[trigger] before[j]).0 == k;
                    assert(m[before[j].0] == before[j].1);
                }
            }
            assert forall|k: u64| kept@.dom().contains(k) implies kept@[k] == nonzero(m)[k] by {
                let j = choose|j: int|
                    0 <= j < i && (#[trigger] before[j]).0 == k && before[j].1 != 0;
                assert(kept@[before[j].0] == before[j].1);
                assert(m[before[j].0] == before[j].1);
            }
            assert(kept@ =~= nonzero(m));
        }
        *self = kept;
        dropped
    }
}

} // verus!
