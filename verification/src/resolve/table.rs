//! Association tables keyed by the meaning of their keys.

use vstd::prelude::*;

verus! {

/// A key of a [`Table`]: two keys are the same when their views are equal.
pub trait Key: View + Sized {
    /// Whether two keys have the same view.
    fn same(&self, other: &Self) -> (same: bool)
        ensures
            same == (self@ == other@),
    ;
}

/// What can be copied without changing its view.
pub trait Duplicate: View + Sized {
    /// A copy with the same view.
    fn duplicate(&self) -> (copy: Self)
        ensures
            copy@ == self@,
    ;
}

/// A table from keys to values. Where a key stands in several entries, the last one counts.
pub struct Table<K: Key, V: View> {
    entries: Vec<(K, V)>,
}

/// The mapping that a sequence of entries stands for.
spec fn entries_map<K: View, V: View>(entries: Seq<(K, V)>) -> Map<K::V, V::V>
    decreases entries.len(),
{
    if entries.len() == 0 {
        Map::empty()
    } else {
        entries_map(entries.drop_last()).insert(entries.last().0@, entries.last().1@)
    }
}

/// Whether `i` is the last entry for `key`.
spec fn last_entry<K: View, V: View>(entries: Seq<(K, V)>, key: K::V, i: int) -> bool {
    &&& 0 <= i < entries.len()
    &&& entries[i].0@ == key
    &&& forall|j: int| i < j < entries.len() ==> (#[trigger] entries[j]).0@ != key
}

proof fn lemma_last_entry<K: View, V: View>(entries: Seq<(K, V)>, key: K::V, i: int)
    requires
        last_entry(entries, key, i),
    ensures
        entries_map(entries).contains_key(key),
        entries_map(entries)[key] == entries[i].1@,
        forall|v: (K, V)|
            v.0@ == key ==> #[trigger] entries_map(entries.update(i, v)) == entries_map(
                entries,
            ).insert(key, v.1@),
    decreases entries.len(),
{
    let init = entries.drop_last();
    if i < entries.len() - 1 {
        assert forall|j: int| i < j < init.len() implies (#[trigger] init[j]).0@ != key by {
            assert(init[j] == entries[j]);
        }
        lemma_last_entry(init, key, i);
    }
    assert forall|v: (K, V)| v.0@ == key implies #[trigger] entries_map(entries.update(i, v))
        == entries_map(entries).insert(key, v.1@) by {
        let updated = entries.update(i, v);
        if i < entries.len() - 1 {
            assert(updated.drop_last() == init.update(i, v));
            assert(updated.last() == entries.last());
            assert(entries[entries.len() - 1].0@ != key);
            assert(entries_map(init.update(i, v)) == entries_map(init).insert(key, v.1@));
        } else {
            assert(updated.drop_last() == init);
        }
        assert(entries_map(updated) =~= entries_map(entries).insert(key, v.1@));
    }
}

proof fn lemma_no_entry<K: View, V: View>(entries: Seq<(K, V)>, key: K::V)
    requires
        forall|j: int| 0 <= j < entries.len() ==> (#[trigger] entries[j]).0@ != key,
    ensures
        !entries_map(entries).contains_key(key),
    decreases entries.len(),
{
    if entries.len() > 0 {
        let init = entries.drop_last();
        assert forall|j: int| 0 <= j < init.len() implies (#[trigger] init[j]).0@ != key by {
            assert(init[j] == entries[j]);
        }
        lemma_no_entry(init, key);
        assert(entries[entries.len() - 1].0@ != key);
    }
}

impl<K: Key, V: View> View for Table<K, V> {
    type V = Map<K::V, V::V>;

    closed spec fn view(&self) -> Map<K::V, V::V> {
        entries_map(self.entries@)
    }
}

impl<K: Key, V: View> Table<K, V> {
    /// The empty table.
    pub fn new() -> (table: Self)
        ensures
            table@ == Map::<K::V, V::V>::empty(),
    {
        Table { entries: Vec::new() }
    }

    /// The last entry for `key`.
    fn position(&self, key: &K) -> (found: Option<usize>)
        ensures
            match found {
                Some(i) => last_entry(self.entries@, key@, i as int) && self@.contains_key(key@)
                    && self@[key@] == self.entries@[i as int].1@,
                None => !self@.contains_key(key@),
            },
    {
        let mut i: usize = self.entries.len();
        while i > 0
            invariant
                i <= self.entries@.len(),
                forall|j: int|
                    i <= j < self.entries@.len() ==> (#[trigger] self.entries@[j]).0@ != key@,
            decreases i,
        {
            i -= 1;
            if self.entries[i].0.same(key) {
                proof {
                    lemma_last_entry(self.entries@, key@, i as int);
                }
                return Some(i);
            }
        }
        proof {
            lemma_no_entry(self.entries@, key@);
        }
        None
    }

    /// Whether `key` is in the table.
    pub fn contains(&self, key: &K) -> (found: bool)
        ensures
            found == self@.contains_key(key@),
    {
        self.position(key).is_some()
    }

    /// The value at `key`.
    pub fn get(&self, key: &K) -> (value: Option<&V>)
        ensures
            match value {
                Some(v) => self@.contains_key(key@) && v@ == self@[key@],
                None => !self@.contains_key(key@),
            },
    {
        match self.position(key) {
            Some(i) => Some(&self.entries[i].1),
            None => None,
        }
    }

    /// Sets the value at `key`, whatever was there.
    pub fn insert(&mut self, key: K, value: V)
        ensures
            final(self)@ == old(self)@.insert(key@, value@),
    {
        match self.position(&key) {
            Some(i) => {
                proof {
                    lemma_last_entry(self.entries@, key@, i as int);
                }
                self.entries.set(i, (key, value));
            },
            None => {
                let ghost before = self.entries@;
                self.entries.push((key, value));
                assert(self.entries@.drop_last() == before);
            },
        }
    }

    /// Access to the value at `key`.
    pub fn get_mut(&mut self, key: &K) -> (value: Option<&mut V>)
        ensures
            match value {
                Some(v) => {
                    &&& old(self)@.contains_key(key@)
                    &&& v@ == old(self)@[key@]
                    &&& final(self)@ == old(self)@.insert(key@, final(v)@)
                },
                None => !old(self)@.contains_key(key@) && final(self)@ == old(self)@,
            },
    {
        match self.position(key) {
            Some(i) => {
                proof {
                    lemma_last_entry(self.entries@, key@, i as int);
                }
                Some(&mut self.entries[i].1)
            },
            None => None,
        }
    }
}

impl<K: Key + Duplicate, V: Duplicate> Duplicate for Table<K, V> {
    fn duplicate(&self) -> (copy: Self) {
        let mut entries: Vec<(K, V)> = Vec::new();
        let mut i: usize = 0;
        while i < self.entries.len()
            invariant
                i <= self.entries@.len(),
                entries_map(entries@) == entries_map(self.entries@.take(i as int)),
            decreases self.entries@.len() - i,
        {
            let ghost before = entries@;
            entries.push((self.entries[i].0.duplicate(), self.entries[i].1.duplicate()));
            assert(entries@.drop_last() == before);
            i += 1;
            assert(self.entries@.take(i as int).drop_last() == self.entries@.take(i - 1));
        }
        assert(self.entries@.take(i as int) == self.entries@);
        Table { entries }
    }
}

} // verus!
