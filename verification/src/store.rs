//! A small key-value store with get, insert and remove, viewed as a `Map`.
//!
//! The engine keeps all of its persistent tables in stores of this type. The
//! entries live in a vector in which no key occurs twice (`wf`); contracts speak
//! of the map that the entries stand for.

use vstd::prelude::*;

verus! {

/// A type whose values can serve as keys of a [`Store`].
pub trait Key: Sized {
    /// Whether two keys are the same key.
    fn key_eq(&self, other: &Self) -> (same: bool)
        ensures
            same == (*self == *other),
    ;
}

impl Key for u32 {
    fn key_eq(&self, other: &Self) -> (same: bool) {
        *self == *other
    }
}

impl Key for (u32, u32) {
    fn key_eq(&self, other: &Self) -> (same: bool) {
        self.0 == other.0 && self.1 == other.1
    }
}

/// Whether `key` is the key of one of `entries`.
pub open spec fn holds<K, V>(entries: Seq<(K, V)>, key: K) -> bool {
    exists|i: int| 0 <= i < entries.len() && (#[trigger] entries[i]).0 == key
}

/// An index at which `entries` has the key `key`, if there is one.
pub open spec fn slot<K, V>(entries: Seq<(K, V)>, key: K) -> int {
    choose|i: int| 0 <= i < entries.len() && (#[trigger] entries[i]).0 == key
}

/// Whether no key occurs twice in `entries`.
pub open spec fn distinct_keys<K, V>(entries: Seq<(K, V)>) -> bool {
    forall|i: int, j: int|
        0 <= i < j < entries.len() ==> (#[trigger] entries[i]).0 != (#[trigger] entries[j]).0
}

/// The map that `entries` stand for.
pub open spec fn as_map<K, V>(entries: Seq<(K, V)>) -> Map<K, V> {
    Map::new(|k: K| holds(entries, k), |k: K| entries[slot(entries, k)].1)
}

/// The map that `entries` build when each is inserted unless an earlier entry
/// has its key: of several entries with one key the first counts.
pub open spec fn built<K, V>(entries: Seq<(K, V)>) -> Map<K, V>
    decreases entries.len(),
{
    if entries.len() == 0 {
        Map::empty()
    } else {
        built(entries.drop_first()).insert(entries.first().0, entries.first().1)
    }
}

/// A map from keys to values.
pub struct Store<K, V> {
    entries: Vec<(K, V)>,
}

impl<K, V> View for Store<K, V> {
    type V = Map<K, V>;

    closed spec fn view(&self) -> Map<K, V> {
        as_map(self.entries@)
    }
}

impl<K: Key, V> Store<K, V> {
    /// The store's invariant: no key has two entries.
    pub closed spec fn wf(&self) -> bool {
        distinct_keys(self.entries@)
    }

    /// The empty store.
    pub fn new() -> (store: Self)
        ensures
            store.wf(),
            store@ == Map::<K, V>::empty(),
    {
        let store = Store { entries: Vec::new() };
        assert(store@ =~= Map::<K, V>::empty());
        store
    }

    /// The store that `entries` build; of several entries with one key the
    /// first counts.
    pub fn from_entries(entries: Vec<(K, V)>) -> (store: Self)
        ensures
            store.wf(),
            store@ == built(entries@),
    {
        let ghost all = entries@;
        let mut entries = entries;
        let mut store = Store::new();
        assert(all.subrange(all.len() as int, all.len() as int) =~= Seq::empty());
        while entries.len() > 0
            invariant
                store.wf(),
                entries@.len() <= all.len(),
                entries@ == all.subrange(0, entries@.len() as int),
                store@ == built(all.subrange(entries@.len() as int, all.len() as int)),
            decreases entries@.len(),
        {
            let ghost rest = entries@.len() as int;
            match entries.pop() {
                Some(entry) => {
                    store.insert(entry.0, entry.1);
                    proof {
                        let tail = all.subrange(rest - 1, all.len() as int);
                        assert(tail.first() == entry);
                        assert(tail.drop_first() =~= all.subrange(rest, all.len() as int));
                        assert(entries@ =~= all.subrange(0, rest - 1));
                    }
                },
                None => {},
            }
        }
        assert(all.subrange(0, all.len() as int) =~= all);
        store
    }

    /// The entries of the store, one for each key, in no particular order.
    pub fn into_entries(self) -> (entries: Vec<(K, V)>)
        requires
            self.wf(),
        ensures
            distinct_keys(entries@),
            built(entries@) == self@,
    {
        proof {
            lemma_built_is_as_map(self.entries@);
        }
        self.entries
    }

    /// The index of the entry for `key`, if the store has one.
    fn position(&self, key: &K) -> (found: Option<usize>)
        ensures
            match found {
                Some(i) => i < self.entries@.len() && self.entries@[i as int].0 == *key,
                None => !holds(self.entries@, *key),
            },
    {
        let mut i: usize = 0;
        while i < self.entries.len()
            invariant
                i <= self.entries@.len(),
                forall|j: int| 0 <= j < i ==> (#[trigger] self.entries@[j]).0 != *key,
            decreases self.entries@.len() - i,
        {
            if self.entries[i].0.key_eq(key) {
                return Some(i);
            }
            i = i + 1;
        }
        None
    }

    /// Whether the store has a value for `key`.
    pub fn contains(&self, key: &K) -> (present: bool)
        requires
            self.wf(),
        ensures
            present == self@.contains_key(*key),
    {
        self.position(key).is_some()
    }

    /// The value stored for `key`, if there is one.
    pub fn get(&self, key: &K) -> (value: Option<&V>)
        requires
            self.wf(),
        ensures
            match value {
                Some(v) => self@.contains_key(*key) && *v == self@[*key],
                None => !self@.contains_key(*key),
            },
    {
        match self.position(key) {
            Some(i) => {
                assert(slot(self.entries@, *key) == i);
                Some(&self.entries[i].1)
            },
            None => None,
        }
    }

    /// Stores `value` for `key`, in place of any value stored for it before.
    pub fn insert(&mut self, key: K, value: V)
        requires
            old(self).wf(),
        ensures
            final(self).wf(),
            final(self)@ == old(self)@.insert(key, value),
    {
        let ghost before = self.entries@;
        match self.position(&key) {
            Some(i) => {
                self.entries[i] = (key, value);
                proof {
                    lemma_update_is_insert(before, i as int, key, value);
                }
            },
            None => {
                self.entries.push((key, value));
                proof {
                    lemma_push_is_insert(before, key, value);
                }
            },
        }
    }

    /// Takes the value stored for `key` out of the store, if there is one.
    pub fn remove(&mut self, key: &K) -> (value: Option<V>)
        requires
            old(self).wf(),
        ensures
            final(self).wf(),
            final(self)@ == old(self)@.remove(*key),
            value == if old(self)@.contains_key(*key) {
                Some(old(self)@[*key])
            } else {
                None
            },
    {
        let ghost before = self.entries@;
        match self.position(key) {
            Some(i) => {
                let entry = self.entries.swap_remove(i);
                proof {
                    lemma_swap_remove_is_remove(before, i as int);
                }
                Some(entry.1)
            },
            None => {
                assert(self@ =~= old(self)@.remove(*key));
                None
            },
        }
    }
}

/// In a sequence without repeated keys, the entry for a key is found at the
/// one index that holds it.
pub proof fn lemma_slot_is_unique<K, V>(entries: Seq<(K, V)>, i: int)
    requires
        distinct_keys(entries),
        0 <= i < entries.len(),
    ensures
        holds(entries, entries[i].0),
        slot(entries, entries[i].0) == i,
{
    let key = entries[i].0;
    let j = slot(entries, key);
    assert(0 <= j < entries.len() && entries[j].0 == key);
    if j < i {
        assert(entries[j].0 != entries[i].0);
    } else if i < j {
        assert(entries[i].0 != entries[j].0);
    }
}

/// Overwriting the entry of a key is an insertion into the map.
pub proof fn lemma_update_is_insert<K, V>(entries: Seq<(K, V)>, i: int, key: K, value: V)
    requires
        distinct_keys(entries),
        0 <= i < entries.len(),
        entries[i].0 == key,
    ensures
        distinct_keys(entries.update(i, (key, value))),
        as_map(entries.update(i, (key, value))) == as_map(entries).insert(key, value),
{
    let after = entries.update(i, (key, value));
    assert(distinct_keys(after)) by {
        assert forall|a: int, b: int| 0 <= a < b < after.len() implies (#[trigger] after[a]).0 != (
        #[trigger] after[b]).0 by {
            assert(after[a].0 == entries[a].0);
            assert(after[b].0 == entries[b].0);
        }
    }
    assert forall|k: K| holds(after, k) <==> (k == key || holds(entries, k)) by {
        if holds(after, k) {
            let j = slot(after, k);
            assert(entries[j].0 == k);
        }
        if holds(entries, k) {
            let j = slot(entries, k);
            assert(after[j].0 == k);
        }
        if k == key {
            assert(after[i].0 == k);
        }
    }
    assert forall|k: K| holds(after, k) implies as_map(after)[k] == as_map(entries).insert(
        key,
        value,
    )[k] by {
        let j = slot(after, k);
        lemma_slot_is_unique(after, j);
        if k != key {
            assert(entries[j].0 == k);
            lemma_slot_is_unique(entries, j);
        } else {
            lemma_slot_is_unique(after, i);
        }
    }
    assert(as_map(after) =~= as_map(entries).insert(key, value));
}

/// Appending an entry for a key that is not yet held is an insertion into the map.
pub proof fn lemma_push_is_insert<K, V>(entries: Seq<(K, V)>, key: K, value: V)
    requires
        distinct_keys(entries),
        !holds(entries, key),
    ensures
        distinct_keys(entries.push((key, value))),
        as_map(entries.push((key, value))) == as_map(entries).insert(key, value),
{
    let after = entries.push((key, value));
    let last = entries.len() as int;
    assert(distinct_keys(after)) by {
        assert forall|a: int, b: int| 0 <= a < b < after.len() implies (#[trigger] after[a]).0 != (
        #[trigger] after[b]).0 by {
            assert(after[a] == entries[a]);
            if b < last {
                assert(after[b] == entries[b]);
            }
        }
    }
    assert forall|k: K| holds(after, k) <==> (k == key || holds(entries, k)) by {
        if holds(after, k) {
            let j = slot(after, k);
            if j < last {
                assert(entries[j].0 == k);
            }
        }
        if holds(entries, k) {
            let j = slot(entries, k);
            assert(after[j].0 == k);
        }
        if k == key {
            assert(after[last].0 == k);
        }
    }
    assert forall|k: K| holds(after, k) implies as_map(after)[k] == as_map(entries).insert(
        key,
        value,
    )[k] by {
        let j = slot(after, k);
        lemma_slot_is_unique(after, j);
        if k != key {
            assert(j < last);
            assert(entries[j].0 == k);
            lemma_slot_is_unique(entries, j);
        } else {
            lemma_slot_is_unique(after, last);
        }
    }
    assert(as_map(after) =~= as_map(entries).insert(key, value));
}

/// Putting an entry before others that lack its key is an insertion into the map.
pub proof fn lemma_prepend_is_insert<K, V>(entries: Seq<(K, V)>)
    requires
        distinct_keys(entries),
        entries.len() > 0,
    ensures
        distinct_keys(entries.drop_first()),
        as_map(entries) == as_map(entries.drop_first()).insert(
            entries.first().0,
            entries.first().1,
        ),
{
    let rest = entries.drop_first();
    let key = entries.first().0;
    assert(distinct_keys(rest)) by {
        assert forall|a: int, b: int| 0 <= a < b < rest.len() implies (#[trigger] rest[a]).0 != (
        #[trigger] rest[b]).0 by {
            assert(rest[a] == entries[a + 1]);
            assert(rest[b] == entries[b + 1]);
        }
    }
    assert forall|k: K| holds(entries, k) <==> (k == key || holds(rest, k)) by {
        if holds(entries, k) {
            let j = slot(entries, k);
            if j > 0 {
                assert(rest[j - 1].0 == k);
            }
        }
        if holds(rest, k) {
            let j = slot(rest, k);
            assert(entries[j + 1].0 == k);
        }
        if k == key {
            assert(entries[0].0 == k);
        }
    }
    assert forall|k: K| holds(entries, k) implies as_map(entries)[k] == as_map(rest).insert(
        key,
        entries.first().1,
    )[k] by {
        let j = slot(entries, k);
        lemma_slot_is_unique(entries, j);
        if k != key {
            assert(j > 0);
            assert(rest[j - 1] == entries[j]);
            lemma_slot_is_unique(rest, j - 1);
        } else {
            lemma_slot_is_unique(entries, 0);
        }
    }
    assert(as_map(entries) =~= as_map(rest).insert(key, entries.first().1));
}

/// Entries without repeated keys build the map that they stand for.
pub proof fn lemma_built_is_as_map<K, V>(entries: Seq<(K, V)>)
    requires
        distinct_keys(entries),
    ensures
        built(entries) == as_map(entries),
    decreases entries.len(),
{
    if entries.len() == 0 {
        assert(as_map(entries) =~= Map::<K, V>::empty());
    } else {
        lemma_prepend_is_insert(entries);
        lemma_built_is_as_map(entries.drop_first());
    }
}

/// Every value of the map that entries build is the value of one of them.
pub proof fn lemma_built_values<K, V>(entries: Seq<(K, V)>, key: K)
    requires
        built(entries).contains_key(key),
    ensures
        exists|i: int|
            0 <= i < entries.len() && #[trigger] entries[i] == (key, built(entries)[key]),
    decreases entries.len(),
{
    if entries.len() > 0 {
        if entries.first().0 == key {
            assert(entries[0] == (key, built(entries)[key]));
        } else {
            lemma_built_values(entries.drop_first(), key);
            let i = choose|i: int|
                0 <= i < entries.drop_first().len() && #[trigger] entries.drop_first()[i] == (
                    key,
                    built(entries.drop_first())[key],
                );
            assert(entries[i + 1] == entries.drop_first()[i]);
        }
    }
}

/// Moving the last entry into the place of another removes that other entry's
/// key from the map.
pub proof fn lemma_swap_remove_is_remove<K, V>(entries: Seq<(K, V)>, i: int)
    requires
        distinct_keys(entries),
        0 <= i < entries.len(),
    ensures
        distinct_keys(entries.update(i, entries.last()).drop_last()),
        as_map(entries.update(i, entries.last()).drop_last()) == as_map(entries).remove(
            entries[i].0,
        ),
        as_map(entries).contains_key(entries[i].0),
        as_map(entries)[entries[i].0] == entries[i].1,
{
    let key = entries[i].0;
    let last = entries.len() - 1;
    let after = entries.update(i, entries.last()).drop_last();
    lemma_slot_is_unique(entries, i);
    // Each entry of `after` is an entry of `entries` other than the one removed.
    assert forall|a: int| 0 <= a < after.len() implies #[trigger] after[a] == entries[if a == i {
        last
    } else {
        a
    }] by {}
    assert(distinct_keys(after)) by {
        assert forall|a: int, b: int| 0 <= a < b < after.len() implies (#[trigger] after[a]).0 != (
        #[trigger] after[b]).0 by {
            let a0 = if a == i { last } else { a };
            let b0 = if b == i { last } else { b };
            assert(after[a] == entries[a0]);
            assert(after[b] == entries[b0]);
            if a0 < b0 {
                assert(entries[a0].0 != entries[b0].0);
            } else {
                assert(entries[b0].0 != entries[a0].0);
            }
        }
    }
    assert forall|k: K| holds(after, k) <==> (k != key && holds(entries, k)) by {
        if holds(after, k) {
            let j = slot(after, k);
            let j0 = if j == i { last } else { j };
            assert(after[j] == entries[j0]);
            assert(entries[j0].0 == k);
            if j0 < i {
                assert(entries[j0].0 != entries[i].0);
            } else {
                assert(entries[i].0 != entries[j0].0);
            }
        }
        if k != key && holds(entries, k) {
            let j = slot(entries, k);
            let j1 = if j == last { i } else { j };
            assert(after[j1].0 == k);
        }
    }
    assert forall|k: K| holds(after, k) implies as_map(after)[k] == as_map(entries)[k] by {
        let j = slot(after, k);
        let j0 = if j == i { last } else { j };
        lemma_slot_is_unique(after, j);
        assert(after[j] == entries[j0]);
        lemma_slot_is_unique(entries, j0);
    }
    assert(as_map(after) =~= as_map(entries).remove(key));
}

} // verus!
