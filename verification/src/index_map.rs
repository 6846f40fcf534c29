//! A map from pool positions to values that remembers the order in which its
//! keys arrived. The entries lie densely in a vector; an integer hash map
//! finds the place of a key in it.
use vstd::prelude::*;
use intmap::IntMap;
use crate::pool::PoolIndex;

verus! {

/// `intmap::IntMap`, a hash map with 64-bit keys.
#[verifier::external_type_specification]
#[verifier::external_body]
#[verifier::reject_recursive_types(V)]
pub struct ExIntMap<V>(IntMap<V>);

/// The key-value pairs that an `IntMap` holds.
pub uninterp spec fn slots(m: IntMap<usize>) -> Map<u64, usize>;

/// `IntMap::new`: the new map holds nothing.
#[verifier::external_body]
fn int_map_new() -> (r: IntMap<usize>)
    ensures
        slots(r) =~= Map::empty(),
{
    IntMap::new()
}

/// `IntMap::with_capacity`: the new map holds nothing. The bound keeps the
/// doubling of its table inside the range of `usize`.
#[verifier::external_body]
fn int_map_with_capacity(capacity: usize) -> (r: IntMap<usize>)
    requires
        capacity <= 0x4000_0000,
    ensures
        slots(r) =~= Map::empty(),
{
    IntMap::with_capacity(capacity)
}

/// `IntMap::get`: the value stored under `key`, if there is one.
#[verifier::external_body]
fn int_map_get(m: &IntMap<usize>, key: u64) -> (r: Option<usize>)
    ensures
        r == (if slots(*m).contains_key(key) {
            Some(slots(*m)[key])
        } else {
            None
        }),
{
    m.get(key).copied()
}

/// `IntMap::insert`: stores `value` under `key` unless the key is already
/// there, and tells whether it did. The bound keeps its load computation,
/// which multiplies the number of entries by 1000, inside the range of
/// `usize`.
#[verifier::external_body]
fn int_map_insert(m: &mut IntMap<usize>, key: u64, value: usize) -> (r: bool)
    requires
        slots(*old(m)).dom().finite(),
        slots(*old(m)).dom().len() * 1000 + 1000 <= usize::MAX,
    ensures
        r == !slots(*old(m)).contains_key(key),
        slots(*final(m)) == (if r {
            slots(*old(m)).insert(key, value)
        } else {
            slots(*old(m))
        }),
{
    m.insert(key, value)
}

/// Whether some entry of `entries` has the key `key`.
pub open spec fn has_key<V>(entries: Seq<(u32, V)>, key: u32) -> bool {
    exists|i: int| 0 <= i < entries.len() && (#[trigger] entries[i]).0 == key
}

/// The position of the first entry with the key `key`.
pub open spec fn position_of<V>(entries: Seq<(u32, V)>, key: u32) -> int {
    choose|i: int|
        0 <= i < entries.len() && (#[trigger] entries[i]).0 == key && forall|j: int|
            0 <= j < i ==> (#[trigger] entries[j]).0 != key
}

/// The value of the first entry with the key `key`, if there is one.
pub open spec fn lookup<V>(entries: Seq<(u32, V)>, key: u32) -> Option<V> {
    if has_key(entries, key) {
        Some(entries[position_of(entries, key)].1)
    } else {
        None
    }
}

/// Whether no two entries share a key.
pub open spec fn distinct_keys<V>(entries: Seq<(u32, V)>) -> bool {
    forall|i: int, j: int|
        0 <= i < entries.len() && 0 <= j < entries.len() && i != j ==> (#[trigger] entries[i]).0
            != (#[trigger] entries[j]).0
}

/// `entries` with the value under `key` replaced by `value`; unchanged where
/// the key is missing.
pub open spec fn replaced<V>(entries: Seq<(u32, V)>, key: u32, value: V) -> Seq<(u32, V)> {
    if has_key(entries, key) {
        entries.update(position_of(entries, key), (key, value))
    } else {
        entries
    }
}

/// `entries` with `(key, value)` added at the end; unchanged where the key is
/// already there.
pub open spec fn inserted<V>(entries: Seq<(u32, V)>, key: u32, value: V) -> Seq<(u32, V)> {
    if has_key(entries, key) {
        entries
    } else {
        entries.push((key, value))
    }
}

/// What `entries` are after `(key, value)` was offered to a map that holds
/// them: the entry is added at the end unless the key is there or the map is
/// full. A map is full at a number of entries that only a machine with
/// 64-bit addresses can hold.
pub open spec fn stored<V>(entries: Seq<(u32, V)>, key: u32, value: V) -> Seq<(u32, V)> {
    if !has_key(entries, key) && entries.len() < usize::MAX / 1000 - 1 {
        entries.push((key, value))
    } else {
        entries
    }
}

/// With distinct keys, an entry that has the key is the one that
/// `position_of` names.
pub proof fn lemma_position_of<V>(entries: Seq<(u32, V)>, key: u32, i: int)
    requires
        0 <= i < entries.len(),
        entries[i].0 == key,
        distinct_keys(entries),
    ensures
        has_key(entries, key),
        position_of(entries, key) == i,
        lookup(entries, key) == Some(entries[i].1),
{
    assert forall|j: int| 0 <= j < i implies (#[trigger] entries[j]).0 != key by {}
    let p = position_of(entries, key);
    if p != i {
        assert(entries[p].0 != entries[i].0);
    }
}

/// Replacing a value keeps the keys where they are.
pub proof fn lemma_replaced<V>(entries: Seq<(u32, V)>, key: u32, value: V)
    requires
        distinct_keys(entries),
    ensures
        distinct_keys(replaced(entries, key, value)),
        replaced(entries, key, value).len() == entries.len(),
        forall|k: u32| has_key(replaced(entries, key, value), k) == has_key(entries, k),
        has_key(entries, key) ==> lookup(replaced(entries, key, value), key) == Some(value),
        forall|k: u32|
            k != key ==> lookup(replaced(entries, key, value), k) == lookup(entries, k),
{
    let after = replaced(entries, key, value);
    if has_key(entries, key) {
        let p = position_of(entries, key);
        assert forall|i: int| 0 <= i < entries.len() implies (#[trigger] after[i]).0
            == entries[i].0 by {}
        assert forall|k: u32| has_key(after, k) == has_key(entries, k) by {
            if has_key(entries, k) {
                let i = choose|i: int| 0 <= i < entries.len() && (#[trigger] entries[i]).0 == k;
                assert(after[i].0 == k);
            }
            if has_key(after, k) {
                let i = choose|i: int| 0 <= i < after.len() && (#[trigger] after[i]).0 == k;
                assert(entries[i].0 == k);
            }
        }
        lemma_position_of(after, key, p);
        assert forall|k: u32| k != key implies lookup(after, k) == lookup(entries, k) by {
            if has_key(entries, k) {
                let i = position_of(entries, k);
                lemma_position_of(entries, k, i);
                assert(after[i] == entries[i]);
                lemma_position_of(after, k, i);
            }
        }
    }
}

/// Adding an entry under a new key keeps what the other keys hold.
pub proof fn lemma_inserted<V>(entries: Seq<(u32, V)>, key: u32, value: V)
    requires
        distinct_keys(entries),
    ensures
        distinct_keys(inserted(entries, key, value)),
        has_key(inserted(entries, key, value), key),
        !has_key(entries, key) ==> lookup(inserted(entries, key, value), key) == Some(value),
        has_key(entries, key) ==> inserted(entries, key, value) == entries,
        forall|k: u32|
            k != key ==> has_key(inserted(entries, key, value), k) == has_key(entries, k),
        forall|k: u32|
            k != key ==> lookup(inserted(entries, key, value), k) == lookup(entries, k),
{
    let after = inserted(entries, key, value);
    if !has_key(entries, key) {
        let n = entries.len() as int;
        assert(after[n] == (key, value));
        assert forall|i: int| 0 <= i < n implies (#[trigger] after[i]) == entries[i] by {}
        assert forall|i: int, j: int|
            0 <= i < after.len() && 0 <= j < after.len() && i != j implies (#[trigger] after[i]).0
            != (#[trigger] after[j]).0 by {
            if i < n && j < n {
            } else if i < n {
                assert(entries[i].0 != key);
            } else {
                assert(entries[j].0 != key);
            }
        }
        lemma_position_of(after, key, n);
        assert forall|k: u32| k != key implies has_key(after, k) == has_key(entries, k) by {
            if has_key(entries, k) {
                let i = choose|i: int| 0 <= i < entries.len() && (#[trigger] entries[i]).0 == k;
                assert(after[i].0 == k);
            }
            if has_key(after, k) {
                let i = choose|i: int| 0 <= i < after.len() && (#[trigger] after[i]).0 == k;
                assert(i < n);
                assert(entries[i].0 == k);
            }
        }
        assert forall|k: u32| k != key implies lookup(after, k) == lookup(entries, k) by {
            if has_key(entries, k) {
                let i = position_of(entries, k);
                lemma_position_of(entries, k, i);
                lemma_position_of(after, k, i);
            }
        }
    }
}

/// Whether `index` maps the key of each entry to the entry's place, and
/// nothing else.
pub closed spec fn consistent_with<V>(index: IntMap<usize>, entries: Seq<(u32, V)>) -> bool {
    &&& forall|i: int|
        0 <= i < entries.len() ==> slots(index).contains_key((#[trigger] entries[i]).0 as u64)
            && slots(index)[entries[i].0 as u64] == i
    &&& forall|k: u64| #[trigger]
        slots(index).contains_key(k) ==> slots(index)[k] < entries.len() && entries[slots(
            index,
        )[k] as int].0 as u64 == k
}

/// A map from pool positions to values of type `V`.
pub struct IndexMap<V> {
    index: IntMap<usize>,
    entries: Vec<(u32, V)>,
}

impl<V> View for IndexMap<V> {
    type V = Seq<(u32, V)>;

    /// The entries in the order in which their keys arrived.
    closed spec fn view(&self) -> Seq<(u32, V)> {
        self.entries@
    }
}

impl<V> IndexMap<V> {
    /// The most entries that a map takes.
    pub open spec fn spec_limit() -> int {
        usize::MAX / 1000 - 1
    }

    /// The index knows exactly the keys of the entries, each with its place.
    pub closed spec fn wf(&self) -> bool {
        &&& distinct_keys(self.entries@)
        &&& slots(self.index).dom().finite()
        &&& slots(self.index).dom().len() == self.entries@.len()
        &&& self.entries@.len() <= Self::spec_limit()
        &&& consistent_with(self.index, self.entries@)
    }

    pub proof fn lemma_wf(&self)
        requires
            self.wf(),
        ensures
            distinct_keys(self@),
            self@.len() <= Self::spec_limit(),
    {
    }

    pub fn new() -> (r: Self)
        ensures
            r.wf(),
            r@.len() == 0,
    {
        IndexMap { index: int_map_new(), entries: Vec::new() }
    }

    pub fn with_capacity(len: usize) -> (r: Self)
        ensures
            r.wf(),
            r@.len() == 0,
    {
        let bounded = if len <= 0x4000_0000 {
            len
        } else {
            0x4000_0000
        };
        IndexMap { index: int_map_with_capacity(bounded), entries: Vec::with_capacity(bounded) }
    }

    pub fn len(&self) -> (r: usize)
        ensures
            r == self@.len(),
    {
        self.entries.len()
    }

    /// The place of `idx` among the entries.
    fn find(&self, idx: PoolIndex) -> (r: Option<usize>)
        requires
            self.wf(),
        ensures
            r.is_some() == has_key(self@, idx.0),
            r matches Some(i) ==> i < self@.len() && position_of(self@, idx.0) == i
                && self@[i as int].0 == idx.0,
    {
        let found = int_map_get(&self.index, idx.0 as u64);
        proof {
            match found {
                Some(i) => {
                    lemma_position_of(self.entries@, idx.0, i as int);
                },
                None => {
                    if has_key(self.entries@, idx.0) {
                        let i = choose|i: int|
                            0 <= i < self.entries@.len() && (#[trigger] self.entries@[i]).0
                                == idx.0;
                        assert(slots(self.index).contains_key(self.entries@[i].0 as u64));
                    }
                },
            }
        }
        found
    }

    pub fn contains(&self, idx: PoolIndex) -> (r: bool)
        requires
            self.wf(),
        ensures
            r == has_key(self@, idx.0),
    {
        self.find(idx).is_some()
    }

    pub fn get(&self, idx: PoolIndex) -> (r: Option<&V>)
        requires
            self.wf(),
        ensures
            r.is_some() == has_key(self@, idx.0),
            r matches Some(value) ==> lookup(self@, idx.0) == Some(*value) && 0 <= position_of(
                self@,
                idx.0,
            ) < self@.len() && self@[position_of(self@, idx.0)] == (idx.0, *value),
    {
        match self.find(idx) {
            Some(i) => Some(&self.entries[i].1),
            None => None,
        }
    }

    /// Stores `val` under `idx` unless the key is already there or the map
    /// is full, and tells whether it did.
    pub fn put(&mut self, idx: PoolIndex, val: V) -> (r: bool)
        requires
            old(self).wf(),
        ensures
            final(self).wf(),
            r == (!has_key(old(self)@, idx.0) && old(self)@.len() < Self::spec_limit()),
            final(self)@ == stored(old(self)@, idx.0, val),
    {
        let n = self.entries.len();
        if n >= usize::MAX / 1000 - 1 {
            return false;
        }
        let ghost before = slots(self.index);
        let ghost entries = self.entries@;
        let fresh = int_map_insert(&mut self.index, idx.0 as u64, n);
        proof {
            if has_key(entries, idx.0) {
                let i = choose|i: int| 0 <= i < entries.len() && (#[trigger] entries[i]).0 == idx.0;
                assert(before.contains_key(entries[i].0 as u64));
            }
            if before.contains_key(idx.0 as u64) {
                assert(entries[before[idx.0 as u64] as int].0 == idx.0);
            }
        }
        if fresh {
            self.entries.push((idx.0, val));
            proof {
                lemma_inserted(entries, idx.0, val);
                let after = self.entries@;
                assert(after == inserted(entries, idx.0, val));
                assert forall|i: int| 0 <= i < after.len() implies slots(self.index).contains_key(
                    (#[trigger] after[i]).0 as u64,
                ) && slots(self.index)[after[i].0 as u64] == i by {
                    if i < entries.len() {
                        assert(after[i] == entries[i]);
                        assert(before.contains_key(entries[i].0 as u64));
                    }
                }
                assert forall|k: u64| #[trigger]
                    slots(self.index).contains_key(k) implies slots(self.index)[k] < after.len()
                    && after[slots(self.index)[k] as int].0 as u64 == k by {
                    if k != idx.0 as u64 {
                        assert(before.contains_key(k));
                        assert(after[before[k] as int] == entries[before[k] as int]);
                    }
                }
            }
        }
        fresh
    }

    /// Replaces the value under `idx` and tells whether the key was there.
    pub fn set(&mut self, idx: PoolIndex, val: V) -> (r: bool)
        requires
            old(self).wf(),
        ensures
            final(self).wf(),
            r == has_key(old(self)@, idx.0),
            final(self)@ == replaced(old(self)@, idx.0, val),
    {
        match self.find(idx) {
            Some(i) => {
                let ghost entries = self.entries@;
                self.entries[i] = (idx.0, val);
                proof {
                    lemma_replaced(entries, idx.0, val);
                    let after = self.entries@;
                    assert(after == replaced(entries, idx.0, val));
                    assert forall|j: int| 0 <= j < after.len() implies (#[trigger] after[j]).0
                        == entries[j].0 by {}
                    assert forall|j: int| 0 <= j < after.len() implies slots(
                        self.index,
                    ).contains_key((#[trigger] after[j]).0 as u64) && slots(
                        self.index,
                    )[after[j].0 as u64] == j by {
                        assert(after[j].0 == entries[j].0);
                        assert(slots(self.index).contains_key(entries[j].0 as u64));
                    }
                    assert forall|k: u64| #[trigger]
                        slots(self.index).contains_key(k) implies slots(self.index)[k]
                        < after.len() && after[slots(self.index)[k] as int].0 as u64 == k by {
                        assert(after[slots(self.index)[k] as int].0 == entries[slots(
                            self.index,
                        )[k] as int].0);
                    }
                }
                true
            },
            None => false,
        }
    }

    /// The value under `idx`, to read or replace.
    pub fn get_mut(&mut self, idx: PoolIndex) -> (r: Option<&mut V>)
        requires
            old(self).wf(),
        ensures
            final(self).wf(),
            r.is_some() == has_key(old(self)@, idx.0),
            match r {
                Some(value) => lookup(old(self)@, idx.0) == Some(*value) && final(self)@
                    == replaced(old(self)@, idx.0, *final(value)) && 0 <= position_of(
                    old(self)@,
                    idx.0,
                ) < old(self)@.len() && old(self)@[position_of(old(self)@, idx.0)] == (
                    idx.0,
                    *value,
                ),
                None => final(self)@ == old(self)@,
            },
    {
        match self.find(idx) {
            Some(i) => {
                proof {
                    let was = self.entries@;
                    assert forall|value: V|
                        #[trigger] distinct_keys(was.update(i as int, (idx.0, value)))
                            && consistent_with(
                            self.index,
                            was.update(i as int, (idx.0, value)),
                        ) by {
                        let after = was.update(i as int, (idx.0, value));
                        lemma_replaced(was, idx.0, value);
                        assert(after == replaced(was, idx.0, value));
                        assert forall|j: int| 0 <= j < after.len() implies (#[trigger] after[j]).0
                            == was[j].0 by {}
                        assert forall|j: int| 0 <= j < after.len() implies slots(
                            self.index,
                        ).contains_key((#[trigger] after[j]).0 as u64) && slots(
                            self.index,
                        )[after[j].0 as u64] == j by {
                            assert(after[j].0 == was[j].0);
                            assert(slots(self.index).contains_key(was[j].0 as u64));
                        }
                        assert forall|k: u64| #[trigger]
                            slots(self.index).contains_key(k) implies slots(self.index)[k]
                            < after.len() && after[slots(self.index)[k] as int].0 as u64 == k by {
                            assert(after[slots(self.index)[k] as int].0 == was[slots(
                                self.index,
                            )[k] as int].0);
                        }
                    }
                }
                let entry = &mut self.entries[i];
                Some(&mut entry.1)
            },
            None => None,
        }
    }

    /// The key of the `i`-th entry.
    pub fn key_at(&self, i: usize) -> (r: PoolIndex)
        requires
            i < self@.len(),
        ensures
            r.0 == self@[i as int].0,
    {
        PoolIndex(self.entries[i].0)
    }

    /// The value of the `i`-th entry.
    pub fn value_at(&self, i: usize) -> (r: &V)
        requires
            i < self@.len(),
        ensures
            *r == self@[i as int].1,
    {
        &self.entries[i].1
    }
}

impl<V: Copy> IndexMap<V> {
    /// A map of its own with the same entries in the same order.
    pub fn copied(&self) -> (r: Self)
        requires
            self.wf(),
        ensures
            r.wf(),
            r@ == self@,
    {
        let mut copy = IndexMap::with_capacity(self.entries.len());
        let mut i: usize = 0;
        while i < self.entries.len()
            invariant
                self.wf(),
                copy.wf(),
                i <= self.entries@.len(),
                copy@ == self.entries@.take(i as int),
            decreases self.entries@.len() - i,
        {
            let (key, val) = self.entries[i];
            proof {
                if has_key(copy@, key) {
                    let j = choose|j: int| 0 <= j < copy@.len() && (#[trigger] copy@[j]).0 == key;
                    assert(self.entries@[j].0 == self.entries@[i as int].0);
                }
                assert(self.entries@.take(i + 1) =~= self.entries@.take(i as int).push(
                    (key, val),
                ));
            }
            copy.put(PoolIndex(key), val);
            i += 1;
        }
        proof {
            assert(self.entries@.take(i as int) =~= self.entries@);
        }
        copy
    }
}

} // verus!
