//! Small tables kept as vectors of (key, value) pairs in the order in which
//! the keys first came in. A key is looked up by its view; the first pair
//! with that key counts.

use vstd::prelude::*;
use vstd::string::*;
use crate::text::str_eq;
use crate::types::TypeId;

verus! {

/// A type that can serve as a key: it is compared by its view, and can be
/// probed for through a borrowed form.
pub trait TableKey: View + Sized {
    /// What a lookup is given in place of an owned key.
    type Probe: View<V = Self::V> + ?Sized;

    /// Does this key have the same view as `probe`?
    fn matches(&self, probe: &Self::Probe) -> (b: bool)
        ensures
            b == (self@ == probe@),
    ;

    /// This key as a probe.
    fn as_probe(&self) -> (p: &Self::Probe)
        ensures
            p@ == self@,
    ;
}

impl TableKey for String {
    type Probe = str;

    fn matches(&self, probe: &str) -> (b: bool) {
        str_eq(self.as_str(), probe)
    }

    fn as_probe(&self) -> (p: &str) {
        self.as_str()
    }
}

impl TableKey for u64 {
    type Probe = u64;

    fn matches(&self, probe: &u64) -> (b: bool) {
        *self == *probe
    }

    fn as_probe(&self) -> (p: &u64) {
        self
    }
}

impl TableKey for TypeId {
    type Probe = TypeId;

    fn matches(&self, probe: &TypeId) -> (b: bool) {
        self.code == probe.code
    }

    fn as_probe(&self) -> (p: &TypeId) {
        self
    }
}

/// The table that a vector of pairs stands for: keys by their views.
pub open spec fn model_of<K: View, V>(entries: Seq<(K, V)>) -> Seq<(K::V, V)> {
    Seq::new(entries.len(), |i: int| (entries[i].0@, entries[i].1))
}

/// Is there a pair with key `key`?
pub open spec fn has_key<A, V>(table: Seq<(A, V)>, key: A) -> bool {
    exists|i: int| 0 <= i < table.len() && (#[trigger] table[i]).0 == key
}

/// The place of the first pair with key `key`; the table's length if there
/// is none.
pub open spec fn slot<A, V>(table: Seq<(A, V)>, key: A) -> int
    decreases table.len(),
{
    if table.len() == 0 {
        0
    } else if table[0].0 == key {
        0
    } else {
        1 + slot(table.drop_first(), key)
    }
}

/// The value that the table holds for `key`.
pub open spec fn get<A, V>(table: Seq<(A, V)>, key: A) -> Option<V> {
    if has_key(table, key) {
        Some(table[slot(table, key)].1)
    } else {
        None
    }
}

/// The table after `key` is set to `value`: the value is replaced where the
/// key is there already, and the pair comes last where it is not.
pub open spec fn put<A, V>(table: Seq<(A, V)>, key: A, value: V) -> Seq<(A, V)> {
    if has_key(table, key) {
        table.update(slot(table, key), (key, value))
    } else {
        table.push((key, value))
    }
}

/// No key occurs twice.
pub open spec fn unique<A, V>(table: Seq<(A, V)>) -> bool {
    forall|i: int, j: int|
        0 <= i < j < table.len() ==> (#[trigger] table[i]).0 != (#[trigger] table[j]).0
}

/// `slot` is within the table exactly when the key is there; it is the
/// first place with that key.
pub proof fn lemma_slot<A, V>(table: Seq<(A, V)>, key: A)
    ensures
        0 <= slot(table, key) <= table.len(),
        has_key(table, key) <==> slot(table, key) < table.len(),
        has_key(table, key) ==> table[slot(table, key)].0 == key,
        forall|j: int| 0 <= j < slot(table, key) ==> (#[trigger] table[j]).0 != key,
    decreases table.len(),
{
    if table.len() == 0 {
    } else if table[0].0 == key {
    } else {
        let rest = table.drop_first();
        lemma_slot(rest, key);
        if has_key(rest, key) {
            let i = choose|i: int| 0 <= i < rest.len() && (#[trigger] rest[i]).0 == key;
            assert(table[i + 1].0 == key);
        }
        if has_key(table, key) {
            let i = choose|i: int| 0 <= i < table.len() && (#[trigger] table[i]).0 == key;
            assert(rest[i - 1].0 == key);
        }
        assert forall|j: int| 0 <= j < slot(table, key) implies (#[trigger] table[j]).0 != key by {
            if j > 0 {
                assert(rest[j - 1].0 != key);
            }
        }
    }
}

/// The first place with key `key` is `slot`.
pub proof fn lemma_slot_is<A, V>(table: Seq<(A, V)>, key: A, i: int)
    requires
        0 <= i < table.len(),
        table[i].0 == key,
        forall|j: int| 0 <= j < i ==> (#[trigger] table[j]).0 != key,
    ensures
        slot(table, key) == i,
        has_key(table, key),
{
    lemma_slot(table, key);
    let s = slot(table, key);
    if s < i {
        assert(table[s].0 != key);
    }
}

/// What was put is what is got.
pub proof fn lemma_get_put_same<A, V>(table: Seq<(A, V)>, key: A, value: V)
    ensures
        get(put(table, key, value), key) == Some(value),
        has_key(put(table, key, value), key),
{
    lemma_slot(table, key);
    let after = put(table, key, value);
    let s = slot(table, key);
    assert(after[s] == (key, value));
    assert forall|j: int| 0 <= j < s implies (#[trigger] after[j]).0 != key by {
        assert(table[j].0 != key);
    }
    lemma_slot_is(after, key, s);
}

/// Putting one key leaves every other key as it was.
pub proof fn lemma_get_put_other<A, V>(table: Seq<(A, V)>, key: A, value: V, other: A)
    requires
        other != key,
    ensures
        get(put(table, key, value), other) == get(table, other),
        has_key(put(table, key, value), other) == has_key(table, other),
{
    lemma_slot(table, key);
    lemma_slot(table, other);
    let after = put(table, key, value);
    let s = slot(table, other);
    if has_key(table, other) {
        assert(after[s] == table[s]);
        assert forall|j: int| 0 <= j < s implies (#[trigger] after[j]).0 != other by {
            assert(table[j].0 != other);
        }
        lemma_slot_is(after, other, s);
    } else {
        if has_key(after, other) {
            let i = choose|i: int| 0 <= i < after.len() && (#[trigger] after[i]).0 == other;
            if i < table.len() {
                assert(table[i].0 == other);
            }
        }
    }
}

/// Putting keeps the keys distinct.
pub proof fn lemma_put_unique<A, V>(table: Seq<(A, V)>, key: A, value: V)
    requires
        unique(table),
    ensures
        unique(put(table, key, value)),
{
    lemma_slot(table, key);
    let after = put(table, key, value);
    assert forall|i: int, j: int| 0 <= i < j < after.len() implies (#[trigger] after[i]).0 != (
    #[trigger] after[j]).0 by {
        if has_key(table, key) {
            assert(after[i].0 == table[i].0);
            assert(after[j].0 == table[j].0);
        } else {
            if j < table.len() {
                assert(after[i] == table[i]);
                assert(after[j] == table[j]);
            } else {
                assert(after[i] == table[i]);
            }
        }
    }
}

/// The table with `f` applied to each value; keys and order stay.
pub open spec fn map_table<A, V, W>(table: Seq<(A, V)>, f: spec_fn(V) -> W) -> Seq<(A, W)> {
    Seq::new(table.len(), |i: int| (table[i].0, f(table[i].1)))
}

/// Applying a function to the values moves no key.
pub proof fn lemma_map_table_keys<A, V, W>(table: Seq<(A, V)>, f: spec_fn(V) -> W, key: A)
    ensures
        has_key(map_table(table, f), key) == has_key(table, key),
        slot(map_table(table, f), key) == slot(table, key),
        get(map_table(table, f), key) == match get(table, key) {
            Some(v) => Some(f(v)),
            None => None,
        },
{
    let mapped = map_table(table, f);
    lemma_slot(table, key);
    lemma_slot(mapped, key);
    let s = slot(table, key);
    if has_key(table, key) {
        assert(mapped[s].0 == key);
        assert forall|j: int| 0 <= j < s implies (#[trigger] mapped[j]).0 != key by {
            assert(table[j].0 != key);
        }
        lemma_slot_is(mapped, key, s);
    } else {
        if has_key(mapped, key) {
            let i = choose|i: int| 0 <= i < mapped.len() && (#[trigger] mapped[i]).0 == key;
            assert(table[i].0 == key);
        }
    }
}

/// Putting a value and then applying a function to the values is applying
/// the function and then putting the value it gives.
pub proof fn lemma_map_table_put<A, V, W>(table: Seq<(A, V)>, f: spec_fn(V) -> W, key: A, value: V)
    ensures
        map_table(put(table, key, value), f) == put(map_table(table, f), key, f(value)),
{
    lemma_map_table_keys(table, f, key);
    lemma_slot(table, key);
    assert(map_table(put(table, key, value), f) =~= put(map_table(table, f), key, f(value)));
}

/// Finds the first pair whose key matches `probe`.
pub fn find<K: TableKey, V>(entries: &Vec<(K, V)>, probe: &K::Probe) -> (r: Option<usize>)
    ensures
        r is Some <==> has_key(model_of(entries@), probe@),
        r is Some ==> r.unwrap() == slot(model_of(entries@), probe@) && r.unwrap() < entries@.len(),
{
    let ghost table = model_of(entries@);
    let mut i: usize = 0;
    while i < entries.len()
        invariant
            i <= entries@.len(),
            table == model_of(entries@),
            forall|j: int| 0 <= j < i ==> (#[trigger] table[j]).0 != probe@,
        decreases entries@.len() - i,
    {
        if entries[i].0.matches(probe) {
            proof {
                lemma_slot_is(table, probe@, i as int);
            }
            return Some(i);
        }
        i += 1;
    }
    proof {
        lemma_slot(table, probe@);
    }
    None
}

/// The value held for `probe`, if there is one.
pub fn lookup<'a, K: TableKey, V>(entries: &'a Vec<(K, V)>, probe: &K::Probe) -> (r: Option<&'a V>)
    ensures
        r == match get(model_of(entries@), probe@) {
            Some(v) => Some(&v),
            None => None,
        },
{
    match find(entries, probe) {
        Some(i) => Some(&entries[i].1),
        None => None,
    }
}

/// The value held for `probe`, to be changed in place.
pub fn lookup_mut<'a, K: TableKey, V>(entries: &'a mut Vec<(K, V)>, probe: &K::Probe) -> (r:
    Option<&'a mut V>)
    ensures
        match r {
            Some(v) => {
                let i = slot(model_of(old(entries)@), probe@);
                &&& has_key(model_of(old(entries)@), probe@)
                &&& 0 <= i < old(entries)@.len()
                &&& *v == old(entries)@[i].1
                &&& final(entries)@ == old(entries)@.update(i, (old(entries)@[i].0, *final(v)))
            },
            None => !has_key(model_of(old(entries)@), probe@) && *final(entries) == *old(entries),
        },
{
    match find(entries, probe) {
        Some(i) => Some(&mut entries[i].1),
        None => None,
    }
}

/// Sets `key` to `value`: replaces the value of the first pair with that key,
/// or adds the pair at the end.
pub fn insert<K: TableKey, V>(entries: &mut Vec<(K, V)>, key: K, value: V)
    ensures
        model_of(final(entries)@) == put(model_of(old(entries)@), key@, value),
        has_key(model_of(old(entries)@), key@) ==> final(entries)@ == old(entries)@.update(
            slot(model_of(old(entries)@), key@),
            (old(entries)@[slot(model_of(old(entries)@), key@)].0, value),
        ),
        !has_key(model_of(old(entries)@), key@) ==> final(entries)@ == old(entries)@.push((key, value)),
{
    let found = find(entries, key.as_probe());
    match found {
        Some(i) => {
            entries[i].1 = value;
            proof {
                lemma_slot(model_of(old(entries)@), key@);
                assert(entries@ =~= old(entries)@.update(
                    i as int,
                    (old(entries)@[i as int].0, value),
                ));
                assert(model_of(entries@) =~= put(model_of(old(entries)@), key@, value));
            }
        },
        None => {
            entries.push((key, value));
            proof {
                assert(model_of(entries@) =~= put(model_of(old(entries)@), key@, value));
            }
        },
    }
}

} // verus!
