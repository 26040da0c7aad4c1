//! Laws of writing pairs into a map one after the other.

use vstd::prelude::*;
use crate::model::write_all;

verus! {

/// A key is in the map after writing exactly when it was there before or a
/// pair with that key was written.
pub proof fn lemma_write_all_keys<V>(map: Map<u64, V>, pairs: Seq<(u64, V)>, key: u64)
    ensures
        write_all(map, pairs).contains_key(key) <==> map.contains_key(key) || exists|i: int|
            0 <= i < pairs.len() && (#[trigger] pairs[i]).0 == key,
    decreases pairs.len(),
{
    if pairs.len() > 0 {
        let before = pairs.drop_last();
        lemma_write_all_keys(map, before, key);
        if exists|i: int| 0 <= i < before.len() && (#[trigger] before[i]).0 == key {
            let i = choose|i: int| 0 <= i < before.len() && (#[trigger] before[i]).0 == key;
            assert(pairs[i].0 == key);
        }
        if exists|i: int| 0 <= i < pairs.len() && (#[trigger] pairs[i]).0 == key {
            let i = choose|i: int| 0 <= i < pairs.len() && (#[trigger] pairs[i]).0 == key;
            if i < before.len() {
                assert(before[i].0 == key);
            }
        }
    }
}

/// After writing, a key that was written holds the value of the last pair
/// with that key: the later writer wins.
pub proof fn lemma_write_all_last_wins<V>(map: Map<u64, V>, pairs: Seq<(u64, V)>, i: int)
    requires
        0 <= i < pairs.len(),
        forall|j: int| i < j < pairs.len() ==> (#[trigger] pairs[j]).0 != pairs[i].0,
    ensures
        write_all(map, pairs).contains_key(pairs[i].0),
        write_all(map, pairs)[pairs[i].0] == pairs[i].1,
    decreases pairs.len(),
{
    let before = pairs.drop_last();
    if i < pairs.len() - 1 {
        assert(before[i] == pairs[i]);
        assert forall|j: int| i < j < before.len() implies (#[trigger] before[j]).0
            != before[i].0 by {
            assert(before[j] == pairs[j]);
        }
        lemma_write_all_last_wins(map, before, i);
    }
}

/// After writing, a key whose pairs all carry one value holds that value.
pub proof fn lemma_write_all_agreed<V>(map: Map<u64, V>, pairs: Seq<(u64, V)>, key: u64, value: V)
    requires
        exists|i: int| 0 <= i < pairs.len() && (#[trigger] pairs[i]).0 == key,
        forall|i: int| 0 <= i < pairs.len() && (#[trigger] pairs[i]).0 == key ==> pairs[i].1 == value,
    ensures
        write_all(map, pairs).contains_key(key),
        write_all(map, pairs)[key] == value,
    decreases pairs.len(),
{
    let before = pairs.drop_last();
    let last = pairs.last();
    if last.0 == key {
        assert(pairs[pairs.len() - 1].1 == value);
    } else {
        let i = choose|i: int| 0 <= i < pairs.len() && (#[trigger] pairs[i]).0 == key;
        assert(before[i].0 == key);
        assert forall|j: int| 0 <= j < before.len() && (#[trigger] before[j]).0 == key implies before[j].1
            == value by {
            assert(pairs[j].0 == key);
        }
        lemma_write_all_agreed(map, before, key, value);
    }
}

/// What a key holds after writing into the empty map is the value of a pair
/// that was written with that key.
pub proof fn lemma_written_value_was_written<V>(pairs: Seq<(u64, V)>, key: u64)
    requires
        write_all(Map::empty(), pairs).contains_key(key),
    ensures
        pairs.contains((key, write_all(Map::empty(), pairs)[key])),
    decreases pairs.len(),
{
    if pairs.len() > 0 {
        let before = pairs.drop_last();
        if pairs.last().0 == key {
            assert(pairs[pairs.len() - 1] == (key, write_all(Map::<u64, V>::empty(), pairs)[key]));
        } else {
            lemma_written_value_was_written(before, key);
            let at = choose|at: int|
                0 <= at < before.len() && before[at] == (
                    key,
                    write_all(Map::<u64, V>::empty(), before)[key],
                );
            assert(pairs[at] == before[at]);
        }
    }
}

} // verus!
