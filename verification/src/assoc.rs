//! Keyed lists: a sequence of keys without duplicates beside a sequence of
//! values of the same length, read as a map.

use vstd::prelude::*;

verus! {

/// The map that sends each key to the value at the key's index.
pub open spec fn as_map<K, V>(keys: Seq<K>, values: Seq<V>) -> Map<K, V> {
    Map::new(|key: K| keys.contains(key), |key: K| values[keys.index_of(key)])
}

/// The map holds each listed key with the value beside it.
pub proof fn lemma_entry<K, V>(keys: Seq<K>, values: Seq<V>, i: int)
    requires
        keys.no_duplicates(),
        0 <= i < keys.len(),
    ensures
        as_map(keys, values).contains_key(keys[i]),
        as_map(keys, values)[keys[i]] == values[i],
{
    assert(keys.contains(keys[i]));
    assert(keys.index_of(keys[i]) == i);
}

/// Appending an entry under a new key inserts it into the map.
pub proof fn lemma_push<K, V>(keys: Seq<K>, values: Seq<V>, key: K, value: V)
    requires
        keys.no_duplicates(),
        keys.len() == values.len(),
        !keys.contains(key),
    ensures
        keys.push(key).no_duplicates(),
        as_map(keys.push(key), values.push(value)) == as_map(keys, values).insert(key, value),
{
    let grown = keys.push(key);
    assert forall|i: int, j: int| 0 <= i < grown.len() && 0 <= j < grown.len() && i != j implies grown[i]
        != grown[j] by {
        if i < keys.len() {
            assert(keys.contains(grown[i]));
        }
        if j < keys.len() {
            assert(keys.contains(grown[j]));
        }
    }
    let target = as_map(keys, values).insert(key, value);
    assert forall|k: K| as_map(grown, values.push(value)).contains_key(k) == target.contains_key(
        k,
    ) by {
        if grown.contains(k) {
            let i = grown.index_of(k);
            if i < keys.len() {
                assert(keys[i] == k);
            }
        }
        if keys.contains(k) {
            assert(grown[keys.index_of(k)] == k);
        }
        if k == key {
            assert(grown[keys.len() as int] == k);
        }
    }
    assert forall|k: K| as_map(grown, values.push(value)).contains_key(k) implies as_map(
        grown,
        values.push(value),
    )[k] == target[k] by {
        let i = grown.index_of(k);
        lemma_entry(grown, values.push(value), i);
        if i < keys.len() {
            assert(keys[i] == k);
            lemma_entry(keys, values, i);
        }
    }
    assert(as_map(grown, values.push(value)) =~= target);
}

/// Moving the last entry into the place of entry `i` removes entry `i`'s key
/// from the map.
pub proof fn lemma_swap_remove<K, V>(keys: Seq<K>, values: Seq<V>, i: int)
    requires
        keys.no_duplicates(),
        keys.len() == values.len(),
        0 <= i < keys.len(),
    ensures
        keys.update(i, keys.last()).drop_last().no_duplicates(),
        as_map(
            keys.update(i, keys.last()).drop_last(),
            values.update(i, values.last()).drop_last(),
        ) == as_map(keys, values).remove(keys[i]),
{
    let left = keys.update(i, keys.last()).drop_last();
    let left_values = values.update(i, values.last()).drop_last();
    let last = keys.len() - 1;
    // Where each remaining entry stood before.
    let origin = |at: int| if at == i { last } else { at };
    assert forall|at: int| 0 <= at < left.len() implies left[at] == keys[origin(at)]
        && left_values[at] == values[origin(at)] by {}
    assert forall|a: int, b: int| 0 <= a < left.len() && 0 <= b < left.len() && a != b implies left[a]
        != left[b] by {
        assert(left[a] == keys[origin(a)]);
        assert(left[b] == keys[origin(b)]);
    }
    let target = as_map(keys, values).remove(keys[i]);
    assert forall|k: K| as_map(left, left_values).contains_key(k) == target.contains_key(k) by {
        if left.contains(k) {
            let at = left.index_of(k);
            assert(keys[origin(at)] == k);
        }
        if keys.contains(k) && k != keys[i] {
            let at = keys.index_of(k);
            if at == last {
                assert(left[i] == k);
            } else {
                assert(left[at] == k);
            }
        }
    }
    assert forall|k: K| as_map(left, left_values).contains_key(k) implies as_map(
        left,
        left_values,
    )[k] == target[k] by {
        let at = left.index_of(k);
        lemma_entry(left, left_values, at);
        assert(left[at] == keys[origin(at)]);
        lemma_entry(keys, values, origin(at));
    }
    assert(as_map(left, left_values) =~= target);
}

/// The map has as many keys as the list has entries.
pub proof fn lemma_size<K, V>(keys: Seq<K>, values: Seq<V>)
    requires
        keys.no_duplicates(),
    ensures
        as_map(keys, values).dom().finite(),
        as_map(keys, values).dom().len() == keys.len(),
{
    keys.unique_seq_to_set();
    assert(as_map(keys, values).dom() =~= keys.to_set());
}

/// Replacing the value of entry `i` replaces the value under its key.
pub proof fn lemma_update_value<K, V>(keys: Seq<K>, values: Seq<V>, i: int, value: V)
    requires
        keys.no_duplicates(),
        keys.len() == values.len(),
        0 <= i < keys.len(),
    ensures
        as_map(keys, values.update(i, value)) == as_map(keys, values).insert(keys[i], value),
{
    let target = as_map(keys, values).insert(keys[i], value);
    assert(keys.contains(keys[i]));
    assert forall|k: K| as_map(keys, values.update(i, value)).contains_key(k) implies as_map(
        keys,
        values.update(i, value),
    )[k] == target[k] by {
        let at = keys.index_of(k);
        lemma_entry(keys, values.update(i, value), at);
        lemma_entry(keys, values, at);
    }
    assert(as_map(keys, values.update(i, value)) =~= target);
}

} // verus!
