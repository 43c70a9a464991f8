//! Helpers for stating contracts over sequences of values that have a view,
//! and over sequences that are read as maps.

use vstd::prelude::*;

verus! {

/// The views of the elements of `items`, in order.
pub open spec fn views<T: View>(items: Seq<T>) -> Seq<T::V> {
    Seq::new(items.len(), |i: int| items[i]@)
}

/// Pushing an element pushes its view.
pub proof fn lemma_views_push<T: View>(items: Seq<T>, item: T)
    ensures
        views(items.push(item)) == views(items).push(item@),
{
}

/// Removing an element removes its view.
pub proof fn lemma_views_remove<T: View>(items: Seq<T>, i: int)
    requires
        0 <= i < items.len(),
    ensures
        views(items.remove(i)) == views(items).remove(i),
{
}

/// The map that takes each key to the value at the key's position.
pub open spec fn assoc<K, V>(keys: Seq<K>, values: Seq<V>) -> Map<K, V> {
    Map::new(|k: K| keys.contains(k), |k: K| values[keys.index_of(k)])
}

/// Where no key occurs twice, each key is mapped to the value at its own
/// position.
pub proof fn lemma_assoc_lookup<K, V>(keys: Seq<K>, values: Seq<V>, i: int)
    requires
        keys.no_duplicates(),
        0 <= i < keys.len(),
    ensures
        keys.contains(keys[i]),
        keys.index_of(keys[i]) == i,
        assoc(keys, values).contains_key(keys[i]),
        assoc(keys, values)[keys[i]] == values[i],
{
}

/// Adding a new key at the end adds its entry to the map.
pub proof fn lemma_assoc_push<K, V>(keys: Seq<K>, values: Seq<V>, key: K, value: V)
    requires
        keys.no_duplicates(),
        keys.len() == values.len(),
        !keys.contains(key),
    ensures
        keys.push(key).no_duplicates(),
        assoc(keys.push(key), values.push(value)) == assoc(keys, values).insert(key, value),
{
    let keys2 = keys.push(key);
    let n = keys.len() as int;
    assert forall|k: K| keys2.contains(k) <==> assoc(keys, values).insert(
        key,
        value,
    ).contains_key(k) by {
        if keys.contains(k) {
            let i = keys.index_of(k);
            assert(keys2[i] == k);
        }
        if k == key {
            assert(keys2[n] == k);
        }
    }
}

/// Replacing the value at a key's position replaces the key's entry.
pub proof fn lemma_assoc_update<K, V>(keys: Seq<K>, values: Seq<V>, i: int, value: V)
    requires
        keys.no_duplicates(),
        keys.len() == values.len(),
        0 <= i < keys.len(),
    ensures
        assoc(keys, values.update(i, value)) == assoc(keys, values).insert(keys[i], value),
{
}

/// Taking a key out takes its entry out of the map.
pub proof fn lemma_assoc_remove<K, V>(keys: Seq<K>, values: Seq<V>, i: int)
    requires
        keys.no_duplicates(),
        keys.len() == values.len(),
        0 <= i < keys.len(),
    ensures
        keys.remove(i).no_duplicates(),
        !keys.remove(i).contains(keys[i]),
        assoc(keys.remove(i), values.remove(i)) == assoc(keys, values).remove(keys[i]),
{
    let keys2 = keys.remove(i);
    assert forall|k: K| keys2.contains(k) <==> assoc(keys, values).remove(keys[i]).contains_key(
        k,
    ) by {
        if keys.contains(k) && k != keys[i] {
            let a0 = keys.index_of(k);
            let a = if a0 < i {
                a0
            } else {
                a0 - 1
            };
            assert(keys2[a] == k);
        }
    }
}

} // verus!
