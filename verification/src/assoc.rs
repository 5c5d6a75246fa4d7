//! Association lists: the mathematics behind the small maps of this crate.
//!
//! A list of key-value pairs stands for a map. Lookup takes the first pair
//! with the key; giving a key a value overwrites that pair where it stands
//! or appends a new one, so a list that starts with distinct keys keeps
//! them distinct.

use vstd::prelude::*;

verus! {

/// The position of the first entry with key `key`, or `pairs.len()` when
/// there is none.
pub open spec fn key_index<K, V>(pairs: Seq<(K, V)>, key: K) -> int
    decreases pairs.len(),
{
    if pairs.len() == 0 || pairs[0].0 == key {
        0
    } else {
        1 + key_index(pairs.skip(1), key)
    }
}

/// Whether no key occurs twice in `pairs`.
pub open spec fn distinct_keys<K, V>(pairs: Seq<(K, V)>) -> bool {
    forall|i: int, j: int| 0 <= i < j < pairs.len() ==> pairs[i].0 != pairs[j].0
}

/// `pairs` after `key` has been given the value `value`: an entry with that
/// key is overwritten where it stands, otherwise a new entry is appended.
pub open spec fn put<K, V>(pairs: Seq<(K, V)>, key: K, value: V) -> Seq<(K, V)> {
    let i = key_index(pairs, key);
    if 0 <= i < pairs.len() {
        pairs.update(i, (key, value))
    } else {
        pairs.push((key, value))
    }
}

/// The map that an entry list stands for.
pub open spec fn as_map<K, V>(pairs: Seq<(K, V)>) -> Map<K, V> {
    Map::new(
        |k: K| 0 <= key_index(pairs, k) < pairs.len(),
        |k: K| pairs[key_index(pairs, k)].1,
    )
}

/// `key_index` stays within `0..=pairs.len()`, points at an entry with the
/// key when it is inside the list, and no earlier entry has the key.
pub proof fn lemma_key_index<K, V>(pairs: Seq<(K, V)>, key: K)
    ensures
        0 <= key_index(pairs, key) <= pairs.len(),
        key_index(pairs, key) < pairs.len() ==> pairs[key_index(pairs, key)].0 == key,
        forall|j: int| 0 <= j < key_index(pairs, key) ==> pairs[j].0 != key,
    decreases pairs.len(),
{
    if pairs.len() > 0 && pairs[0].0 != key {
        lemma_key_index(pairs.skip(1), key);
        assert forall|j: int| 0 <= j < key_index(pairs, key) implies pairs[j].0 != key by {
            if j > 0 {
                assert(pairs.skip(1)[j - 1] == pairs[j]);
            }
        }
    }
}

/// Any position `i` that holds `key` (or the end of the list) with no
/// earlier entry under `key` is the one `key_index` names.
pub proof fn lemma_key_index_unique<K, V>(pairs: Seq<(K, V)>, key: K, i: int)
    requires
        0 <= i <= pairs.len(),
        i < pairs.len() ==> pairs[i].0 == key,
        forall|j: int| 0 <= j < i ==> pairs[j].0 != key,
    ensures
        key_index(pairs, key) == i,
{
    lemma_key_index(pairs, key);
}

/// How giving `key` a value moves the entries: the entry of `key` holds the
/// new value, and every other key keeps its entry and its place.
proof fn lemma_put_key_index<K, V>(pairs: Seq<(K, V)>, key: K, value: V, k: K)
    ensures
        k == key ==> {
            let after = put(pairs, key, value);
            key_index(after, k) < after.len() && after[key_index(after, k)].1 == value
        },
        k != key ==> {
            let after = put(pairs, key, value);
            let i = key_index(pairs, k);
            &&& i < pairs.len() <==> key_index(after, k) < after.len()
            &&& i < pairs.len() ==> key_index(after, k) == i && after[i] == pairs[i]
        },
{
    let after = put(pairs, key, value);
    let i = key_index(pairs, k);
    lemma_key_index(pairs, key);
    lemma_key_index(pairs, k);
    if key_index(pairs, key) < pairs.len() {
        // The entry of `key` is overwritten: every entry keeps its key.
        assert forall|j: int| 0 <= j < after.len() implies (#[trigger] after[j]).0
            == pairs[j].0 by {}
        lemma_key_index_unique(after, k, i);
    } else {
        // A new entry is appended: the old entries stay as they are.
        assert forall|j: int| 0 <= j < pairs.len() implies #[trigger] after[j] == pairs[j] by {}
        if k == key {
            lemma_key_index_unique(after, k, pairs.len() as int);
        } else if i < pairs.len() {
            lemma_key_index_unique(after, k, i);
        } else {
            lemma_key_index_unique(after, k, after.len() as int);
        }
    }
}

/// Giving a key a value changes the map at that key and nowhere else, and
/// keeps the keys distinct.
pub proof fn lemma_put<K, V>(pairs: Seq<(K, V)>, key: K, value: V)
    ensures
        as_map(put(pairs, key, value)) == as_map(pairs).insert(key, value),
        distinct_keys(pairs) ==> distinct_keys(put(pairs, key, value)),
        put(pairs, key, value).len() >= pairs.len(),
{
    let after = put(pairs, key, value);
    let target = as_map(pairs).insert(key, value);
    lemma_key_index(pairs, key);
    assert forall|k: K| as_map(after).dom().contains(k) == target.dom().contains(k) by {
        lemma_put_key_index(pairs, key, value, k);
        lemma_key_index(pairs, k);
        lemma_key_index(after, k);
    }
    assert forall|k: K| as_map(after).dom().contains(k) implies as_map(after)[k]
        == target[k] by {
        lemma_put_key_index(pairs, key, value, k);
        lemma_key_index(pairs, k);
        lemma_key_index(after, k);
    }
    assert(as_map(after) =~= target);
}

/// In a list with distinct keys every pair is the one that its key is
/// looked up to.
pub proof fn lemma_distinct_lookup<K, V>(pairs: Seq<(K, V)>, i: int)
    requires
        distinct_keys(pairs),
        0 <= i < pairs.len(),
    ensures
        key_index(pairs, pairs[i].0) == i,
        as_map(pairs).contains_key(pairs[i].0),
        as_map(pairs)[pairs[i].0] == pairs[i].1,
{
    lemma_key_index_unique(pairs, pairs[i].0, i);
}

/// A list with distinct keys stands for a finite map with as many keys as
/// the list has pairs.
pub proof fn lemma_distinct_len<K, V>(pairs: Seq<(K, V)>)
    requires
        distinct_keys(pairs),
    ensures
        as_map(pairs).dom().finite(),
        as_map(pairs).len() == pairs.len(),
    decreases pairs.len(),
{
    if pairs.len() == 0 {
        assert(as_map(pairs) =~= Map::<K, V>::empty());
    } else {
        // The last pair has a key of its own, so the list is what `put`
        // makes of the pairs before it, and the map gains that key.
        let before = pairs.drop_last();
        let (key, value) = pairs.last();
        lemma_distinct_len(before);
        lemma_key_index_unique(before, key, before.len() as int);
        assert(put(before, key, value) =~= pairs);
        lemma_put(before, key, value);
    }
}

} // verus!
