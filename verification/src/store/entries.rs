//! The mathematical model of an insertion-ordered map: the sequence of its
//! entries, each a key and its value, in their order.

use vstd::prelude::*;

verus! {

/// Where the entry of `key` stands, if there is one: the first index that
/// holds the key.
pub open spec fn position<K, V>(entries: Seq<(K, V)>, key: K) -> Option<int>
    decreases entries.len(),
{
    if entries.len() == 0 {
        None
    } else {
        match position(entries.drop_last(), key) {
            Some(i) => Some(i),
            None => if entries.last().0 == key {
                Some(entries.len() - 1)
            } else {
                None
            },
        }
    }
}

/// The value of `key`, if it has one.
pub open spec fn lookup<K, V>(entries: Seq<(K, V)>, key: K) -> Option<V> {
    match position(entries, key) {
        Some(i) => Some(entries[i].1),
        None => None,
    }
}

/// The entries once `key` has been given `value`: a key that is already there
/// keeps its place, a new one goes last.
pub open spec fn inserted<K, V>(entries: Seq<(K, V)>, key: K, value: V) -> Seq<(K, V)> {
    match position(entries, key) {
        Some(i) => entries.update(i, (key, value)),
        None => entries.push((key, value)),
    }
}

/// The entries once that of `key` has been taken out: the last entry moves
/// into the gap.
pub open spec fn swap_removed<K, V>(entries: Seq<(K, V)>, key: K) -> Seq<(K, V)> {
    match position(entries, key) {
        Some(i) => entries.update(i, entries.last()).drop_last(),
        None => entries,
    }
}

/// No key occurs twice.
pub open spec fn keys_distinct<K, V>(entries: Seq<(K, V)>) -> bool {
    forall|i: int, j: int|
        0 <= i < j < entries.len() ==> (#[trigger] entries[i]).0 != (#[trigger] entries[j]).0
}

/// The two sequences hold the same keys at the same places.
pub open spec fn same_keys<K, V, W>(left: Seq<(K, V)>, right: Seq<(K, W)>) -> bool {
    &&& left.len() == right.len()
    &&& forall|i: int| 0 <= i < left.len() ==> (#[trigger] left[i]).0 == (#[trigger] right[i]).0
}

/// What `position` gives back is the first index of the key.
pub proof fn lemma_position<K, V>(entries: Seq<(K, V)>, key: K)
    ensures
        match position(entries, key) {
            Some(i) => {
                &&& 0 <= i < entries.len()
                &&& entries[i].0 == key
                &&& forall|j: int| 0 <= j < i ==> (#[trigger] entries[j]).0 != key
            },
            None => forall|j: int| 0 <= j < entries.len() ==> (#[trigger] entries[j]).0 != key,
        },
    decreases entries.len(),
{
    if entries.len() > 0 {
        let init = entries.drop_last();
        lemma_position(init, key);
        assert(forall|j: int| 0 <= j < init.len() ==> init[j] == #[trigger] entries[j]);
    }
}

/// The first index of the key is what `position` gives back.
pub proof fn lemma_position_at<K, V>(entries: Seq<(K, V)>, key: K, i: int)
    requires
        0 <= i < entries.len(),
        entries[i].0 == key,
        forall|j: int| 0 <= j < i ==> (#[trigger] entries[j]).0 != key,
    ensures
        position(entries, key) == Some(i),
{
    lemma_position(entries, key);
}

/// Where a key stands depends on the keys alone.
pub proof fn lemma_position_same_keys<K, V, W>(left: Seq<(K, V)>, right: Seq<(K, W)>, key: K)
    requires
        same_keys(left, right),
    ensures
        position(left, key) == position(right, key),
{
    lemma_position(left, key);
    lemma_position(right, key);
    if let Some(i) = position(left, key) {
        assert(right[i].0 == key);
    }
    if let Some(i) = position(right, key) {
        assert(left[i].0 == key);
    }
}

/// Whether keys occur twice depends on the keys alone.
pub proof fn lemma_keys_distinct_same_keys<K, V, W>(left: Seq<(K, V)>, right: Seq<(K, W)>)
    requires
        same_keys(left, right),
        keys_distinct(left),
    ensures
        keys_distinct(right),
{
    assert forall|i: int, j: int| 0 <= i < j < right.len() implies (#[trigger] right[i]).0 != (
    #[trigger] right[j]).0 by {
        assert(left[i].0 == right[i].0 && left[j].0 == right[j].0);
    }
}

/// A key that was just given a value has it, and every other key keeps its
/// own.
pub proof fn lookup_after_insert<K, V>(entries: Seq<(K, V)>, key: K, value: V, other: K)
    ensures
        lookup(inserted(entries, key, value), other) == if other == key {
            Some(value)
        } else {
            lookup(entries, other)
        },
{
    let after = inserted(entries, key, value);
    lemma_position(entries, key);
    lemma_position(entries, other);
    lemma_position(after, other);
    match position(entries, key) {
        Some(_) => {
            assert(same_keys(entries, after));
            lemma_position_same_keys(entries, after, other);
        },
        None => {
            assert(after.drop_last() =~= entries);
        },
    }
}

/// Giving a key a value never makes a key occur twice.
pub proof fn insert_keeps_keys_distinct<K, V>(entries: Seq<(K, V)>, key: K, value: V)
    requires
        keys_distinct(entries),
    ensures
        keys_distinct(inserted(entries, key, value)),
{
    lemma_position(entries, key);
}

/// A key whose entry was taken out has no value any more, and every other key
/// keeps its own.
pub proof fn lookup_after_swap_remove<K, V>(entries: Seq<(K, V)>, key: K, other: K)
    requires
        keys_distinct(entries),
    ensures
        lookup(swap_removed(entries, key), other) == if other == key {
            None
        } else {
            lookup(entries, other)
        },
        keys_distinct(swap_removed(entries, key)),
{
    let after = swap_removed(entries, key);
    lemma_position(entries, key);
    lemma_position(entries, other);
    lemma_position(after, other);
    if let Some(gap) = position(entries, key) {
        let last = entries.len() - 1;
        assert(forall|j: int| 0 <= j < last && j != gap ==> after[j] == #[trigger] entries[j]);
        assert(gap < last ==> after[gap] == entries[last]);
        if let Some(i) = position(entries, other) {
            if other != key {
                if i == last {
                    assert(after[gap].0 == other);
                } else {
                    assert(after[i].0 == other);
                }
            }
        }
    }
}

/// Where no key occurs twice, looking up the key of any entry gives the value
/// that stands beside it, and a key that stands nowhere has no value.
pub proof fn lookup_gives_the_value_beside_the_key<K, V>(entries: Seq<(K, V)>, key: K, i: int)
    requires
        forall|a: int, b: int|
            0 <= a < b < entries.len() ==> (#[trigger] entries[a]).0 != (#[trigger] entries[b]).0,
    ensures
        0 <= i < entries.len() && entries[i].0 == key ==> lookup(entries, key) == Some(
            entries[i].1,
        ) && position(entries, key) == Some(i),
        (forall|j: int| 0 <= j < entries.len() ==> (#[trigger] entries[j]).0 != key) ==> lookup(
            entries,
            key,
        ) is None && position(entries, key) is None,
{
    lemma_position(entries, key);
}

/// Giving a value to a key that stands at `i` changes that entry alone.
pub proof fn insert_over_a_key_changes_its_entry_alone<K, V>(
    entries: Seq<(K, V)>,
    key: K,
    value: V,
    i: int,
)
    requires
        forall|a: int, b: int|
            0 <= a < b < entries.len() ==> (#[trigger] entries[a]).0 != (#[trigger] entries[b]).0,
        0 <= i < entries.len(),
        entries[i].0 == key,
    ensures
        inserted(entries, key, value).len() == entries.len(),
        inserted(entries, key, value)[i] == (key, value),
        forall|j: int|
            0 <= j < entries.len() && j != i ==> #[trigger] inserted(entries, key, value)[j]
                == entries[j],
{
    lemma_position(entries, key);
}

/// Giving a value to a new key leaves all entries as they are and puts one
/// after them.
pub proof fn insert_of_a_new_key_goes_last<K, V>(entries: Seq<(K, V)>, key: K, value: V)
    requires
        forall|j: int| 0 <= j < entries.len() ==> (#[trigger] entries[j]).0 != key,
    ensures
        inserted(entries, key, value).len() == entries.len() + 1,
        inserted(entries, key, value)[entries.len() as int] == (key, value),
        forall|j: int|
            0 <= j < entries.len() ==> #[trigger] inserted(entries, key, value)[j] == entries[j],
{
    lemma_position(entries, key);
}

/// Where a key stands once another, or itself, has been given a value: where
/// it stood, or last if it is new.
pub proof fn position_after_insert<K, V>(entries: Seq<(K, V)>, key: K, value: V, other: K)
    ensures
        position(inserted(entries, key, value), other) == match position(entries, other) {
            Some(i) => Some(i),
            None => if other == key {
                Some(entries.len() as int)
            } else {
                None
            },
        },
{
    let after = inserted(entries, key, value);
    lemma_position(entries, key);
    lemma_position(entries, other);
    match position(entries, key) {
        Some(_) => {
            assert(same_keys(entries, after));
            lemma_position_same_keys(entries, after, other);
        },
        None => {
            assert(after.drop_last() =~= entries);
        },
    }
}

/// Taking out the entry at `i` moves the last entry there and leaves the rest
/// as they are. Taking out a key that is not there changes nothing.
pub proof fn swap_remove_moves_the_last_entry_alone<K, V>(
    entries: Seq<(K, V)>,
    key: K,
    i: int,
)
    requires
        forall|a: int, b: int|
            0 <= a < b < entries.len() ==> (#[trigger] entries[a]).0 != (#[trigger] entries[b]).0,
    ensures
        0 <= i < entries.len() && entries[i].0 == key ==> {
            &&& swap_removed(entries, key).len() == entries.len() - 1
            &&& forall|j: int|
                0 <= j < entries.len() - 1 ==> #[trigger] swap_removed(entries, key)[j] == if j
                    == i {
                    entries[entries.len() - 1]
                } else {
                    entries[j]
                }
        },
        (forall|j: int| 0 <= j < entries.len() ==> (#[trigger] entries[j]).0 != key)
            ==> swap_removed(entries, key) == entries,
{
    lemma_position(entries, key);
}

} // verus!
