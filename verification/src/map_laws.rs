//! What the map, the byte strings and the errors promise, as their operations show it.

use vstd::prelude::*;

use crate::error::{ExecutionError, ProviderError};
use crate::keyed_map::KeyedMap;
use crate::primitives::{FixedBytes, U256, B256};

verus! {

/// Byte strings are equal exactly where their bytes are.
pub proof fn law_equal_bytes<const N: usize>(one: FixedBytes<N>, other: FixedBytes<N>, same: bool)
    requires
        call_ensures(FixedBytes::<N>::eq, (&one, &other), same),
    ensures
        same <==> forall|i: int| 0 <= i < N ==> #[trigger] one.0@[i] == other.0@[i],
{
    if forall|i: int| 0 <= i < N ==> #[trigger] one.0@[i] == other.0@[i] {
        assert(one.0 =~= other.0);
    }
}

/// The byte string of zero bytes has no other byte.
pub proof fn law_zero_bytes<const N: usize>(zero: FixedBytes<N>)
    requires
        call_ensures(FixedBytes::<N>::zero, (), zero),
    ensures
        forall|i: int| 0 <= i < N ==> #[trigger] zero.0@[i] == 0,
{
}

/// A hash that is read as a number keeps its bytes, so that no two hashes give one number.
pub proof fn law_number_of_a_hash(one: B256, other: B256, first: U256, second: U256)
    requires
        call_ensures(U256::from_hash, (one,), first),
        call_ensures(U256::from_hash, (other,), second),
    ensures
        first.be_bytes.0@ == one.0@,
        first == second <==> one == other,
{
}

/// A new map has no entry, and finds nothing.
pub proof fn law_new_map_is_empty<const N: usize, V>(
    map: KeyedMap<N, V>,
    len: usize,
    key: FixedBytes<N>,
    found: Option<&V>,
)
    requires
        call_ensures(KeyedMap::<N, V>::new, (), map),
        call_ensures(KeyedMap::<N, V>::len, (&map,), len),
        call_ensures(KeyedMap::<N, V>::get, (&map, &key), found),
    ensures
        len == 0,
        found is None,
{
}

/// A map has a key exactly where it finds a value under it.
pub proof fn law_key_is_had_where_its_value_is_found<const N: usize, V>(
    map: KeyedMap<N, V>,
    key: FixedBytes<N>,
    had: bool,
    found: Option<&V>,
)
    requires
        call_ensures(KeyedMap::<N, V>::contains_key, (&map, &key), had),
        call_ensures(KeyedMap::<N, V>::get, (&map, &key), found),
    ensures
        had <==> found is Some,
{
}

/// After an insertion the inserted value is found under its key, and under any other key what was
/// found there before. What is handed back is what was found under the key before.
pub proof fn law_inserted_value_is_found<const N: usize, V>(
    map: &mut KeyedMap<N, V>,
    key: FixedBytes<N>,
    value: V,
    previous: Option<V>,
    sought: FixedBytes<N>,
    before: Option<&V>,
    after: Option<&V>,
)
    requires
        call_ensures(KeyedMap::<N, V>::insert, (map, key, value), previous),
        call_ensures(KeyedMap::<N, V>::get, (&*old(map), &sought), before),
        call_ensures(KeyedMap::<N, V>::get, (&*final(map), &sought), after),
    ensures
        sought == key ==> after == Some(&value),
        sought == key ==> match before {
            Some(replaced) => previous == Some(*replaced),
            None => previous is None,
        },
        sought != key ==> after == before,
{
}

/// After a removal nothing is found under the key, and under any other key what was found there
/// before. What is handed back is what was found under the key before.
pub proof fn law_removed_value_is_not_found<const N: usize, V>(
    map: &mut KeyedMap<N, V>,
    key: FixedBytes<N>,
    removed: Option<V>,
    sought: FixedBytes<N>,
    before: Option<&V>,
    after: Option<&V>,
)
    requires
        call_ensures(KeyedMap::<N, V>::remove, (map, &key), removed),
        call_ensures(KeyedMap::<N, V>::get, (&*old(map), &sought), before),
        call_ensures(KeyedMap::<N, V>::get, (&*final(map), &sought), after),
    ensures
        sought == key ==> after is None,
        sought == key ==> match before {
            Some(taken) => removed == Some(*taken),
            None => removed is None,
        },
        sought != key ==> after == before,
{
}

/// An insertion adds one position at the end where the key is new, and none where it is not; and
/// the keys that were there keep their positions.
pub proof fn law_insertion_keeps_positions<const N: usize, V>(
    map: &mut KeyedMap<N, V>,
    key: FixedBytes<N>,
    value: V,
    previous: Option<V>,
    len_before: usize,
    len_after: usize,
    i: usize,
    key_before: FixedBytes<N>,
    key_after: FixedBytes<N>,
)
    requires
        call_ensures(KeyedMap::<N, V>::insert, (map, key, value), previous),
        call_ensures(KeyedMap::<N, V>::len, (&*old(map),), len_before),
        call_ensures(KeyedMap::<N, V>::len, (&*final(map),), len_after),
        i < len_before ==> call_ensures(KeyedMap::<N, V>::key_at, (&*old(map), i), key_before),
        i < len_after ==> call_ensures(KeyedMap::<N, V>::key_at, (&*final(map), i), key_after),
    ensures
        len_after == len_before + if previous is None { 1int } else { 0 },
        i < len_before ==> key_after == key_before,
        i == len_before && previous is None ==> key_after == key,
{
    let before = old(map).keys();
    let after = final(map).keys();
    assert(before.len() == len_before);
    assert(after.len() == len_after);
    if i < len_before {
        assert(before[i as int] == key_before);
        assert(after[i as int] == before[i as int]);
        assert(after[i as int] == key_after);
    }
    if i < len_after {
        assert(after[i as int] == key_after);
    }
}

/// Walking a map by position meets each key that it has once, with the value found under it, and no
/// other.
pub proof fn law_positions_are_the_entries<const N: usize, V>(
    map: KeyedMap<N, V>,
    len: usize,
    key: FixedBytes<N>,
    found: Option<&V>,
)
    requires
        map.well_formed(),
        call_ensures(KeyedMap::<N, V>::len, (&map,), len),
        call_ensures(KeyedMap::<N, V>::get, (&map, &key), found),
    ensures
        found matches Some(value) ==> exists|i: usize| #[trigger]
            holds_at(map, i, key, *value) && i < len,
        forall|i: usize, value: V|
            i < len && #[trigger] holds_at(map, i, key, value) ==> found == Some(&value),
        forall|i: usize, j: usize, a: V, b: V|
            i < len && j < len && #[trigger] holds_at(map, i, key, a) && #[trigger] holds_at(
                map,
                j,
                key,
                b,
            ) ==> i == j,
{
    if let Some(value) = found {
        let i = map.lemma_key(key);
        assert(holds_at(map, i as usize, key, *value));
    }
    assert forall|i: usize, value: V|
        i < len && #[trigger] holds_at(map, i, key, value) implies found == Some(&value) by {
        map.lemma_entry(i as int);
    }
    assert forall|i: usize, j: usize, a: V, b: V|
        i < len && j < len && #[trigger] holds_at(map, i, key, a) && #[trigger] holds_at(
            map,
            j,
            key,
            b,
        ) implies i == j by {
        map.lemma_entry(i as int);
        map.lemma_entry(j as int);
    }
}

/// What the map gives out at position `i` is this key and this value.
pub open spec fn holds_at<const N: usize, V>(
    map: KeyedMap<N, V>,
    i: usize,
    key: FixedBytes<N>,
    value: V,
) -> bool {
    &&& map.entries()[i as int].0 == key
    &&& map.entries()[i as int].1 == value
}

/// What a map gives out at a position is the key and the value of its entry there.
pub proof fn law_position_gives_its_entry<const N: usize, V>(
    map: KeyedMap<N, V>,
    i: usize,
    key: FixedBytes<N>,
    value: &V,
)
    requires
        call_ensures(KeyedMap::<N, V>::key_at, (&map, i), key),
        call_ensures(KeyedMap::<N, V>::value_at, (&map, i), value),
    ensures
        holds_at(map, i, key, *value),
{
}

/// Each kind of contradiction in a reply has its words, whatever it concerns.
pub proof fn law_words_of_a_contradiction(error: ExecutionError, words: &'static str)
    requires
        call_ensures(ExecutionError::message, (&error,), words),
    ensures
        error is NoReceiptForTransaction ==> words@ == "could not prove receipt for tx"@,
        error is NoReceiptsForBlock ==> words@ == "no receipts could be found for block"@,
        error is MissingLog ==> words@ == "receipt does not hold log of tx"@,
        error is LogReceiptMetadataMismatch ==> words@
            == "log metadata does not match proved receipt for tx"@,
{
}

/// Each kind of failure has its words. What the provider called speaks for itself, and a
/// contradiction in a reply is put in the words that it has by itself.
pub proof fn law_words_of_a_failure<E>(
    error: ProviderError<E>,
    words: Option<&'static str>,
    fault: ExecutionError,
    fault_words: &'static str,
)
    requires
        call_ensures(ProviderError::<E>::message, (&error,), words),
        call_ensures(ExecutionError::message, (&fault,), fault_words),
    ensures
        words is None <==> error is Outside,
        error is BlockNotFound ==> words->0@ == "block not found"@,
        error is TransactionNotIncluded ==> words->0@ == "transaction not included"@,
        error is TransactionIndexMismatch ==> words->0@ == "tx index mismatch"@,
        error == ProviderError::<E>::Execution(fault) ==> words->0@ == fault_words@,
{
}

} // verus!
