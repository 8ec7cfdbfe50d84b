//! What comes first in a sequence, and what is absent from another.

use vstd::prelude::*;

use crate::primitives::B256;

verus! {

/// The elements of `s`, each once, in the order in which they first occur.
pub open spec fn first_occurrences<A>(s: Seq<A>) -> Seq<A>
    decreases s.len(),
{
    if s.len() == 0 {
        Seq::empty()
    } else if s.drop_last().contains(s.last()) {
        first_occurrences(s.drop_last())
    } else {
        first_occurrences(s.drop_last()).push(s.last())
    }
}

/// Leaving out repetitions keeps every element, and keeps it once.
pub proof fn lemma_first_occurrences<A>(s: Seq<A>)
    ensures
        first_occurrences(s).no_duplicates(),
        forall|x: A| #[trigger] first_occurrences(s).contains(x) <==> s.contains(x),
    decreases s.len(),
{
    if s.len() > 0 {
        let init = s.drop_last();
        let kept = first_occurrences(init);
        lemma_first_occurrences(init);
        assert(s =~= init.push(s.last()));
        assert forall|x: A| #[trigger] first_occurrences(s).contains(x) <==> s.contains(x) by {
            assert(kept.contains(x) <==> init.contains(x));
            if s.contains(x) && !init.contains(x) {
                let i = choose|i: int| 0 <= i < s.len() && s[i] == x;
                assert(i == s.len() - 1 || init[i] == x);
                assert(kept.push(s.last())[kept.len() as int] == x);
            }
            if init.contains(x) {
                let i = choose|i: int| 0 <= i < init.len() && init[i] == x;
                assert(s[i] == x);
                let j = choose|j: int| 0 <= j < kept.len() && kept[j] == x;
                assert(kept.push(s.last())[j] == x);
            }
            if first_occurrences(s).contains(x) && !kept.contains(x) {
                assert(x == s.last());
                assert(s[s.len() - 1] == x);
            }
        }
        assert(kept.contains(s.last()) <==> init.contains(s.last()));
    }
}

/// The first element of `s` that `other` lacks.
pub open spec fn first_absent<A>(s: Seq<A>, other: Seq<A>) -> Option<A>
    decreases s.len(),
{
    if s.len() == 0 {
        None
    } else if !other.contains(s[0]) {
        Some(s[0])
    } else {
        first_absent(s.drop_first(), other)
    }
}

/// Nothing of `s` is absent exactly where `other` has all of it; and what is absent is an element
/// of `s` that `other` lacks, with none before it.
pub proof fn lemma_first_absent<A>(s: Seq<A>, other: Seq<A>)
    ensures
        match first_absent(s, other) {
            None => forall|x: A| #[trigger] s.contains(x) ==> other.contains(x),
            Some(missing) => exists|i: int|
                0 <= i < s.len() && #[trigger] s[i] == missing && !other.contains(missing) && (
                forall|j: int| 0 <= j < i ==> #[trigger] other.contains(s[j])),
        },
    decreases s.len(),
{
    if s.len() > 0 && other.contains(s[0]) {
        let rest = s.drop_first();
        lemma_first_absent(rest, other);
        match first_absent(s, other) {
            None => {
                assert forall|x: A| #[trigger] s.contains(x) implies other.contains(x) by {
                    let i = choose|i: int| 0 <= i < s.len() && s[i] == x;
                    if i > 0 {
                        assert(rest[i - 1] == x);
                        assert(rest.contains(x));
                    }
                }
            },
            Some(missing) => {
                let i = choose|i: int|
                    0 <= i < rest.len() && #[trigger] rest[i] == missing && !other.contains(missing)
                        && (forall|j: int| 0 <= j < i ==> #[trigger] other.contains(rest[j]));
                assert(s[i + 1] == missing);
                assert forall|j: int| 0 <= j < i + 1 implies #[trigger] other.contains(s[j]) by {
                    if j > 0 {
                        assert(s[j] == rest[j - 1]);
                    }
                }
            },
        }
    } else if s.len() > 0 {
        assert(s[0] == first_absent(s, other)->0);
    }
}

/// Whether `hash` is one of `hashes`.
pub fn contains_hash(hashes: &Vec<B256>, hash: &B256) -> (found: bool)
    ensures
        found == hashes@.contains(*hash),
{
    let mut i: usize = 0;
    while i < hashes.len()
        invariant
            i <= hashes@.len(),
            forall|j: int| 0 <= j < i ==> hashes@[j] != *hash,
        decreases hashes@.len() - i,
    {
        if hashes[i] == *hash {
            assert(hashes@[i as int] == *hash);
            return true;
        }
        i = i + 1;
    }
    false
}

/// Adds `hash` at the end of `hashes`, unless it is one of them.
pub fn insert_hash(hashes: &mut Vec<B256>, hash: B256)
    ensures
        final(hashes)@ == if old(hashes)@.contains(hash) {
            old(hashes)@
        } else {
            old(hashes)@.push(hash)
        },
{
    if !contains_hash(hashes, &hash) {
        hashes.push(hash);
    }
}

} // verus!
