//! Rows of entries that are found by a key of characters, as the tables of
//! this crate hold them.

use vstd::prelude::*;

verus! {

/// The position of the first entry with the key `key`, or the number of
/// entries where no entry has that key.
pub open spec fn position_of<V>(entries: Seq<(Seq<char>, V)>, key: Seq<char>) -> int
    decreases entries.len(),
{
    if entries.len() == 0 {
        0
    } else {
        let before = position_of(entries.drop_last(), key);
        if before < entries.len() - 1 {
            before
        } else if entries.last().0 == key {
            entries.len() - 1
        } else {
            entries.len() as int
        }
    }
}

/// No two entries have the same key.
pub open spec fn distinct_keys<V>(entries: Seq<(Seq<char>, V)>) -> bool {
    forall|i: int, j: int|
        0 <= i < j < entries.len() ==> (#[trigger] entries[i]).0 != (#[trigger] entries[j]).0
}

/// Where the position of a key lies within a prefix, it is the same in the
/// whole; where it does not, the position in the whole lies behind the prefix.
pub proof fn lemma_position_of_prefix<V>(entries: Seq<(Seq<char>, V)>, key: Seq<char>, n: int)
    requires
        0 <= n <= entries.len(),
    ensures
        position_of(entries.take(n), key) <= n,
        position_of(entries.take(n), key) < n ==> position_of(entries, key) == position_of(
            entries.take(n),
            key,
        ),
        position_of(entries.take(n), key) == n ==> position_of(entries, key) >= n,
    decreases entries.len() - n,
{
    lemma_position_of_found(entries.take(n), key);
    if n < entries.len() {
        assert(entries.take(n + 1).drop_last() =~= entries.take(n));
        lemma_position_of_prefix(entries, key, n + 1);
    } else {
        assert(entries.take(n) =~= entries);
    }
}

/// The position of a key is that of the first entry with the key: no entry
/// before it has the key, and the entry there, if there is one, has it.
pub proof fn lemma_position_of_found<V>(entries: Seq<(Seq<char>, V)>, key: Seq<char>)
    ensures
        0 <= position_of(entries, key) <= entries.len(),
        position_of(entries, key) < entries.len() ==> entries[position_of(entries, key)].0 == key,
        forall|i: int| 0 <= i < position_of(entries, key) ==> (#[trigger] entries[i]).0 != key,
    decreases entries.len(),
{
    if entries.len() > 0 {
        lemma_position_of_found(entries.drop_last(), key);
        assert forall|i: int| 0 <= i < position_of(entries, key) implies (#[trigger] entries[i]).0
            != key by {
            if i < entries.len() - 1 {
                assert(entries.drop_last()[i] == entries[i]);
            }
        }
    }
}

} // verus!
