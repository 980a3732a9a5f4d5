//! Finding the first item of a sequence that meets a condition, or that
//! stands under a key.

use vstd::prelude::*;

verus! {

/// The position of the first item of `items` that meets `wanted`; the length
/// of `items` where none does.
pub open spec fn first_index<T>(items: Seq<T>, wanted: spec_fn(T) -> bool) -> int
    decreases items.len(),
{
    if items.len() == 0 {
        0
    } else if wanted(items[0]) {
        0
    } else {
        1 + first_index(items.drop_first(), wanted)
    }
}

/// The first item of `items` that meets `wanted`.
pub open spec fn first_match<T>(items: Seq<T>, wanted: spec_fn(T) -> bool) -> Option<T> {
    let i = first_index(items, wanted);
    if i < items.len() {
        Some(items[i])
    } else {
        None
    }
}

/// The first index lies within the sequence or just behind it; the item there
/// meets the condition, and no item before it does.
pub proof fn lemma_first_index<T>(items: Seq<T>, wanted: spec_fn(T) -> bool)
    ensures
        0 <= first_index(items, wanted) <= items.len(),
        first_index(items, wanted) < items.len() ==> wanted(items[first_index(items, wanted)]),
        forall|j: int| 0 <= j < first_index(items, wanted) ==> !wanted(#[trigger] items[j]),
    decreases items.len(),
{
    if items.len() > 0 && !wanted(items[0]) {
        let rest = items.drop_first();
        lemma_first_index(rest, wanted);
        assert forall|j: int| 0 <= j < first_index(items, wanted) implies !wanted(
            #[trigger] items[j],
        ) by {
            if j > 0 {
                assert(items[j] == rest[j - 1]);
            }
        }
    }
}

/// An index whose item meets the condition, while none before it does, is the
/// first index.
pub proof fn lemma_first_index_is<T>(items: Seq<T>, wanted: spec_fn(T) -> bool, i: int)
    requires
        0 <= i <= items.len(),
        i < items.len() ==> wanted(items[i]),
        forall|j: int| 0 <= j < i ==> !wanted(#[trigger] items[j]),
    ensures
        first_index(items, wanted) == i,
    decreases items.len(),
{
    if items.len() > 0 && i > 0 {
        let rest = items.drop_first();
        assert(!wanted(items[0]));
        assert forall|j: int| 0 <= j < i - 1 implies !wanted(#[trigger] rest[j]) by {
            assert(rest[j] == items[j + 1]);
        }
        lemma_first_index_is(rest, wanted, i - 1);
    }
}

/// The value of the first entry of `entries` under `key`.
pub open spec fn lookup<V>(entries: Seq<(Seq<char>, V)>, key: Seq<char>) -> Option<V>
    decreases entries.len(),
{
    if entries.len() == 0 {
        None
    } else if entries[0].0 == key {
        Some(entries[0].1)
    } else {
        lookup(entries.drop_first(), key)
    }
}

/// Looking up from entry `from` on finds what looking up behind it finds, once
/// the entry at `from` has another key.
pub proof fn lemma_lookup_skip<V>(entries: Seq<(Seq<char>, V)>, key: Seq<char>, from: int)
    requires
        0 <= from < entries.len(),
        entries[from].0 != key,
    ensures
        lookup(entries.skip(from), key) == lookup(entries.skip(from + 1), key),
{
    assert(entries.skip(from).drop_first() =~= entries.skip(from + 1));
}

} // verus!
