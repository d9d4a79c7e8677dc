//! What the contracts of lookups and overwrites add up to, stated over the
//! entries of a chain.
use crate::chain::{Chain, Ty};
use crate::stored::{
    erase, is_a, lemma_erased_is_a, lemma_position_cons, lemma_position_is_first, lookup,
    position, target, Entry,
};
use vstd::prelude::*;

verus! {

/// A lookup of a `T` finds nothing exactly where no entry is a `T`.
pub proof fn lemma_absent_iff_no_entry<T: 'static>(entries: Seq<Entry>)
    ensures
        lookup::<T>(entries) is None <==> forall|i: int|
            0 <= i < entries.len() ==> !is_a::<T>(#[trigger] entries[i]),
{
    lemma_position_is_first::<T>(entries);
}

/// A lookup of a `T` finds the newest entry that is a `T`: the one with no
/// `T` in front of it. Where the entries are of different types, that is
/// the one entry of that type.
pub proof fn lemma_lookup_finds_newest<T: 'static>(entries: Seq<Entry>, i: int)
    requires
        0 <= i < entries.len(),
        is_a::<T>(entries[i]),
        forall|j: int| 0 <= j < i ==> !is_a::<T>(#[trigger] entries[j]),
    ensures
        lookup::<T>(entries) == Some(entries[i]),
{
    lemma_position_is_first::<T>(entries);
}

/// A value put in front of a chain is what a lookup of its type finds,
/// whatever the chain held before; and behind it the chain holds what it
/// held, an older value of that type too.
pub proof fn lemma_insert_shadows<V: 'static, R: Chain>(node: Ty<V, R>)
    ensures
        lookup::<V>(node.entries()) == Some(erase(node.val)),
        node.entries().drop_first() == node.rest.entries(),
{
    lemma_erased_is_a::<V>(node.val);
    lemma_position_cons::<V>(erase(node.val), node.rest.entries());
    assert(node.entries().drop_first() =~= node.rest.entries());
}

/// A value put in front of a chain hides nothing of another type.
pub proof fn lemma_insert_keeps_others<V: 'static, R: Chain, T: 'static>(node: Ty<V, R>)
    requires
        !is_a::<T>(erase(node.val)),
    ensures
        lookup::<T>(node.entries()) == lookup::<T>(node.rest.entries()),
{
    lemma_position_cons::<T>(erase(node.val), node.rest.entries());
    lemma_position_is_first::<T>(node.rest.entries());
}

/// An overwrite of a `T` fails exactly where none of the entries that can
/// be overwritten is a `T`.
pub proof fn lemma_no_target_iff_no_entry<T: 'static>(entries: Seq<Entry>, writable: nat)
    requires
        writable <= entries.len(),
    ensures
        target::<T>(entries, writable) is None <==> forall|i: int|
            0 <= i < writable ==> !is_a::<T>(#[trigger] entries[i]),
{
    let front = entries.take(writable as int);
    lemma_position_is_first::<T>(front);
    assert forall|i: int| 0 <= i < writable implies #[trigger] entries[i] == front[i] by {}
}

/// Through a shared borrow no overwrite succeeds, whatever the chain holds.
pub proof fn lemma_shared_borrow_refuses<V: 'static, R: Chain, T: 'static>(chain: &Ty<V, R>)
    ensures
        Chain::writable(&chain) == 0,
        target::<T>(Chain::entries(&chain), Chain::writable(&chain)) is None,
{
}

/// The entry that an overwrite of a `T` reaches is the one that a lookup of
/// a `T` finds.
pub proof fn lemma_target_is_position<T: 'static>(entries: Seq<Entry>, writable: nat)
    requires
        writable <= entries.len(),
        target::<T>(entries, writable) is Some,
    ensures
        position::<T>(entries) == target::<T>(entries, writable),
{
    let front = entries.take(writable as int);
    lemma_position_is_first::<T>(front);
    lemma_position_is_first::<T>(entries);
    let i = target::<T>(entries, writable).unwrap();
    assert(entries[i] == front[i]);
    assert forall|j: int| 0 <= j < i implies !is_a::<T>(#[trigger] entries[j]) by {
        assert(entries[j] == front[j]);
    }
}

/// After an overwrite of a `T`, a lookup of a `T` finds the value written.
pub proof fn lemma_write_then_read<T: 'static>(entries: Seq<Entry>, writable: nat, value: T)
    requires
        writable <= entries.len(),
        target::<T>(entries, writable) is Some,
    ensures
        lookup::<T>(entries.update(target::<T>(entries, writable).unwrap(), erase(value))) == Some(
            erase(value),
        ),
{
    lemma_target_is_position::<T>(entries, writable);
    lemma_position_is_first::<T>(entries);
    let i = position::<T>(entries).unwrap();
    let after = entries.update(i, erase(value));
    lemma_erased_is_a::<T>(value);
    assert(after[i] == erase(value));
    assert forall|j: int| 0 <= j < i implies !is_a::<T>(#[trigger] after[j]) by {
        assert(after[j] == entries[j]);
    }
    lemma_position_is_first::<T>(after);
}

/// An overwrite changes one entry and no other, and a lookup of a type that
/// neither the old nor the new value of that entry belongs to finds what it
/// found before.
pub proof fn lemma_write_keeps_others<U: 'static>(entries: Seq<Entry>, i: int, written: Entry)
    requires
        0 <= i < entries.len(),
        !is_a::<U>(entries[i]),
        !is_a::<U>(written),
    ensures
        forall|j: int|
            0 <= j < entries.len() && j != i ==> entries.update(i, written)[j] == entries[j],
        lookup::<U>(entries.update(i, written)) == lookup::<U>(entries),
{
    let after = entries.update(i, written);
    lemma_position_is_first::<U>(entries);
    lemma_position_is_first::<U>(after);
    assert forall|j: int| 0 <= j < entries.len() implies (is_a::<U>(#[trigger] after[j])
        <==> is_a::<U>(entries[j])) by {}
    match (position::<U>(entries), position::<U>(after)) {
        (Some(p), Some(q)) => {
            assert(is_a::<U>(after[p]) && is_a::<U>(entries[q]));
        },
        (Some(p), None) => {
            assert(is_a::<U>(after[p]));
        },
        (None, Some(q)) => {
            assert(is_a::<U>(entries[q]));
        },
        (None, None) => {},
    }
}

} // verus!
