//! Stored values taken together with their types, and lookups in a sequence
//! of them.
//!
//! A chain holds values of many types, so its model cannot be a sequence of
//! one value type. Each stored value is modelled by its [`Entry`]: the value
//! as a trait object, which stands for the value and its type at once, and
//! the size of that type. Of a trait object nothing is known but the value
//! it was made from, so entries of two types are known to differ only where
//! the sizes of the types do. Beyond that, what [`downcast_ref`] and
//! [`downcast_mut`] report is the only way to learn whether an entry is a
//! value of a given type.
use core::any::Any;
use vstd::layout::size_of;
use vstd::prelude::*;

verus! {

/// Anything a chain can hold. Every `'static` type is `Stored`.
pub trait Stored {}

impl<T: 'static> Stored for T {}

/// A stored value together with its type.
pub struct Entry {
    /// The value, as a trait object.
    pub object: Box<dyn Stored>,
    /// The size of the value's type. Types of different sizes are different
    /// types, and this is how the verifier can tell.
    pub size: Ghost<nat>,
}

/// The entry that a value makes.
pub open spec fn erase<T: 'static>(value: T) -> Entry {
    Entry { object: Box::new(value), size: Ghost(size_of::<T>()) }
}

/// Whether an entry is a value of type `T`.
pub open spec fn is_a<T: 'static>(entry: Entry) -> bool {
    exists|t: T| (#[trigger] erase::<T>(t)) == entry
}

/// Whether `code` gives different values of `T` different sequences.
pub open spec fn tells_apart<T>(code: spec_fn(T) -> Seq<int>) -> bool {
    forall|a: T, b: T| #[trigger] code(a) == #[trigger] code(b) ==> a == b
}

/// Whether the values of `T` can be told apart by sequences of integers,
/// as those of any type of plain data can.
///
/// A type with ghost content may have more values than there are entries: a
/// ghost set of entries has. No entry can tell the values of such a type
/// apart, and `plain` leaves those types out.
pub open spec fn plain<T>() -> bool {
    exists|code: spec_fn(T) -> Seq<int>| tells_apart(code)
}

/// Whether `value` is the only `T` that makes its entry, so that the entry
/// tells the value.
pub open spec fn faithful<T: 'static>(value: T) -> bool {
    forall|other: T| (#[trigger] erase::<T>(other)) == erase(value) ==> other == value
}

/// The index of the first entry that is a `T`, if there is one.
///
/// The definition goes entry by entry, so a proof about a chain written out
/// with `n` nodes asks for `reveal_with_fuel(position, n + 1)`;
/// [`lemma_position_is_first`] says the same without unfolding.
pub open spec fn position<T: 'static>(entries: Seq<Entry>) -> Option<int>
    decreases entries.len(),
{
    if entries.len() == 0 {
        None
    } else if is_a::<T>(entries[0]) {
        Some(0)
    } else {
        match position::<T>(entries.drop_first()) {
            Some(i) => Some(i + 1),
            None => None,
        }
    }
}

/// The first entry that is a `T`, if there is one: what a lookup finds.
pub open spec fn lookup<T: 'static>(entries: Seq<Entry>) -> Option<Entry> {
    match position::<T>(entries) {
        Some(i) => Some(entries[i]),
        None => None,
    }
}

/// The index of the entry that an overwrite of a `T` reaches, where only
/// the first `writable` entries can be overwritten: the first of them that
/// is a `T`.
pub open spec fn target<T: 'static>(entries: Seq<Entry>, writable: nat) -> Option<int> {
    position::<T>(entries.take(writable as int))
}

/// The entry that a `T` makes is a `T`.
pub proof fn lemma_erased_is_a<T: 'static>(value: T)
    ensures
        is_a::<T>(erase(value)),
{
    let entry = erase::<T>(value);
    assert(erase::<T>(value) == entry);
}

/// A type is plain where `code` tells its values apart.
pub proof fn lemma_plain_by_code<T>(code: spec_fn(T) -> Seq<int>)
    requires
        tells_apart(code),
    ensures
        plain::<T>(),
{
}

/// A type is plain where `number` gives different values different numbers.
pub proof fn lemma_plain_by_number<T>(number: spec_fn(T) -> int)
    requires
        forall|a: T, b: T| #[trigger] number(a) == #[trigger] number(b) ==> a == b,
    ensures
        plain::<T>(),
{
    let code = |a: T| seq![number(a)];
    assert forall|a: T, b: T| #[trigger] code(a) == #[trigger] code(b) implies a == b by {
        assert(code(a)[0] == number(a));
        assert(code(b)[0] == number(b));
    }
    lemma_plain_by_code::<T>(code);
}

/// The integer types, `bool` and `char` are plain.
pub proof fn lemma_plain_primitives()
    ensures
        plain::<u8>(),
        plain::<u16>(),
        plain::<u32>(),
        plain::<u64>(),
        plain::<u128>(),
        plain::<usize>(),
        plain::<i8>(),
        plain::<i16>(),
        plain::<i32>(),
        plain::<i64>(),
        plain::<i128>(),
        plain::<isize>(),
        plain::<bool>(),
        plain::<char>(),
{
    lemma_plain_by_number::<u8>(|a: u8| a as int);
    lemma_plain_by_number::<u16>(|a: u16| a as int);
    lemma_plain_by_number::<u32>(|a: u32| a as int);
    lemma_plain_by_number::<u64>(|a: u64| a as int);
    lemma_plain_by_number::<u128>(|a: u128| a as int);
    lemma_plain_by_number::<usize>(|a: usize| a as int);
    lemma_plain_by_number::<i8>(|a: i8| a as int);
    lemma_plain_by_number::<i16>(|a: i16| a as int);
    lemma_plain_by_number::<i32>(|a: i32| a as int);
    lemma_plain_by_number::<i64>(|a: i64| a as int);
    lemma_plain_by_number::<i128>(|a: i128| a as int);
    lemma_plain_by_number::<isize>(|a: isize| a as int);
    lemma_plain_by_number::<bool>(|a: bool| if a { 1int } else { 0int });
    lemma_plain_by_number::<char>(|a: char| a as int);
}

/// `position` gives the first entry that is a `T`, and gives none only
/// where no entry is a `T`.
pub proof fn lemma_position_is_first<T: 'static>(entries: Seq<Entry>)
    ensures
        match position::<T>(entries) {
            Some(i) => {
                &&& 0 <= i < entries.len()
                &&& is_a::<T>(entries[i])
                &&& forall|j: int| 0 <= j < i ==> !is_a::<T>(#[trigger] entries[j])
            },
            None => forall|j: int| 0 <= j < entries.len() ==> !is_a::<T>(#[trigger] entries[j]),
        },
    decreases entries.len(),
{
    if entries.len() > 0 && !is_a::<T>(entries[0]) {
        let rest = entries.drop_first();
        lemma_position_is_first::<T>(rest);
        assert forall|j: int| 1 <= j < entries.len() implies #[trigger] entries[j] == rest[j - 1] by {}
    }
}

/// Looking for a `T` behind one more entry.
pub proof fn lemma_position_cons<T: 'static>(head: Entry, rest: Seq<Entry>)
    ensures
        position::<T>(seq![head] + rest) == if is_a::<T>(head) {
            Some(0int)
        } else {
            match position::<T>(rest) {
                Some(i) => Some(i + 1),
                None => None,
            }
        },
{
    let all = seq![head] + rest;
    assert(all[0] == head);
    assert(all.drop_first() =~= rest);
}

/// Overwriting a `T` behind one more entry that can be overwritten.
pub proof fn lemma_target_cons<T: 'static>(head: Entry, rest: Seq<Entry>, writable: nat)
    requires
        writable <= rest.len(),
    ensures
        target::<T>(seq![head] + rest, 1 + writable) == if is_a::<T>(head) {
            Some(0int)
        } else {
            match target::<T>(rest, writable) {
                Some(i) => Some(i + 1),
                None => None,
            }
        },
{
    assert((seq![head] + rest).take((1 + writable) as int) =~= seq![head] + rest.take(
        writable as int,
    ));
    lemma_position_cons::<T>(head, rest.take(writable as int));
}

/// `<dyn Any>::downcast_ref::<T>` on a `V`.
///
/// Trusted: where `V` is the type `T` it hands back the value itself, which
/// makes the entry that `value` makes and, `T` being plain, is the only `T`
/// to make it; where `V` is another type it hands back nothing, and no `T`
/// makes that entry.
#[verifier::external_body]
pub(crate) fn downcast_ref<V: 'static, T: 'static>(value: &V) -> (r: Option<&T>)
    ensures
        match r {
            Some(t) => erase(*t) == erase(*value) && (plain::<T>() ==> faithful(*t)),
            None => !is_a::<T>(erase(*value)),
        },
{
    <dyn Any>::downcast_ref::<T>(value)
}

/// `<dyn Any>::downcast_mut::<T>` on a `V`.
///
/// Trusted: where `V` is the type `T` it hands back the value itself, so
/// that `value` ends as what the result ends as; where `V` is another type
/// it hands back nothing, no `T` makes that entry, and `value` is left as
/// it was.
#[verifier::external_body]
pub(crate) fn downcast_mut<V: 'static, T: 'static>(value: &mut V) -> (r: Option<&mut T>)
    ensures
        match r {
            Some(t) => erase(*t) == erase(*old(value)) && erase(*final(t)) == erase(*final(value)),
            None => !is_a::<T>(erase(*old(value))) && *final(value) == *old(value),
        },
{
    <dyn Any>::downcast_mut::<T>(value)
}

} // verus!
