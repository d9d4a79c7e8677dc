//! Overwriting a value by its type.
use crate::chain::{Chain, Ty, TyEnd};
use crate::stored::{
    downcast_mut, erase, lemma_erased_is_a, lemma_position_is_first, lemma_target_cons, target,
};
use vstd::prelude::*;

verus! {

/// Marks a chain as one to overwrite a `T` in.
///
/// It holds of every owned or exclusively borrowed node and every `T`:
/// whether a `T` can be overwritten is a matter of the chain's entries, and
/// is asked for by the `requires` of [`TypeMapSet::set`].
pub trait ContainsMut<T>: TypeMapSet {}

/// Overwriting by type.
pub trait TypeMapSet: Chain {
    /// Overwrites the newest stored value of type `T` if this chain may
    /// write to it, and says whether it did. No other entry changes, and
    /// where nothing is overwritten the chain is left as it was.
    fn try_set<T: 'static>(&mut self, value: T) -> (done: bool)
        ensures
            done == (target::<T>(old(self).entries(), old(self).writable()) is Some),
            final(self).writable() == old(self).writable(),
            final(self).entries() == match target::<T>(old(self).entries(), old(self).writable()) {
                Some(i) => old(self).entries().update(i, erase(value)),
                None => old(self).entries(),
            },
    ;

    /// Overwrites the newest stored value of type `T`, which must be there
    /// and within reach of this chain.
    ///
    /// Called where it is not, from code that is not verified, it panics.
    fn set<T: 'static>(&mut self, value: T)
        requires
            target::<T>(old(self).entries(), old(self).writable()) is Some,
        ensures
            final(self).writable() == old(self).writable(),
            final(self).entries() == old(self).entries().update(
                target::<T>(old(self).entries(), old(self).writable()).unwrap(),
                erase(value),
            ),
    {
        let done = if self.try_set(value) {
            Some(())
        } else {
            None
        };
        done.expect("Cannot set type! Check for errors ahead of time by verifying the caller.")
    }
}

impl TypeMapSet for TyEnd {
    fn try_set<T: 'static>(&mut self, _value: T) -> (done: bool) {
        false
    }
}

impl<V: 'static, R: TypeMapSet> TypeMapSet for &Ty<V, R> {
    /// A shared borrow refuses every overwrite.
    fn try_set<T: 'static>(&mut self, _value: T) -> (done: bool)
        ensures
            !done,
            **final(self) == **old(self),
    {
        false
    }
}

impl<A: 'static, B: 'static, R: TypeMapSet> ContainsMut<A> for Ty<B, R> {}

impl<V: 'static, R: TypeMapSet> TypeMapSet for Ty<V, R> {
    fn try_set<T: 'static>(&mut self, value: T) -> (done: bool) {
        let ghost head = erase(self.val);
        let ghost rest = self.rest.entries();
        proof {
            self.rest.lemma_writable_bound();
            lemma_target_cons::<T>(head, rest, self.rest.writable());
            lemma_position_is_first::<T>(rest.take(self.rest.writable() as int));
        }
        match downcast_mut::<V, T>(&mut self.val) {
            Some(slot) => {
                proof {
                    lemma_erased_is_a::<T>(*slot);
                }
                *slot = value;
                proof {
                    assert(self.entries() =~= (seq![head] + rest).update(0, erase(value)));
                }
                true
            },
            None => {
                let done = self.rest.try_set(value);
                proof {
                    assert(self.entries() =~= match target::<T>(rest, old(self).rest.writable()) {
                        Some(i) => (seq![head] + rest).update(i + 1, erase(value)),
                        None => seq![head] + rest,
                    });
                }
                done
            },
        }
    }
}

impl<A: 'static, B: 'static, R: TypeMapSet> ContainsMut<A> for &mut Ty<B, R> where
    Ty<B, R>: TypeMapSet + ContainsMut<A>,
 {}

impl<V: 'static, R: TypeMapSet> TypeMapSet for &mut Ty<V, R> {
    /// The overwrite is made in the borrowed chain, and the borrow stays the
    /// borrow it was: once it ends, its owner holds what the contract says
    /// of the entries.
    fn try_set<T: 'static>(&mut self, value: T) -> (done: bool)
        ensures
            *final(*final(self)) == *final(*old(self)),
    {
        (**self).try_set(value)
    }

    /// As `try_set`: the overwrite is made in the borrowed chain, and the
    /// borrow stays the borrow it was.
    fn set<T: 'static>(&mut self, value: T)
        ensures
            *final(*final(self)) == *final(*old(self)),
    {
        (**self).set(value)
    }
}

} // verus!
