//! Looking a value up by its type.
use crate::chain::{Chain, Ty, TyEnd};
use crate::stored::{
    downcast_ref, erase, faithful, lemma_erased_is_a, lemma_position_cons,
    lemma_position_is_first, lookup, plain,
};
use vstd::prelude::*;

verus! {

/// Marks a chain as one to look a `T` up in.
///
/// It holds of every node and every `T`: whether a `T` is there is a
/// matter of the chain's entries, and is asked for by the `requires` of
/// [`TypeMapGet::get`].
pub trait Contains<T>: TypeMapGet {}

/// Lookup by type.
pub trait TypeMapGet: Chain {
    /// The newest stored value of type `T`, or `None` where no entry is a
    /// `T`.
    ///
    /// The value handed back makes the entry that the lookup finds. Where
    /// `T` is plain it is the only `T` to do so, which tells its value: it
    /// is the `v` for which the entry is `erase(v)`.
    fn try_get<T: 'static>(&self) -> (r: Option<&T>)
        ensures
            match r {
                Some(t) => {
                    &&& lookup::<T>(self.entries()) == Some(erase(*t))
                    &&& plain::<T>() ==> faithful(*t)
                },
                None => lookup::<T>(self.entries()) is None,
            },
    ;

    /// The newest stored value of type `T`, which must be there. It is
    /// what `try_get` hands back.
    ///
    /// Called where no entry is a `T`, from code that is not verified, it
    /// panics.
    fn get<T: 'static>(&self) -> (r: &T)
        requires
            lookup::<T>(self.entries()) is Some,
        ensures
            lookup::<T>(self.entries()) == Some(erase(*r)),
            plain::<T>() ==> faithful(*r),
    {
        self.try_get().expect(
            "Does not contain type! Check for errors ahead of time by verifying the caller.",
        )
    }
}

impl TypeMapGet for TyEnd {
    fn try_get<T: 'static>(&self) -> (r: Option<&T>) {
        None
    }
}

impl<A: 'static, B: 'static, R: TypeMapGet> Contains<A> for Ty<B, R> {}

impl<V: 'static, R: TypeMapGet> TypeMapGet for Ty<V, R> {
    fn try_get<T: 'static>(&self) -> (r: Option<&T>) {
        proof {
            lemma_position_cons::<T>(erase(self.val), self.rest.entries());
            lemma_position_is_first::<T>(self.rest.entries());
        }
        match downcast_ref::<V, T>(&self.val) {
            Some(t) => {
                proof {
                    lemma_erased_is_a::<T>(*t);
                }
                Some(t)
            },
            None => self.rest.try_get::<T>(),
        }
    }
}

impl<A: 'static, B: 'static, R: TypeMapGet> Contains<A> for &Ty<B, R> where Ty<B, R>: Contains<A> {}

impl<V: 'static, R: TypeMapGet> TypeMapGet for &Ty<V, R> {
    fn try_get<T: 'static>(&self) -> (r: Option<&T>) {
        Ty::<V, R>::try_get(*self)
    }
}

impl<A: 'static, B: 'static, R: TypeMapGet> Contains<A> for &mut Ty<B, R> where
    Ty<B, R>: Contains<A>,
 {}

impl<V: 'static, R: TypeMapGet> TypeMapGet for &mut Ty<V, R> {
    fn try_get<T: 'static>(&self) -> (r: Option<&T>) {
        Ty::<V, R>::try_get(*self)
    }
}

} // verus!
