//! The two building blocks of a chain, and what a chain holds.
use crate::private::Sealed;
use crate::stored::{erase, Entry};
use vstd::prelude::*;

verus! {

/// One node of a chain: a value and the rest of the chain.
///
/// The rest is another node, [`TyEnd`], or a shared or exclusive borrow of a
/// node. `Ty<u32, Ty<u16, TyEnd>>` holds a `u32` and a `u16`.
#[derive(Copy, Clone, Eq, PartialEq, Debug, Default)]
pub struct Ty<V: 'static, R> {
    /// The value of this node.
    pub val: V,
    /// What the chain holds beyond this node.
    pub rest: R,
}

/// The end of a chain, which holds nothing.
#[derive(Copy, Clone, Eq, PartialEq, Debug, Default)]
pub struct TyEnd;

impl<V: 'static, R> Ty<V, R> {
    /// Puts `val` in front of `rest`.
    pub fn new(val: V, rest: R) -> (node: Self)
        ensures
            node.val == val,
            node.rest == rest,
    {
        Ty { val, rest }
    }
}

/// What a chain holds. This is the model that the contracts of lookups and
/// overwrites are written in.
pub trait Chain: Sealed {
    /// The stored values, newest first.
    spec fn entries(&self) -> Seq<Entry>;

    /// How many of the entries, counted from the newest, can be overwritten
    /// through this chain: those in front of the first shared borrow.
    spec fn writable(&self) -> nat;

    /// Only entries can be overwritten.
    proof fn lemma_writable_bound(&self)
        ensures
            self.writable() <= self.entries().len(),
    ;
}

impl Chain for TyEnd {
    open spec fn entries(&self) -> Seq<Entry> {
        Seq::empty()
    }

    open spec fn writable(&self) -> nat {
        0
    }

    proof fn lemma_writable_bound(&self) {
    }
}

impl<V: 'static, R: Chain> Chain for Ty<V, R> {
    open spec fn entries(&self) -> Seq<Entry> {
        seq![erase(self.val)] + self.rest.entries()
    }

    open spec fn writable(&self) -> nat {
        1 + self.rest.writable()
    }

    proof fn lemma_writable_bound(&self) {
        self.rest.lemma_writable_bound();
    }
}

impl<V: 'static, R: Chain> Chain for &Ty<V, R> {
    open spec fn entries(&self) -> Seq<Entry> {
        (**self).entries()
    }

    open spec fn writable(&self) -> nat {
        0
    }

    proof fn lemma_writable_bound(&self) {
    }
}

impl<V: 'static, R: Chain> Chain for &mut Ty<V, R> {
    open spec fn entries(&self) -> Seq<Entry> {
        (**self).entries()
    }

    open spec fn writable(&self) -> nat {
        (**self).writable()
    }

    proof fn lemma_writable_bound(&self) {
        (**self).lemma_writable_bound();
    }
}

} // verus!
