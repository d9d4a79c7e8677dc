//! Keeps the set of chain shapes closed.
use crate::chain::{Ty, TyEnd};
use vstd::prelude::*;

verus! {

/// Implemented by the chain shapes of this crate. It cannot be named from
/// outside, so nothing else can be a chain.
pub trait Sealed {}

impl<T: 'static, R> Sealed for Ty<T, R> {}

impl<T: 'static, R> Sealed for &Ty<T, R> {}

impl<T: 'static, R> Sealed for &mut Ty<T, R> {}

impl Sealed for TyEnd {}

} // verus!
