//! A map from a type to a value of that type, built as a chain of nodes
//! that needs no allocation.
//!
//! A chain is a [`Ty`] holding one value and the rest of the chain, ended by
//! [`TyEnd`]. The rest may be owned or borrowed, so a chain can be extended
//! for a while and the chain underneath used again afterwards.
//!
//! Every contract speaks of a chain through its entries: the sequence of the
//! stored values, newest first, each taken together with its type (see
//! [`stored`] and [`Chain`]). [`laws`] states what follows for lookups and
//! overwrites.
//!
//! Whether two types are the same is found out when the program runs. Ahead
//! of that the verifier can tell two types apart only by their sizes, which
//! the entries record: it knows that a `u64` is no `u8`, and does not know
//! that a `u8` is no `i8`. A lookup finds the newest entry of the type
//! asked for, and where the verifier cannot tell which entry that is, the
//! contract still holds of whichever it is.
//!
//! [`Contains`] and [`ContainsMut`] hold of every chain and every type, so a
//! bound on them promises nothing. What makes [`TypeMapGet::get`] and
//! [`TypeMapSet::set`] safe to call is their `requires`, which the verifier
//! holds every verified caller to. Code that is not verified still gets the
//! panic.

pub mod laws;
pub mod stored;

mod chain;
mod get;
mod private;
mod set;

pub use chain::{Chain, Ty, TyEnd};
pub use get::{Contains, TypeMapGet};
pub use set::{ContainsMut, TypeMapSet};
