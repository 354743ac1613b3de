//! Strongly-typed, zero-cost indices wrapping integers.

use vstd::prelude::*;

pub use crate::safe::index::hmap::IntHMap;
pub use crate::safe::index::hset::IntHSet;

pub mod examples;
pub mod hash;
pub mod hmap;
pub mod hset;
pub mod map;
pub mod map_eq;
pub mod map_iter;
pub mod map_ops;
pub mod order;
pub mod range;
pub mod wrap;

verus! {

/// Trait implemented by wrappers.
///
/// A type implements it exactly when the `usize` returned is a unique
/// identifier for the value: `inner_is_unique` is the proof of that, which
/// each implementation owes.
pub trait IntWrap: Sized {
    /// The integer that stands for `self`.
    spec fn inner_spec(&self) -> usize;

    /// The integer that stands for `self`.
    fn inner(&self) -> (n: usize)
        ensures
            n == self.inner_spec(),
    ;

    /// The integer identifies the wrapper.
    proof fn inner_is_unique(a: &Self, b: &Self)
        requires
            a.inner_spec() == b.inner_spec(),
        ensures
            a == b,
    ;
}

} // verus!
