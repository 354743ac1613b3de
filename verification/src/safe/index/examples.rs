//! A domain of indices, declared in full: the indices of variables.
//!
//! One tag, [`VarTag`], binds the index, its range, its hash set, its hash
//! map, its vector map and the iterators of that map to one another: each
//! of them takes the indices of variables and no others. A part that is not
//! wanted is left out by not naming it. A second domain is made in the same
//! way from a second tag.

use vstd::prelude::*;
use crate::safe::index::hmap::IntHMap;
use crate::safe::index::hset::IntHSet;
use crate::safe::index::map::IndexVecMap;
use crate::safe::index::map_iter::IndexIter;
use crate::safe::index::map_iter::IntoIndexIter;
use crate::safe::index::range::IndexRange;
use crate::safe::index::wrap::IndexType;

verus! {

/// The domain of variables. The type stands for the domain and holds
/// nothing.
#[derive(Debug, Clone, Copy, PartialEq, Eq, PartialOrd, Ord, Hash)]
pub struct VarTag;

/// Index of a variable.
pub type VarIndex = IndexType<VarTag>;

/// Range over `VarIndex`.
pub type VarRange = IndexRange<VarTag>;

/// Set of variable indices.
pub type VarSet = IntHSet<VarIndex>;

/// Map of variable indices.
pub type VarHMap<V> = IntHMap<VarIndex, V>;

/// Vector indexed by variable indices.
pub type VarMap<T> = IndexVecMap<VarTag, T>;

/// Iterator over a `VarMap` and the indices of its elements, by reference.
pub type VarMapIter<'a, T> = IndexIter<'a, VarTag, T>;

/// Iterator over a `VarMap` and the indices of its elements, by value.
pub type VarMapIntoIter<T> = IntoIndexIter<VarTag, T>;

} // verus!
