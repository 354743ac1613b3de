//! Strongly-typed indices, and the collections indexed by them.
//!
//! Values that are positions in the tables of one domain get a type of their
//! own, so that they cannot be taken for positions of another domain, and
//! cost what a `usize` costs. The index and its collections are in
//! [`safe::index`]; [`coll`] holds a helper on iterators.

pub mod coll;
pub mod safe;
