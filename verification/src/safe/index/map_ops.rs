//! Indexing, slicing, converting and walking a vector map with the
//! operators and traits of `std`.
//!
//! `map[i]` takes an index of the domain of the map. `map[a..b]`, `map[a..]`
//! and `map[..b]` take raw positions, for code that knows nothing of
//! indices, and give a plain slice: what is counted in raw positions belongs
//! to no domain.

use vstd::prelude::*;
use vstd::std_specs::convert::FromSpecImpl;
use vstd::std_specs::iter::IteratorSpec;
use core::ops::Index;
use core::ops::IndexMut;
use core::ops::Range;
use core::ops::RangeFrom;
use core::ops::RangeTo;
use core::slice::Iter;
use core::slice::IterMut;
use std::vec::IntoIter;
use crate::safe::index::map::IndexVecMap;
use crate::safe::index::wrap::IndexType;

verus! {

/// The range that has a first position and no last one.
#[verifier::external_type_specification]
#[verifier::reject_recursive_types(Idx)]
pub struct ExRangeFrom<Idx>(RangeFrom<Idx>);

/// The range that has a last position and no first one.
#[verifier::external_type_specification]
#[verifier::reject_recursive_types(Idx)]
pub struct ExRangeTo<Idx>(RangeTo<Idx>);

impl<D, T> Index<IndexType<D>> for IndexVecMap<D, T> {
    type Output = T;

    /// The element of an index of the map.
    fn index(&self, index: IndexType<D>) -> (r: &T)
        ensures
            *r == self@[index@ as int],
    {
        self.get(index)
    }
}

impl<D, T> vstd::std_specs::core::IndexSpecImpl<IndexType<D>> for IndexVecMap<D, T> {
    open spec fn index_req(&self, index: &IndexType<D>) -> bool {
        self.has(*index)
    }
}

impl<D, T> IndexMut<IndexType<D>> for IndexVecMap<D, T> {
    /// The element of an index of the map, open to change.
    fn index_mut(&mut self, index: IndexType<D>) -> (r: &mut T)
        requires
            old(self).has(index),
        ensures
            *r == old(self)@[index@ as int],
            final(self)@ == old(self)@.update(index@ as int, *final(r)),
    {
        self.get_mut(index)
    }
}

impl<D, T> Index<Range<usize>> for IndexVecMap<D, T> {
    type Output = [T];

    /// The elements from the raw position `index.start` up to the raw
    /// position `index.end`.
    fn index(&self, index: Range<usize>) -> (r: &[T])
        ensures
            r@ == self@.subrange(index.start as int, index.end as int),
    {
        self.slice(index.start, index.end)
    }
}

impl<D, T> vstd::std_specs::core::IndexSpecImpl<Range<usize>> for IndexVecMap<D, T> {
    open spec fn index_req(&self, index: &Range<usize>) -> bool {
        index.start <= index.end <= self@.len()
    }
}

impl<D, T> Index<RangeFrom<usize>> for IndexVecMap<D, T> {
    type Output = [T];

    /// The elements from the raw position `index.start` on.
    fn index(&self, index: RangeFrom<usize>) -> (r: &[T])
        ensures
            r@ == self@.subrange(index.start as int, self@.len() as int),
    {
        self.slice(index.start, self.len())
    }
}

impl<D, T> vstd::std_specs::core::IndexSpecImpl<RangeFrom<usize>> for IndexVecMap<D, T> {
    open spec fn index_req(&self, index: &RangeFrom<usize>) -> bool {
        index.start <= self@.len()
    }
}

impl<D, T> Index<RangeTo<usize>> for IndexVecMap<D, T> {
    type Output = [T];

    /// The elements up to the raw position `index.end`.
    fn index(&self, index: RangeTo<usize>) -> (r: &[T])
        ensures
            r@ == self@.subrange(0, index.end as int),
    {
        self.slice(0, index.end)
    }
}

impl<D, T> vstd::std_specs::core::IndexSpecImpl<RangeTo<usize>> for IndexVecMap<D, T> {
    open spec fn index_req(&self, index: &RangeTo<usize>) -> bool {
        index.end <= self@.len()
    }
}

impl<D, T> From<Vec<T>> for IndexVecMap<D, T> {
    /// The same as [`IndexVecMap::of`].
    fn from(vec: Vec<T>) -> (r: Self)
        ensures
            r@ == vec@,
    {
        IndexVecMap::of(vec)
    }
}

impl<D, T> FromSpecImpl<Vec<T>> for IndexVecMap<D, T> {
    open spec fn obeys_from_spec() -> bool {
        true
    }

    open spec fn from_spec(vec: Vec<T>) -> Self {
        Self::spec_of(vec)
    }
}

impl<D, T> IntoIterator for IndexVecMap<D, T> {
    type Item = T;

    type IntoIter = IntoIter<T>;

    /// An iterator that takes the map and yields its elements, in the order
    /// of their indices.
    fn into_iter(self) -> (it: IntoIter<T>)
        ensures
            IteratorSpec::remaining(&it) == self@,
            IteratorSpec::decrease(&it) is Some,
            IteratorSpec::initial_value_relation(&it, &it),
    {
        self.into_vec().into_iter()
    }
}

impl<'a, D, T> IntoIterator for &'a IndexVecMap<D, T> {
    type Item = &'a T;

    type IntoIter = Iter<'a, T>;

    /// The same as [`IndexVecMap::iter`].
    fn into_iter(self) -> (it: Iter<'a, T>)
        ensures
            IteratorSpec::remaining(&it) == self@.as_ref(),
            IteratorSpec::decrease(&it) is Some,
            IteratorSpec::initial_value_relation(&it, &it),
    {
        self.iter()
    }
}

impl<'a, D, T> IntoIterator for &'a mut IndexVecMap<D, T> {
    type Item = &'a mut T;

    type IntoIter = IterMut<'a, T>;

    /// The same as [`IndexVecMap::iter_mut`].
    fn into_iter(self) -> (it: IterMut<'a, T>)
        ensures
            IteratorSpec::obeys_prophetic_iter_laws(&it),
            IteratorSpec::decrease(&it) is Some,
            IteratorSpec::remaining(&it).len() == old(self)@.len(),
            forall|i: int|
                0 <= i < old(self)@.len() ==> *(#[trigger] IteratorSpec::remaining(&it)[i]) == old(
                    self,
                )@[i],
            final(self)@.len() == old(self)@.len(),
            forall|i: int|
                0 <= i < old(self)@.len() ==> #[trigger] final(self)@[i] == *final(IteratorSpec::remaining(&it)[i]),
    {
        self.iter_mut()
    }
}

} // verus!
