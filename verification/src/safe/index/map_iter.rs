//! Walking a vector map with the index of each element.
//!
//! Both iterators yield pairs of an index and an element, by ascending index.
//! [`IndexIter`] borrows the map and yields references; a map can be walked
//! so as often as one likes. [`IntoIndexIter`] takes the map and yields the
//! elements themselves. The view of each is the pairs that it has yet to
//! yield.

use vstd::prelude::*;
use vstd::std_specs::iter::IteratorSpecImpl;
use crate::safe::index::map::IndexVecMap;
use crate::safe::index::wrap::IndexType;
use crate::safe::index::wrap::group_index_type;

verus! {

broadcast use group_index_type;

/// The elements of `elems` in order, each with its index, where the first
/// one has the index `first`.
pub open spec fn indexed<D, T>(first: usize, elems: Seq<T>) -> Seq<(IndexType<D>, T)> {
    Seq::new(elems.len(), |k: int| (IndexType::spec_from_raw((first + k) as usize), elems[k]))
}

/// Iterator over the elements of a map and their indices, by reference.
pub struct IndexIter<'a, D, T> {
    cursor: IndexType<D>,
    map: &'a IndexVecMap<D, T>,
}

impl<'a, D, T> View for IndexIter<'a, D, T> {
    type V = Seq<(IndexType<D>, T)>;

    /// The pairs that are yet to come: the elements from the cursor on.
    closed spec fn view(&self) -> Seq<(IndexType<D>, T)> {
        if self.cursor@ <= self.map@.len() {
            indexed(self.cursor@, self.map@.skip(self.cursor@ as int))
        } else {
            Seq::empty()
        }
    }
}

impl<'a, D, T> IndexIter<'a, D, T> {
    /// Creates an iterator starting at 0.
    pub(crate) fn mk_ref(map: &'a IndexVecMap<D, T>) -> (it: Self)
        ensures
            it@ == indexed::<D, T>(0, map@),
    {
        let it = IndexIter { cursor: IndexType::zero(), map };
        assert(map@.skip(0) =~= map@);
        it
    }
}

impl<'a, D, T> Iterator for IndexIter<'a, D, T> {
    type Item = (IndexType<D>, &'a T);

    /// Yields the next pair, if one is left.
    fn next(&mut self) -> (ret: Option<(IndexType<D>, &'a T)>)
        ensures
            old(self)@.len() == 0 ==> ret.is_none() && final(self)@ == old(self)@,
            old(self)@.len() > 0 ==> ret == Some((old(self)@[0].0, &old(self)@[0].1)) && final(self)@ == old(self)@.drop_first(),
    {
        let map: &'a IndexVecMap<D, T> = self.map;
        if self.cursor >= map.len() {
            None
        } else {
            let res = (self.cursor, map.get(self.cursor));
            self.cursor.increment();
            assert(self@ =~= old(self)@.drop_first());
            Some(res)
        }
    }
}

impl<'a, D, T> IteratorSpecImpl for IndexIter<'a, D, T> {
    open spec fn obeys_prophetic_iter_laws(&self) -> bool {
        true
    }

    open spec fn remaining(&self) -> Seq<Self::Item> {
        Seq::new(self@.len(), |k: int| (self@[k].0, &self@[k].1))
    }

    open spec fn will_return_none(&self) -> bool {
        true
    }

    open spec fn decrease(&self) -> Option<nat> {
        Some(self@.len())
    }

    open spec fn initial_value_relation(&self, init: &Self) -> bool {
        init@ == self@
    }

    open spec fn peek(&self, index: int) -> Option<Self::Item> {
        if 0 <= index < self@.len() {
            Some((self@[index].0, &self@[index].1))
        } else {
            None
        }
    }
}

/// Iterator over the elements of a map and their indices, by value.
///
/// The map is turned round once, when the iterator is made. After that the
/// element of the lowest index is the last one, where taking it out costs
/// nothing.
pub struct IntoIndexIter<D, T> {
    cursor: IndexType<D>,
    map: IndexVecMap<D, T>,
}

impl<D, T> View for IntoIndexIter<D, T> {
    type V = Seq<(IndexType<D>, T)>;

    /// The pairs that are yet to come: what is left of the map, last element
    /// first, counted from the cursor.
    closed spec fn view(&self) -> Seq<(IndexType<D>, T)> {
        indexed(self.cursor@, self.map@.reverse())
    }
}

impl<D, T> IntoIndexIter<D, T> {
    /// Every element that is left has an index.
    #[verifier::type_invariant]
    spec fn inv(self) -> bool {
        self.cursor@ + self.map@.len() <= usize::MAX
    }

    /// Creates an iterator starting at 0.
    pub(crate) fn new(map: IndexVecMap<D, T>) -> (it: Self)
        ensures
            it@ == indexed::<D, T>(0, map@),
    {
        let mut map = map;
        let ghost elems = map@;
        map.reverse();
        assert(map@.reverse() =~= elems);
        proof {
            map.lemma_len_fits();
        }
        IntoIndexIter { cursor: IndexType::zero(), map }
    }
}

impl<D, T> Iterator for IntoIndexIter<D, T> {
    type Item = (IndexType<D>, T);

    /// Yields the next pair, if one is left.
    fn next(&mut self) -> (ret: Option<(IndexType<D>, T)>)
        ensures
            old(self)@.len() == 0 ==> ret.is_none() && final(self)@ == old(self)@,
            old(self)@.len() > 0 ==> ret == Some(old(self)@[0]) && final(self)@ == old(self)@.drop_first(),
    {
        proof {
            use_type_invariant(&*self);
        }
        // The map is taken out while it shrinks and put back after the cursor
        // has moved: the invariant holds at each step in between.
        let mut map = IndexVecMap::new();
        core::mem::swap(&mut map, &mut self.map);
        let ret = match map.pop() {
            Some(elem) => {
                let res = (self.cursor, elem);
                self.cursor = IndexType::from_raw(self.cursor.raw() + 1);
                Some(res)
            },
            None => None,
        };
        core::mem::swap(&mut map, &mut self.map);
        assert(old(self)@.len() > 0 ==> self@ =~= old(self)@.drop_first());
        ret
    }
}

impl<D, T> IteratorSpecImpl for IntoIndexIter<D, T> {
    open spec fn obeys_prophetic_iter_laws(&self) -> bool {
        true
    }

    open spec fn remaining(&self) -> Seq<Self::Item> {
        self@
    }

    open spec fn will_return_none(&self) -> bool {
        true
    }

    open spec fn decrease(&self) -> Option<nat> {
        Some(self@.len())
    }

    open spec fn initial_value_relation(&self, init: &Self) -> bool {
        init@ == self@
    }

    open spec fn peek(&self, index: int) -> Option<Self::Item> {
        if 0 <= index < self@.len() {
            Some(self@[index])
        } else {
            None
        }
    }
}

} // verus!
