//! Half-open ranges of indices.
//!
//! An [`IndexRange`] walks the indices from `start`, which it yields, up to
//! `end`, which it does not. Its view is what it has yet to yield. A range
//! is used up by walking it: for a second pass, make a new one.

use vstd::prelude::*;
use vstd::std_specs::iter::IteratorSpecImpl;
use crate::safe::index::wrap::IndexType;
use crate::safe::index::wrap::group_index_type;

verus! {

broadcast use group_index_type;

/// The indices from `start` up to `end`, `end` left out; none if `start` is
/// not below `end`.
pub open spec fn indices_between<D>(start: usize, end: usize) -> Seq<IndexType<D>> {
    Seq::new(
        if start < end {
            (end - start) as nat
        } else {
            0
        },
        |i: int| IndexType::spec_from_raw((start + i) as usize),
    )
}

/// Range over the indices of the domain `D`.
#[derive(Debug)]
pub struct IndexRange<D> {
    start: IndexType<D>,
    end: IndexType<D>,
}

impl<D> View for IndexRange<D> {
    type V = Seq<IndexType<D>>;

    /// The indices that are yet to come, in the order in which they come.
    open spec fn view(&self) -> Seq<IndexType<D>> {
        indices_between(self.start(), self.end())
    }
}

impl<D> IndexRange<D> {
    /// The raw integer of the next index, if one is left.
    pub closed spec fn start(&self) -> usize {
        self.start@
    }

    /// The raw integer of the bound, which is never yielded.
    pub closed spec fn end(&self) -> usize {
        self.end@
    }

    /// Creates a new range.
    pub fn new(start: IndexType<D>, end: IndexType<D>) -> (r: Self)
        ensures
            r.start() == start@,
            r.end() == end@,
            r@ == indices_between::<D>(start@, end@),
    {
        IndexRange { start, end }
    }

    /// Creates a range from `0` to something.
    pub fn zero_to(end: IndexType<D>) -> (r: Self)
        ensures
            r.start() == 0,
            r.end() == end@,
            r@ == indices_between::<D>(0, end@),
    {
        IndexRange { start: IndexType::zero(), end }
    }

    /// What a range yields: as many indices as lie between its bounds, each
    /// one above the one before, the first bound first and the index before
    /// the second bound last. A range whose first bound is not below the
    /// second yields nothing.
    pub proof fn lemma_contents(self)
        ensures
            self.start() < self.end() ==> self@.len() == self.end() - self.start(),
            self.start() >= self.end() ==> self@.len() == 0,
            forall|i: int| 0 <= i < self@.len() ==> (#[trigger] self@[i])@ == self.start() + i,
            forall|i: int, j: int|
                0 <= i < j < self@.len() ==> (#[trigger] self@[i])@ < (#[trigger] self@[j])@,
            self@.len() > 0 ==> self@.first()@ == self.start() && self@.last()@ == self.end() - 1,
    {
    }
}

impl<D> Iterator for IndexRange<D> {
    type Item = IndexType<D>;

    /// Yields the index at `start` and moves `start` one up, as long as
    /// `start` is below `end`; after that, yields nothing.
    fn next(&mut self) -> (ret: Option<IndexType<D>>)
        ensures
            final(self).end() == old(self).end(),
            old(self).start() < old(self).end() ==> ret == Some(
                IndexType::<D>::spec_from_raw(old(self).start()),
            ) && final(self).start() == old(self).start() + 1,
            old(self).start() >= old(self).end() ==> ret.is_none() && final(self).start() == old(
                self,
            ).start(),
    {
        if self.start >= self.end {
            None
        } else {
            let res = self.start;
            self.start.increment();
            assert(self@ =~= old(self)@.drop_first());
            Some(res)
        }
    }
}

impl<D> IteratorSpecImpl for IndexRange<D> {
    open spec fn obeys_prophetic_iter_laws(&self) -> bool {
        true
    }

    open spec fn remaining(&self) -> Seq<Self::Item> {
        self@
    }

    open spec fn will_return_none(&self) -> bool {
        true
    }

    open spec fn decrease(&self) -> Option<nat> {
        Some(self@.len())
    }

    open spec fn initial_value_relation(&self, init: &Self) -> bool {
        init@ == self@
    }

    open spec fn peek(&self, index: int) -> Option<Self::Item> {
        if 0 <= index < self@.len() {
            Some(self@[index])
        } else {
            None
        }
    }
}

} // verus!
