//! Helpers on collections.

use vstd::prelude::*;
use vstd::std_specs::iter::IteratorSpec;
use vstd::std_specs::iter::IteratorSpecImpl;

verus! {

/// Adds one element at the end of an iterator.
///
/// What a `ChainOne` yields is told step by step, by the contract of its
/// `next`, in terms of what the iterator inside is going to yield. It makes
/// no promise of its own on the whole of what is to come.
pub struct ChainOne<Elem, I> {
    // The iterator.
    iter: I,
    // The element at the end of it.
    and_then: Option<Elem>,
}

impl<Elem, I> ChainOne<Elem, I> {
    /// The iterator inside.
    pub closed spec fn inner(&self) -> I {
        self.iter
    }

    /// The element that comes after the iterator inside is done, as long as
    /// it has not been yielded.
    pub closed spec fn tail(&self) -> Option<Elem> {
        self.and_then
    }
}

impl<Elem, I> Iterator for ChainOne<Elem, I> where I: Iterator<Item = Elem> {
    type Item = Elem;

    /// Yields what the iterator inside yields, as long as it yields
    /// something; then the element at the end, once; then nothing.
    fn next(&mut self) -> (ret: Option<Elem>)
        ensures
            old(self).inner().obeys_prophetic_iter_laws() ==> final(self).inner().obeys_prophetic_iter_laws(),
            old(self).inner().obeys_prophetic_iter_laws() && old(self).inner().remaining().len()
                > 0 ==> {
                &&& ret == Some(old(self).inner().remaining()[0])
                &&& final(self).inner().remaining() == old(self).inner().remaining().drop_first()
                &&& final(self).tail() == old(self).tail()
            },
            old(self).inner().obeys_prophetic_iter_laws() && old(self).inner().remaining().len()
                == 0 ==> {
                &&& ret == old(self).tail()
                &&& final(self).inner().remaining() == old(self).inner().remaining()
                &&& final(self).tail().is_none()
            },
    {
        let next = self.iter.next();
        if next.is_some() {
            next
        } else {
            let mut res = None;
            core::mem::swap(&mut self.and_then, &mut res);
            res
        }
    }
}

impl<Elem, I> IteratorSpecImpl for ChainOne<Elem, I> where I: Iterator<Item = Elem> {
    open spec fn obeys_prophetic_iter_laws(&self) -> bool {
        false
    }

    open spec fn remaining(&self) -> Seq<Self::Item> {
        Seq::empty()
    }

    open spec fn will_return_none(&self) -> bool {
        false
    }

    open spec fn decrease(&self) -> Option<nat> {
        None
    }

    open spec fn initial_value_relation(&self, init: &Self) -> bool {
        true
    }

    open spec fn peek(&self, index: int) -> Option<Self::Item> {
        None
    }
}

/// Adds `chain_one` to iterators.
pub trait ChainOneExt<Elem>: Sized {
    /// Chains one element at the end of an iterator.
    fn chain_one(self, elem: Elem) -> (r: ChainOne<Elem, Self>)
        ensures
            r.inner() == self,
            r.tail() == Some(elem),
    ;
}

impl<Elem, T> ChainOneExt<Elem> for T where T: Iterator<Item = Elem> {
    fn chain_one(self, elem: Elem) -> (r: ChainOne<Elem, Self>) {
        ChainOne { iter: self, and_then: Some(elem) }
    }
}

} // verus!
