//! When two vector maps are equal: when they are as long as each other and
//! hold equal elements under each index.

use vstd::prelude::*;
use vstd::std_specs::cmp::PartialEqSpec;
use vstd::std_specs::cmp::PartialEqSpecImpl;
use crate::safe::index::map::IndexVecMap;
use crate::safe::index::wrap::IndexType;

verus! {

impl<D, T: PartialEq> PartialEq for IndexVecMap<D, T> {
    /// Compares the lengths, then the elements by ascending index, up to the
    /// first two that differ.
    fn eq(&self, other: &Self) -> (r: bool)
    {
        if self.len() != other.len() {
            return false;
        }
        let mut idx: IndexType<D> = IndexType::zero();
        while idx < self.len()
            invariant
                self@.len() == other@.len(),
                idx@ <= self@.len(),
                T::obeys_eq_spec() ==> forall|i: int|
                    0 <= i < idx@ ==> PartialEqSpec::eq_spec(&self@[i], &other@[i]),
            decreases self@.len() - idx@,
        {
            if self.get(idx) != other.get(idx) {
                return false;
            }
            idx.increment();
        }
        true
    }
}

impl<D, T: PartialEq> PartialEqSpecImpl for IndexVecMap<D, T> {
    open spec fn obeys_eq_spec() -> bool {
        T::obeys_eq_spec()
    }

    open spec fn eq_spec(&self, other: &Self) -> bool {
        &&& self@.len() == other@.len()
        &&& forall|i: int| 0 <= i < self@.len() ==> PartialEqSpec::eq_spec(&self@[i], &other@[i])
    }
}

impl<D, T: Eq> Eq for IndexVecMap<D, T> {

}

} // verus!
