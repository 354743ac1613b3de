//! How indices compare: as their raw integers do.
//!
//! Two indices of one domain compare with `==` and `<`, and so do an index
//! and a raw integer. Indices of two domains do not compare at all.

use vstd::prelude::*;
use vstd::std_specs::cmp::PartialEqSpec;
use vstd::std_specs::cmp::PartialEqSpecImpl;
use vstd::std_specs::cmp::PartialOrdSpec;
use vstd::std_specs::cmp::PartialOrdSpecImpl;
use core::cmp::Ordering;
use crate::safe::index::wrap::IndexType;

verus! {

/// How the integer `a` stands to the integer `b`.
pub open spec fn raw_order(a: usize, b: usize) -> Ordering {
    if a < b {
        Ordering::Less
    } else if a == b {
        Ordering::Equal
    } else {
        Ordering::Greater
    }
}

impl<D> PartialEq for IndexType<D> {
    fn eq(&self, other: &Self) -> (r: bool)
    {
        self.raw() == other.raw()
    }
}

impl<D> PartialEqSpecImpl for IndexType<D> {
    open spec fn obeys_eq_spec() -> bool {
        true
    }

    open spec fn eq_spec(&self, other: &Self) -> bool {
        self@ == other@
    }
}

impl<D> Eq for IndexType<D> {

}

impl<D> PartialOrd for IndexType<D> {
    fn partial_cmp(&self, other: &Self) -> (r: Option<Ordering>)
    {
        let a: usize = self.raw();
        let b: usize = other.raw();
        if a < b {
            Some(Ordering::Less)
        } else if a == b {
            Some(Ordering::Equal)
        } else {
            Some(Ordering::Greater)
        }
    }
}

impl<D> PartialOrdSpecImpl for IndexType<D> {
    open spec fn obeys_partial_cmp_spec() -> bool {
        true
    }

    open spec fn partial_cmp_spec(&self, other: &Self) -> Option<Ordering> {
        Some(raw_order(self@, other@))
    }
}

impl<D> PartialEq<usize> for IndexType<D> {
    fn eq(&self, other: &usize) -> (r: bool)
    {
        self.raw() == *other
    }
}

impl<D> PartialEqSpecImpl<usize> for IndexType<D> {
    open spec fn obeys_eq_spec() -> bool {
        true
    }

    open spec fn eq_spec(&self, other: &usize) -> bool {
        self@ == *other
    }
}

impl<D> PartialOrd<usize> for IndexType<D> {
    fn partial_cmp(&self, other: &usize) -> (r: Option<Ordering>)
    {
        let a: usize = self.raw();
        let b: usize = *other;
        if a < b {
            Some(Ordering::Less)
        } else if a == b {
            Some(Ordering::Equal)
        } else {
            Some(Ordering::Greater)
        }
    }
}

impl<D> PartialOrdSpecImpl<usize> for IndexType<D> {
    open spec fn obeys_partial_cmp_spec() -> bool {
        true
    }

    open spec fn partial_cmp_spec(&self, other: &usize) -> Option<Ordering> {
        Some(raw_order(self@, *other))
    }
}

/// Two indices are equal exactly when their raw integers are, and that is
/// what `==` tests.
pub proof fn lemma_eq_is_raw_eq<D>(a: IndexType<D>, b: IndexType<D>)
    ensures
        PartialEqSpec::eq_spec(&a, &b) <==> a@ == b@,
        a == b <==> a@ == b@,
{
    IndexType::<D>::lemma_from_raw_of_view(a);
    IndexType::<D>::lemma_from_raw_of_view(b);
}

/// One index is below another exactly when its raw integer is, and likewise
/// for the other outcomes of a comparison.
pub proof fn lemma_order_is_raw_order<D>(a: IndexType<D>, b: IndexType<D>)
    ensures
        PartialOrdSpec::partial_cmp_spec(&a, &b) == Some(Ordering::Less) <==> a@ < b@,
        PartialOrdSpec::partial_cmp_spec(&a, &b) == Some(Ordering::Equal) <==> a@ == b@,
        PartialOrdSpec::partial_cmp_spec(&a, &b) == Some(Ordering::Greater) <==> a@ > b@,
{
}

} // verus!
