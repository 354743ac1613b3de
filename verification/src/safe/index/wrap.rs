//! The index type: a `usize` that remembers which tables it belongs to.
//!
//! A domain is declared by a tag type, which holds nothing:
//!
//! ```text
//! #[derive(Debug, Clone, Copy, PartialEq, Eq, PartialOrd, Ord, Hash)]
//! pub struct RowTag;
//! pub type Row = IndexType<RowTag>;
//! ```
//!
//! Indices of two domains are values of two types, so one cannot stand where
//! the other is expected. An index is as large as a `usize` and is copied
//! like one. Its view is the raw integer.
//!
//! An index of any domain is copied, compared with `==` and `<`, and
//! converted from and into `usize`. It is printed, hashed and sorted by `std`
//! where its tag is: that is what the derives on the tag are for.

use vstd::prelude::*;
use vstd::std_specs::convert::FromSpecImpl;
use vstd::std_specs::ops::AddSpecImpl;
use core::marker::PhantomData;
use crate::safe::index::IntWrap;

verus! {

/// An index into the tables of the domain `D`.
#[derive(Debug, Hash, Ord)]
pub struct IndexType<D> {
    val: usize,
    tag: PhantomData<D>,
}

impl<D> View for IndexType<D> {
    type V = usize;

    /// The raw integer.
    closed spec fn view(&self) -> usize {
        self.val
    }
}

impl<D> Clone for IndexType<D> {
    fn clone(&self) -> (r: Self)
        ensures
            r == *self,
    {
        IndexType { val: self.val, tag: PhantomData }
    }
}

impl<D> Copy for IndexType<D> {

}

/// The digit `d`, for `d` below ten.
pub open spec fn digit(d: nat) -> char {
    (48 + d) as char
}

/// The decimal digits of `n`, most significant first, without leading zeros.
pub open spec fn decimal(n: nat) -> Seq<char>
    decreases n,
{
    if n < 10 {
        seq![digit(n)]
    } else {
        decimal(n / 10).push(digit(n % 10))
    }
}

/// The `Display` of `usize`, through `format!`: the decimal digits of `n`,
/// with no sign, padding or leading zeros.
#[verifier::external_body]
fn usize_to_string(n: usize) -> (s: String)
    ensures
        s@ == decimal(n as nat),
{
    format!("{}", n)
}

impl<D> IndexType<D> {
    /// The index whose raw integer is `n`.
    pub closed spec fn spec_from_raw(n: usize) -> Self {
        IndexType { val: n, tag: PhantomData }
    }

    /// Wraps an integer.
    #[verifier::when_used_as_spec(spec_from_raw)]
    pub fn from_raw(n: usize) -> (r: Self)
        ensures
            r == Self::spec_from_raw(n),
            r@ == n,
    {
        IndexType { val: n, tag: PhantomData }
    }

    /// Zero.
    pub fn zero() -> (r: Self)
        ensures
            r == Self::spec_from_raw(0),
            r@ == 0,
    {
        IndexType { val: 0, tag: PhantomData }
    }

    /// One.
    pub fn one() -> (r: Self)
        ensures
            r == Self::spec_from_raw(1),
            r@ == 1,
    {
        IndexType { val: 1, tag: PhantomData }
    }

    /// The raw integer.
    pub fn raw(&self) -> (n: usize)
        ensures
            n == self@,
    {
        self.val
    }

    /// Moves to the next index. There is none after `usize::MAX`.
    pub fn increment(&mut self)
        requires
            old(self)@ < usize::MAX,
        ensures
            final(self)@ == old(self)@ + 1,
    {
        self.val = self.val + 1;
    }

    /// Moves to the previous index. There is none before zero.
    pub fn decrement(&mut self)
        requires
            old(self)@ > 0,
        ensures
            final(self)@ == old(self)@ - 1,
    {
        self.val = self.val - 1;
    }

    /// The raw integer in decimal.
    pub fn to_string(&self) -> (s: String)
        ensures
            s@ == decimal(self@ as nat),
    {
        usize_to_string(self.val)
    }

    /// The raw integer of the index made from `n` is `n`.
    pub broadcast proof fn lemma_view_of_from_raw(n: usize)
        ensures
            (#[trigger] Self::spec_from_raw(n))@ == n,
    {
    }

    /// An index is the one made from its raw integer.
    pub broadcast proof fn lemma_from_raw_of_view(i: Self)
        ensures
            Self::spec_from_raw(#[trigger] i@) == i,
    {
    }

    /// Wrapping an integer and unwrapping it gives the integer back.
    pub proof fn lemma_round_trip(n: usize)
        ensures
            Self::from_raw(n)@ == n,
    {
    }

    /// Two indices of one domain with the same raw integer are equal.
    pub proof fn lemma_view_is_injective(a: Self, b: Self)
        requires
            a@ == b@,
        ensures
            a == b,
    {
    }
}

pub broadcast group group_index_type {
    IndexType::lemma_view_of_from_raw,
    IndexType::lemma_from_raw_of_view,
}

impl<D> IntWrap for IndexType<D> {
    open spec fn inner_spec(&self) -> usize {
        self@
    }

    fn inner(&self) -> usize {
        self.val
    }

    proof fn inner_is_unique(a: &Self, b: &Self) {
    }
}

impl<D> From<usize> for IndexType<D> {
    fn from(n: usize) -> (r: Self)
    {
        IndexType { val: n, tag: PhantomData }
    }
}

impl<D> FromSpecImpl<usize> for IndexType<D> {
    open spec fn obeys_from_spec() -> bool {
        true
    }

    open spec fn from_spec(n: usize) -> Self {
        Self::spec_from_raw(n)
    }
}

impl<D> From<IndexType<D>> for usize {
    fn from(i: IndexType<D>) -> (n: usize)
    {
        i.val
    }
}

impl<D> FromSpecImpl<IndexType<D>> for usize {
    open spec fn obeys_from_spec() -> bool {
        true
    }

    open spec fn from_spec(i: IndexType<D>) -> usize {
        i@
    }
}

impl<'a, D> From<&'a IndexType<D>> for usize {
    fn from(i: &'a IndexType<D>) -> (n: usize)
    {
        i.val
    }
}

impl<'a, D> FromSpecImpl<&'a IndexType<D>> for usize {
    open spec fn obeys_from_spec() -> bool {
        true
    }

    open spec fn from_spec(i: &'a IndexType<D>) -> usize {
        i@
    }
}

impl<'a, D> From<&'a usize> for IndexType<D> {
    fn from(n: &'a usize) -> (r: Self)
    {
        IndexType { val: *n, tag: PhantomData }
    }
}

impl<'a, D> FromSpecImpl<&'a usize> for IndexType<D> {
    open spec fn obeys_from_spec() -> bool {
        true
    }

    open spec fn from_spec(n: &'a usize) -> Self {
        Self::spec_from_raw(*n)
    }
}

impl<D> core::ops::Deref for IndexType<D> {
    type Target = usize;

    /// The raw integer.
    fn deref(&self) -> (n: &usize)
        ensures
            *n == self@,
    {
        &self.val
    }
}

impl<D> core::ops::Add<usize> for IndexType<D> {
    type Output = IndexType<D>;

    /// The index that is `rhs` above this one. There is none above
    /// `usize::MAX`.
    fn add(self, rhs: usize) -> (r: IndexType<D>)
    {
        IndexType { val: self.val + rhs, tag: PhantomData }
    }
}

impl<D> core::ops::AddAssign<usize> for IndexType<D> {
    /// Moves `rhs` indices up. There is no index above `usize::MAX`.
    fn add_assign(&mut self, rhs: usize)
        requires
            old(self)@ + rhs <= usize::MAX,
        ensures
            final(self)@ == old(self)@ + rhs,
    {
        self.val = self.val + rhs;
    }
}

impl<D> AddSpecImpl<usize> for IndexType<D> {
    open spec fn obeys_add_spec() -> bool {
        true
    }

    open spec fn add_req(self, rhs: usize) -> bool {
        self@ + rhs <= usize::MAX
    }

    open spec fn add_spec(self, rhs: usize) -> IndexType<D> {
        Self::spec_from_raw((self@ + rhs) as usize)
    }
}

} // verus!
