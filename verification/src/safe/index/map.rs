//! Vectors that take an index of their domain and nothing else.
//!
//! An [`IndexVecMap`] is a `Vec` whose positions are [`IndexType`]s of one
//! domain. Its view is the sequence of its elements: the element of the
//! index `i` stands at position `i@`.
//!
//! Pushing and changing an element in place leave every index where it is.
//! [`IndexVecMap::swap_remove`] does not: the last element moves into the
//! slot that is freed, so its former index, which is now the length, stands
//! for nothing, and the index of the freed slot stands for another value.

use vstd::prelude::*;
use vstd::std_specs::iter::IteratorSpec;
use core::hash::Hash;
use core::hash::Hasher;
use core::marker::PhantomData;
use core::slice::Iter;
use core::slice::IterMut;
use crate::safe::index::hash::hash_into;
use crate::safe::index::map_iter::indexed;
use crate::safe::index::map_iter::IndexIter;
use crate::safe::index::map_iter::IntoIndexIter;
use crate::safe::index::wrap::IndexType;
use crate::safe::index::wrap::group_index_type;

verus! {

broadcast use group_index_type;

/// The mutable iterator of slices. Nothing is said of what it holds.
#[verifier::external_type_specification]
#[verifier::external_body]
#[verifier::reject_recursive_types(T)]
pub struct ExIterMut<'a, T: 'a>(IterMut<'a, T>);

/// `<[T]>::reverse`, on a vector: the elements in the opposite order, in
/// place.
#[verifier::external_body]
fn vec_reverse<T>(v: &mut Vec<T>)
    ensures
        final(v)@ == old(v)@.reverse(),
{
    v.reverse()
}

/// `<[T]>::swap`, on a vector: the elements at `a` and `b` change places. It
/// panics when one of them is out of bounds.
#[verifier::external_body]
fn vec_swap<T>(v: &mut Vec<T>, a: usize, b: usize)
    requires
        a < old(v)@.len(),
        b < old(v)@.len(),
    ensures
        final(v)@ == old(v)@.update(a as int, old(v)@[b as int]).update(b as int, old(v)@[a as int]),
{
    v.swap(a, b)
}

/// `<[T]>::iter_mut`, on a vector: the iterator yields a mutable reference to
/// each element, from the first to the last, and then nothing. The vector
/// keeps its length, and each of its elements ends as what was last written
/// through the reference to it.
#[verifier::external_body]
fn vec_iter_mut<'a, T>(v: &'a mut Vec<T>) -> (it: IterMut<'a, T>)
    ensures
        IteratorSpec::obeys_prophetic_iter_laws(&it),
        IteratorSpec::decrease(&it) is Some,
        IteratorSpec::remaining(&it).len() == old(v)@.len(),
        forall|i: int|
            0 <= i < old(v)@.len() ==> *(#[trigger] IteratorSpec::remaining(&it)[i]) == old(v)@[i],
        final(v)@.len() == old(v)@.len(),
        forall|i: int|
            0 <= i < old(v)@.len() ==> #[trigger] final(v)@[i] == *final(IteratorSpec::remaining(&it)[i]),
{
    v.iter_mut()
}

/// `Vec::capacity`: how many elements the vector has room for, which is never
/// less than it holds.
#[verifier::external_body]
fn vec_capacity<T>(v: &Vec<T>) -> (c: usize)
    ensures
        c >= v@.len(),
{
    v.capacity()
}

/// `Vec::shrink_to_fit`: gives room back and leaves the elements alone.
#[verifier::external_body]
fn vec_shrink_to_fit<T>(v: &mut Vec<T>)
    ensures
        final(v)@ == old(v)@,
{
    v.shrink_to_fit()
}

/// The sequence `s` after the elements of `items` have been pushed one after
/// the other.
pub open spec fn push_all<T>(s: Seq<T>, items: Seq<T>) -> Seq<T>
    decreases items.len(),
{
    if items.len() == 0 {
        s
    } else {
        push_all(s, items.drop_last()).push(items.last())
    }
}

/// A run of pushes puts what is pushed behind what was there, in order.
pub proof fn lemma_push_all_concat<T>(s: Seq<T>, items: Seq<T>)
    ensures
        push_all(s, items) == s + items,
    decreases items.len(),
{
    if items.len() > 0 {
        lemma_push_all_concat(s, items.drop_last());
        assert((s + items.drop_last()).push(items.last()) =~= s + items);
    } else {
        assert(s =~= s + items);
    }
}

/// What a run of pushes does: before the `k`-th push the length, which is
/// the next free index, is the length before the run plus `k`; the element
/// of that push is found at that index when the run is over; and the run
/// makes the length grow by the number of pushes. On an empty sequence, `k`
/// pushes give the length `k`.
pub proof fn lemma_push_all<T>(s: Seq<T>, items: Seq<T>)
    ensures
        push_all(s, items).len() == s.len() + items.len(),
        forall|k: int|
            0 <= k < items.len() ==> (#[trigger] push_all(s, items.take(k))).len() == s.len() + k,
        forall|k: int| 0 <= k < items.len() ==> push_all(s, items)[s.len() + k] == #[trigger] items[k],
        push_all(Seq::<T>::empty(), items).len() == items.len(),
{
    lemma_push_all_concat(s, items);
    lemma_push_all_concat(Seq::<T>::empty(), items);
    assert forall|k: int| 0 <= k < items.len() implies (#[trigger] push_all(
        s,
        items.take(k),
    )).len() == s.len() + k by {
        lemma_push_all_concat(s, items.take(k));
    }
}

/// Vector indexed by the indices of the domain `D`.
#[derive(Debug)]
pub struct IndexVecMap<D, T> {
    vec: Vec<T>,
    tag: PhantomData<D>,
}

impl<D, T> View for IndexVecMap<D, T> {
    type V = Seq<T>;

    /// The elements, the one of index `i` at position `i@`.
    closed spec fn view(&self) -> Seq<T> {
        self.vec@
    }
}

impl<D, T> IndexVecMap<D, T> {
    /// The map that holds `vec`.
    pub closed spec fn spec_of(vec: Vec<T>) -> Self {
        IndexVecMap { vec, tag: PhantomData }
    }

    /// The vector that the map holds.
    pub closed spec fn spec_vec(&self) -> Vec<T> {
        self.vec
    }

    /// Does `idx` stand for an element of the map?
    pub open spec fn has(&self, idx: IndexType<D>) -> bool {
        idx@ < self@.len()
    }

    /// A map holds no more elements than there are indices.
    pub proof fn lemma_len_fits(&self)
        ensures
            self@.len() <= usize::MAX,
    {
        assert(self.vec.len() == self.vec@.len());
    }

    /// Creates a map from a vector, whose elements get the indices from zero
    /// up, in order.
    pub fn of(vec: Vec<T>) -> (r: Self)
        ensures
            r == Self::spec_of(vec),
            r@ == vec@,
    {
        IndexVecMap { vec, tag: PhantomData }
    }

    /// Creates an empty map.
    pub fn new() -> (r: Self)
        ensures
            r@ == Seq::<T>::empty(),
    {
        IndexVecMap { vec: Vec::new(), tag: PhantomData }
    }

    /// Creates an empty map with some capacity. The capacity changes nothing
    /// but the time that the next pushes take.
    pub fn with_capacity(capacity: usize) -> (r: Self)
        ensures
            r@ == Seq::<T>::empty(),
    {
        IndexVecMap { vec: Vec::with_capacity(capacity), tag: PhantomData }
    }

    /// Clears a map.
    pub fn clear(&mut self)
        ensures
            final(self)@ == Seq::<T>::empty(),
    {
        self.vec.clear()
    }

    /// Number of elements in the map.
    pub fn len(&self) -> (n: usize)
        ensures
            n == self@.len(),
    {
        self.vec.len()
    }

    /// Capacity of the map: at least its length.
    pub fn capacity(&self) -> (c: usize)
        ensures
            c >= self@.len(),
    {
        vec_capacity(&self.vec)
    }

    /// The next free index: the length, as an index. It is the index that the
    /// next element pushed will have.
    pub fn next_index(&self) -> (idx: IndexType<D>)
        ensures
            idx@ == self@.len(),
            idx == IndexType::<D>::spec_from_raw(self@.len() as usize),
    {
        IndexType::from_raw(self.vec.len())
    }

    /// Pushes an element, which gets the index that `next_index` gave.
    pub fn push(&mut self, elem: T)
        ensures
            final(self)@ == old(self)@.push(elem),
            final(self)@.len() == old(self)@.len() + 1,
            final(self)@[old(self)@.len() as int] == elem,
    {
        self.vec.push(elem)
    }

    /// Pops the last element, if there is one.
    pub fn pop(&mut self) -> (r: Option<T>)
        ensures
            old(self)@.len() == 0 ==> r.is_none() && final(self)@ == old(self)@,
            old(self)@.len() > 0 ==> r == Some(old(self)@.last()) && final(self)@ == old(
                self,
            )@.drop_last(),
    {
        self.vec.pop()
    }

    /// The element of an index of the map.
    pub fn get(&self, idx: IndexType<D>) -> (r: &T)
        requires
            self.has(idx),
        ensures
            *r == self@[idx@ as int],
    {
        &self.vec[idx.raw()]
    }

    /// Replaces the element of an index of the map.
    pub fn set(&mut self, idx: IndexType<D>, elem: T)
        requires
            old(self).has(idx),
        ensures
            final(self)@ == old(self)@.update(idx@ as int, elem),
    {
        self.vec[idx.raw()] = elem;
    }

    /// Iterates over the elements, in the order of their indices.
    pub fn iter(&self) -> (it: Iter<'_, T>)
        ensures
            IteratorSpec::remaining(&it) == self@.as_ref(),
            IteratorSpec::decrease(&it) is Some,
            IteratorSpec::initial_value_relation(&it, &it),
    {
        self.vec.iter()
    }

    /// Iterates over the elements (mutable version), in the order of their
    /// indices: the iterator yields a mutable reference to each element, and
    /// then nothing. The map keeps its length, and each of its elements ends
    /// as what was last written through the reference to it.
    pub fn iter_mut(&mut self) -> (it: IterMut<'_, T>)
        ensures
            IteratorSpec::obeys_prophetic_iter_laws(&it),
            IteratorSpec::decrease(&it) is Some,
            IteratorSpec::remaining(&it).len() == old(self)@.len(),
            forall|i: int|
                0 <= i < old(self)@.len() ==> *(#[trigger] IteratorSpec::remaining(&it)[i]) == old(
                    self,
                )@[i],
            final(self)@.len() == old(self)@.len(),
            forall|i: int|
                0 <= i < old(self)@.len() ==> #[trigger] final(self)@[i] == *final(IteratorSpec::remaining(&it)[i]),
    {
        vec_iter_mut(&mut self.vec)
    }

    /// Iterates over the elements with the index, by ascending index.
    pub fn index_iter<'a>(&'a self) -> (it: IndexIter<'a, D, T>)
        ensures
            it@ == indexed::<D, T>(0, self@),
    {
        IndexIter::mk_ref(self)
    }

    /// Iterates over the elements with the index, by ascending index, and
    /// uses the map up.
    pub fn into_index_iter(self) -> (it: IntoIndexIter<D, T>)
        ensures
            it@ == indexed::<D, T>(0, self@),
    {
        IntoIndexIter::new(self)
    }

    /// Turns the map round: the last element becomes the first.
    pub(crate) fn reverse(&mut self)
        ensures
            final(self)@ == old(self)@.reverse(),
    {
        vec_reverse(&mut self.vec)
    }

    /// Shrinks the capacity as much as possible.
    pub fn shrink_to_fit(&mut self)
        ensures
            final(self)@ == old(self)@,
    {
        vec_shrink_to_fit(&mut self.vec)
    }

    /// Lets the elements of two indices of the map change places.
    pub fn swap(&mut self, a: IndexType<D>, b: IndexType<D>)
        requires
            old(self).has(a),
            old(self).has(b),
        ensures
            final(self)@ == old(self)@.update(a@ as int, old(self)@[b@ as int]).update(
                b@ as int,
                old(self)@[a@ as int],
            ),
    {
        vec_swap(&mut self.vec, a.raw(), b.raw())
    }

    /// Removes the element of an index of the map and returns it. The last
    /// element takes its place, so the map is one shorter and, unless `idx`
    /// was the last index, `idx` now stands for the element that was last.
    pub fn swap_remove(&mut self, idx: IndexType<D>) -> (r: T)
        requires
            old(self).has(idx),
        ensures
            r == old(self)@[idx@ as int],
            final(self)@ == old(self)@.update(idx@ as int, old(self)@.last()).drop_last(),
            final(self)@.len() == old(self)@.len() - 1,
            idx@ < old(self)@.len() - 1 ==> final(self)@[idx@ as int] == old(self)@.last(),
    {
        self.vec.swap_remove(idx.raw())
    }

    /// The element of an index of the map, open to change.
    pub fn get_mut(&mut self, idx: IndexType<D>) -> (r: &mut T)
        requires
            old(self).has(idx),
        ensures
            *r == old(self)@[idx@ as int],
            final(self)@ == old(self)@.update(idx@ as int, *final(r)),
    {
        &mut self.vec[idx.raw()]
    }

    /// The elements from the raw position `start` up to the raw position
    /// `end`, `end` left out. Raw positions are for code that knows no
    /// indices; they say nothing on the domain of what they count.
    pub fn slice(&self, start: usize, end: usize) -> (r: &[T])
        requires
            start <= end <= self@.len(),
        ensures
            r@ == self@.subrange(start as int, end as int),
    {
        vstd::slice::slice_subrange(self.vec.as_slice(), start, end)
    }

    /// Gives the vector back.
    pub fn into_vec(self) -> (v: Vec<T>)
        ensures
            v@ == self@,
            v == self.spec_vec(),
    {
        self.vec
    }

    /// Pushes every element that `iter` yields, in the order in which they
    /// come: the one that comes `k`-th gets the index that is `k` above the
    /// next free one.
    pub fn extend<I: Iterator<Item = T>>(&mut self, iter: I)
        requires
            iter.obeys_prophetic_iter_laws(),
            iter.decrease() is Some,
        ensures
            final(self)@ == push_all(old(self)@, iter.remaining()),
            final(self)@ == old(self)@ + iter.remaining(),
    {
        let mut iter = iter;
        let ghost all = iter.remaining();
        let ghost mut done: int = 0;
        assert(all.take(0) =~= Seq::<T>::empty());
        assert(all.skip(0) =~= all);
        loop
            invariant
                iter.obeys_prophetic_iter_laws(),
                iter.decrease() is Some,
                0 <= done <= all.len(),
                iter.remaining() == all.skip(done),
                self@ == push_all(old(self)@, all.take(done)),
            ensures
                self@ == push_all(old(self)@, all),
            decreases iter.decrease()->0,
        {
            match iter.next() {
                Some(elem) => {
                    self.push(elem);
                    proof {
                        assert(elem == all[done]);
                        assert(all.take(done + 1).drop_last() =~= all.take(done));
                        assert(all.take(done + 1).last() == elem);
                        assert(all.skip(done).drop_first() =~= all.skip(done + 1));
                        done = done + 1;
                    }
                },
                None => {
                    assert(all.take(done) =~= all);
                    break ;
                },
            }
        }
        proof {
            lemma_push_all_concat(old(self)@, all);
        }
    }

    /// The map of the elements that `iter` yields, with the indices from
    /// zero up in the order in which they come.
    pub fn from_iter<I: Iterator<Item = T>>(iter: I) -> (r: Self)
        requires
            iter.obeys_prophetic_iter_laws(),
            iter.decrease() is Some,
        ensures
            r@ == iter.remaining(),
    {
        let mut r = Self::new();
        r.extend(iter);
        assert(r@ =~= iter.remaining());
        r
    }
}

impl<D, T: Clone> IndexVecMap<D, T> {
    /// Creates a map of `size` clones of `elem`.
    pub fn of_elems(elem: T, size: usize) -> (r: Self)
        ensures
            r@.len() == size,
            forall|i: int| 0 <= i < size ==> cloned(elem, #[trigger] r@[i]),
    {
        IndexVecMap { vec: vec![elem; size], tag: PhantomData }
    }
}

impl<D, T: Clone> Clone for IndexVecMap<D, T> {
    /// A map as long as this one, whose elements are clones of the elements
    /// of this one, each under the index of the element that it is a clone
    /// of.
    fn clone(&self) -> (r: Self)
        ensures
            r@.len() == self@.len(),
            forall|i: int| 0 <= i < self@.len() ==> cloned(self@[i], #[trigger] r@[i]),
    {
        IndexVecMap { vec: self.vec.clone(), tag: PhantomData }
    }
}

impl<D, T: Hash> Hash for IndexVecMap<D, T> {
    /// Feeds the elements to the hasher, by ascending index.
    fn hash<H: Hasher>(&self, state: &mut H) {
        for elem in self.vec.iter() {
            hash_into(elem, state);
        }
    }
}

impl<D, T> core::ops::Deref for IndexVecMap<D, T> {
    type Target = Vec<T>;

    /// The vector that the map holds, to read.
    fn deref(&self) -> (v: &Vec<T>)
        ensures
            v@ == self@,
            *v == self.spec_vec(),
    {
        &self.vec
    }
}

} // verus!
