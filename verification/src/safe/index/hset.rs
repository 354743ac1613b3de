//! Hash sets of integer wrappers.
//!
//! An [`IntHSet`] keeps each of its elements under the integer that stands
//! for it, in a hash table keyed by that integer. Its view is the set of its
//! elements. Nothing is promised on the order in which they are walked.
//!
//! The table is the `HashMap` of `std` with the hasher that `std` gives it:
//! that is the table of which `vstd` says what it does, and every contract
//! here is proved from that. The trivial hasher of this library is for the
//! tables that callers make themselves.

use vstd::prelude::*;
use vstd::std_specs::iter::IteratorSpec;
use std::collections::hash_map::Values;
use std::collections::HashMap;
use std::vec::IntoIter;
use crate::safe::index::IntWrap;

verus! {

/// Every element of the table `t` stands under its own integer.
spec fn keyed<Int: IntWrap>(t: Map<usize, Int>) -> bool {
    forall|n: usize| #[trigger] t.contains_key(n) ==> t[n].inner_spec() == n
}

/// In a table that is keyed, an element is there exactly when its integer is
/// a key.
proof fn lemma_keyed_contains<Int: IntWrap>(t: Map<usize, Int>, x: Int)
    requires
        keyed(t),
    ensures
        t.values().contains(x) <==> t.contains_key(x.inner_spec()),
        t.contains_key(x.inner_spec()) ==> t[x.inner_spec()] == x,
{
    if t.contains_key(x.inner_spec()) {
        Int::inner_is_unique(&t[x.inner_spec()], &x);
    }
    if t.values().contains(x) {
        let n = choose|n: usize| #[trigger] t.dom().contains(n) && t[n] == x;
        assert(t.contains_key(n));
    }
}

/// Putting an element under its integer adds that element and nothing else.
proof fn lemma_keyed_insert<Int: IntWrap>(t: Map<usize, Int>, x: Int)
    requires
        keyed(t),
    ensures
        keyed(t.insert(x.inner_spec(), x)),
        t.insert(x.inner_spec(), x).values() == t.values().insert(x),
{
    let k = x.inner_spec();
    let u = t.insert(k, x);
    assert forall|y: Int| u.values().contains(y) <==> t.values().insert(x).contains(y) by {
        if u.values().contains(y) {
            let n = choose|n: usize| #[trigger] u.dom().contains(n) && u[n] == y;
            if n != k {
                assert(t.dom().contains(n) && t[n] == y);
            }
        }
        if y == x {
            assert(u.dom().contains(k) && u[k] == y);
        } else if t.values().contains(y) {
            let n = choose|n: usize| #[trigger] t.dom().contains(n) && t[n] == y;
            assert(t.contains_key(n));
            if n == k {
                Int::inner_is_unique(&y, &x);
            }
            assert(u.dom().contains(n) && u[n] == y);
        }
    }
    assert(u.values() =~= t.values().insert(x));
}

/// Taking away what stands under the integer of an element removes that
/// element and nothing else.
proof fn lemma_keyed_remove<Int: IntWrap>(t: Map<usize, Int>, x: Int)
    requires
        keyed(t),
    ensures
        keyed(t.remove(x.inner_spec())),
        t.remove(x.inner_spec()).values() == t.values().remove(x),
{
    let k = x.inner_spec();
    let u = t.remove(k);
    assert forall|y: Int| u.values().contains(y) <==> t.values().remove(x).contains(y) by {
        if u.values().contains(y) {
            let n = choose|n: usize| #[trigger] u.dom().contains(n) && u[n] == y;
            assert(t.contains_key(n));
            assert(t.dom().contains(n) && t[n] == y);
        }
        if y != x && t.values().contains(y) {
            let n = choose|n: usize| #[trigger] t.dom().contains(n) && t[n] == y;
            assert(t.contains_key(n));
            if n == k {
                Int::inner_is_unique(&y, &x);
            }
            assert(u.dom().contains(n) && u[n] == y);
        }
    }
    assert(u.values() =~= t.values().remove(x));
}

/// A finite table that is keyed holds as many elements as it has keys.
proof fn lemma_keyed_len<Int: IntWrap>(t: Map<usize, Int>)
    requires
        keyed(t),
        t.dom().finite(),
    ensures
        t.values().finite(),
        t.values().len() == t.dom().len(),
{
    assert forall|a: usize, b: usize|
        a != b && t.dom().contains(a) && t.dom().contains(b) implies #[trigger] t[a]
        != #[trigger] t[b] by {
        assert(t.contains_key(a) && t.contains_key(b));
    }
    t.lemma_injective_values_len();
}

/// `HashMap::into_values`, collected into a vector: each value of the table
/// once, in an order that is not told.
#[verifier::external_body]
pub(crate) fn table_into_values<V>(t: HashMap<usize, V>) -> (r: Vec<V>)
    ensures
        r@.to_set() == t@.values(),
        r@.len() == t@.dom().len(),
{
    t.into_values().collect()
}

/// References to as many values as there are distinct values among them
/// are distinct.
proof fn lemma_unref_no_duplicates<A>(s: Seq<&A>)
    requires
        s.unref().to_set().len() == s.len(),
    ensures
        s.no_duplicates(),
{
    s.unref().lemma_no_dup_set_cardinality();
    assert forall|i: int, j: int| 0 <= i < s.len() && 0 <= j < s.len() && i != j implies s[i]
        != s[j] by {
        assert(s.unref()[i] != s.unref()[j]);
    }
}

/// Wraps a hash set of integer wrappers.
#[derive(Debug, PartialEq, Eq)]
pub struct IntHSet<Int: IntWrap> {
    set: HashMap<usize, Int>,
}

impl<Int: IntWrap> View for IntHSet<Int> {
    type V = Set<Int>;

    /// The elements.
    closed spec fn view(&self) -> Set<Int> {
        self.set@.values()
    }
}

impl<Int: IntWrap> IntHSet<Int> {
    /// The invariant of the set: each element stands under its own integer.
    /// Every function that gives a set back gives one that is well formed.
    pub closed spec fn wf(&self) -> bool {
        keyed(self.set@)
    }

    /// A set is finite.
    pub proof fn lemma_finite(&self)
        requires
            self.wf(),
        ensures
            self@.finite(),
    {
        lemma_keyed_len(self.set@);
    }

    /// Empty hash set.
    pub fn new() -> (r: Self)
        ensures
            r.wf(),
            r@ == Set::<Int>::empty(),
    {
        let r = IntHSet { set: HashMap::new() };
        assert(r@ =~= Set::<Int>::empty());
        r
    }

    /// Empty hash set with some capacity. The capacity changes nothing but
    /// the time that the next insertions take.
    pub fn with_capacity(capa: usize) -> (r: Self)
        ensures
            r.wf(),
            r@ == Set::<Int>::empty(),
    {
        let r = IntHSet { set: HashMap::with_capacity(capa) };
        assert(r@ =~= Set::<Int>::empty());
        r
    }

    /// Number of elements.
    pub fn len(&self) -> (n: usize)
        requires
            self.wf(),
        ensures
            n == self@.len(),
    {
        proof {
            lemma_keyed_len(self.set@);
        }
        self.set.len()
    }

    /// Is the set empty?
    pub fn is_empty(&self) -> (b: bool)
        requires
            self.wf(),
        ensures
            b == (self@ == Set::<Int>::empty()),
    {
        proof {
            lemma_keyed_len(self.set@);
            if self@.len() == 0 {
                self@.lemma_len0_is_empty();
            }
        }
        self.set.len() == 0
    }

    /// Is `x` in the set?
    pub fn contains(&self, x: &Int) -> (b: bool)
        requires
            self.wf(),
        ensures
            b == self@.contains(*x),
    {
        proof {
            lemma_keyed_contains(self.set@, *x);
        }
        let k: usize = x.inner();
        self.set.contains_key(&k)
    }

    /// Adds `x` to the set, and says whether it was new.
    pub fn insert(&mut self, x: Int) -> (fresh: bool)
        requires
            old(self).wf(),
        ensures
            final(self).wf(),
            final(self)@ == old(self)@.insert(x),
            fresh == !old(self)@.contains(x),
    {
        proof {
            lemma_keyed_contains(self.set@, x);
            lemma_keyed_insert(self.set@, x);
        }
        let k: usize = x.inner();
        self.set.insert(k, x).is_none()
    }

    /// Takes `x` out of the set, and says whether it was there.
    pub fn remove(&mut self, x: &Int) -> (found: bool)
        requires
            old(self).wf(),
        ensures
            final(self).wf(),
            final(self)@ == old(self)@.remove(*x),
            found == old(self)@.contains(*x),
    {
        proof {
            lemma_keyed_contains(self.set@, *x);
            lemma_keyed_remove(self.set@, *x);
        }
        let k: usize = x.inner();
        self.set.remove(&k).is_some()
    }

    /// Takes every element out of the set.
    pub fn clear(&mut self)
        ensures
            final(self).wf(),
            final(self)@ == Set::<Int>::empty(),
    {
        self.set.clear();
        assert(self@ =~= Set::<Int>::empty());
    }

    /// An iterator visiting all elements, each one once, in an order that is
    /// not told.
    pub fn iter(&self) -> (it: Values<'_, usize, Int>)
        requires
            self.wf(),
        ensures
            IteratorSpec::remaining(&it).unref().to_set() == self@,
            IteratorSpec::remaining(&it).no_duplicates(),
            IteratorSpec::remaining(&it).len() == self@.len(),
            IteratorSpec::decrease(&it) is Some,
            IteratorSpec::initial_value_relation(&it, &it),
    {
        let it = self.set.values();
        proof {
            lemma_keyed_len(self.set@);
            lemma_unref_no_duplicates(IteratorSpec::remaining(&it));
        }
        it
    }

    /// Adds to the set every element that `iter` yields.
    pub fn extend<I: Iterator<Item = Int>>(&mut self, iter: I)
        requires
            old(self).wf(),
            iter.obeys_prophetic_iter_laws(),
            iter.decrease() is Some,
        ensures
            final(self).wf(),
            final(self)@ == old(self)@.union(iter.remaining().to_set()),
    {
        let mut iter = iter;
        let ghost all = iter.remaining();
        let ghost mut done: int = 0;
        assert(all.take(0).to_set() =~= Set::<Int>::empty());
        assert(self@ =~= old(self)@.union(all.take(0).to_set()));
        assert(all.skip(0) =~= all);
        loop
            invariant
                self.wf(),
                iter.obeys_prophetic_iter_laws(),
                iter.decrease() is Some,
                0 <= done <= all.len(),
                iter.remaining() == all.skip(done),
                self@ == old(self)@.union(all.take(done).to_set()),
            ensures
                self.wf(),
                self@ == old(self)@.union(all.to_set()),
            decreases iter.decrease()->0,
        {
            match iter.next() {
                Some(x) => {
                    self.insert(x);
                    proof {
                        assert(x == all[done]);
                        assert(all.take(done + 1) =~= all.take(done).push(x));
                        all.take(done).lemma_push_to_set_commute(x);
                        assert(self@ =~= old(self)@.union(all.take(done + 1).to_set()));
                        assert(all.skip(done).drop_first() =~= all.skip(done + 1));
                        done = done + 1;
                    }
                },
                None => {
                    assert(all.take(done) =~= all);
                    break ;
                },
            }
        }
    }

    /// The set of the elements that `iter` yields.
    pub fn from_iter<I: Iterator<Item = Int>>(iter: I) -> (r: Self)
        requires
            iter.obeys_prophetic_iter_laws(),
            iter.decrease() is Some,
        ensures
            r.wf(),
            r@ == iter.remaining().to_set(),
    {
        let mut r = Self::new();
        r.extend(iter);
        assert(r@ =~= iter.remaining().to_set());
        r
    }
}

impl<Int: IntWrap> IntoIterator for IntHSet<Int> {
    type Item = Int;

    type IntoIter = IntoIter<Int>;

    /// An iterator that takes the set and yields all its elements, each one
    /// once, in an order that is not told.
    fn into_iter(self) -> (it: IntoIter<Int>)
        requires
            self.wf(),
        ensures
            IteratorSpec::remaining(&it).to_set() == self@,
            IteratorSpec::remaining(&it).no_duplicates(),
            IteratorSpec::remaining(&it).len() == self@.len(),
            IteratorSpec::decrease(&it) is Some,
            IteratorSpec::initial_value_relation(&it, &it),
    {
        proof {
            lemma_keyed_len(self.set@);
        }
        let out = table_into_values(self.set);
        proof {
            out@.lemma_no_dup_set_cardinality();
        }
        out.into_iter()
    }
}

impl<'a, Int: IntWrap> IntoIterator for &'a IntHSet<Int> {
    type Item = &'a Int;

    type IntoIter = Values<'a, usize, Int>;

    /// The same as [`IntHSet::iter`].
    fn into_iter(self) -> (it: Values<'a, usize, Int>)
        requires
            self.wf(),
        ensures
            IteratorSpec::remaining(&it).unref().to_set() == self@,
            IteratorSpec::remaining(&it).no_duplicates(),
            IteratorSpec::remaining(&it).len() == self@.len(),
            IteratorSpec::decrease(&it) is Some,
            IteratorSpec::initial_value_relation(&it, &it),
    {
        self.iter()
    }
}

impl<Int: IntWrap + Clone> Clone for IntHSet<Int> {
    /// A set of the same elements.
    fn clone(&self) -> (r: Self)
        ensures
            r@ == self@,
            self.wf() ==> r.wf(),
    {
        IntHSet { set: self.set.clone() }
    }
}

impl<Int: IntWrap> Default for IntHSet<Int> {
    /// The same as `new`.
    fn default() -> (r: Self)
        ensures
            r.wf(),
            r@ == Set::<Int>::empty(),
    {
        Self::new()
    }
}

} // verus!
