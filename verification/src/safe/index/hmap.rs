//! Hash maps from integer wrappers to values.
//!
//! An [`IntHMap`] keeps each key, with its value, under the integer that
//! stands for the key, in a hash table keyed by that integer. Its view is the
//! map from keys to values: a key has at most one value, and inserting under
//! a key that is there replaces its value. Nothing is promised on the order
//! in which the entries are walked.
//!
//! The table is the `HashMap` of `std` with the hasher that `std` gives it,
//! as for the hash set.

use vstd::prelude::*;
use vstd::std_specs::iter::IteratorSpec;
use core::hash::Hash;
use core::hash::Hasher;
use std::collections::hash_map::Values;
use std::collections::HashMap;
use std::vec::IntoIter;
use crate::safe::index::hash::hash_into;
use crate::safe::index::hash::write_usize_into;
use crate::safe::index::hset::table_into_values;
use crate::safe::index::IntWrap;

verus! {

/// Every key of the table `t` stands under its own integer.
spec fn keyed_pairs<Int: IntWrap, V>(t: Map<usize, (Int, V)>) -> bool {
    forall|n: usize| #[trigger] t.contains_key(n) ==> t[n].0.inner_spec() == n
}

/// The map from keys to values that the table `t` holds.
spec fn entries<Int: IntWrap, V>(t: Map<usize, (Int, V)>) -> Map<Int, V> {
    Map::new(|k: Int| t.contains_key(k.inner_spec()), |k: Int| t[k.inner_spec()].1)
}

/// Putting a key and a value under the integer of the key gives the key
/// that value and leaves the other keys alone.
proof fn lemma_entries_insert<Int: IntWrap, V>(t: Map<usize, (Int, V)>, k: Int, v: V)
    requires
        keyed_pairs(t),
    ensures
        keyed_pairs(t.insert(k.inner_spec(), (k, v))),
        entries(t.insert(k.inner_spec(), (k, v))) == entries(t).insert(k, v),
{
    let u = t.insert(k.inner_spec(), (k, v));
    assert forall|j: Int| #[trigger] entries(u).contains_key(j) <==> entries(t).insert(
        k,
        v,
    ).contains_key(j) by {
        if j.inner_spec() == k.inner_spec() {
            Int::inner_is_unique(&j, &k);
        }
    }
    assert forall|j: Int| #[trigger] entries(u).contains_key(j) implies entries(u)[j] == entries(
        t,
    ).insert(k, v)[j] by {
        if j.inner_spec() == k.inner_spec() {
            Int::inner_is_unique(&j, &k);
        }
    }
    assert(entries(u) =~= entries(t).insert(k, v));
}

/// Taking away what stands under the integer of a key removes that key and
/// leaves the other keys alone.
proof fn lemma_entries_remove<Int: IntWrap, V>(t: Map<usize, (Int, V)>, k: Int)
    requires
        keyed_pairs(t),
    ensures
        keyed_pairs(t.remove(k.inner_spec())),
        entries(t.remove(k.inner_spec())) == entries(t).remove(k),
{
    let u = t.remove(k.inner_spec());
    assert forall|j: Int| #[trigger] entries(u).contains_key(j) <==> entries(t).remove(
        k,
    ).contains_key(j) by {
        if j.inner_spec() == k.inner_spec() {
            Int::inner_is_unique(&j, &k);
        }
    }
    assert(entries(u) =~= entries(t).remove(k));
}

/// The pairs of a table that is keyed are the entries of its map.
proof fn lemma_entries_pairs<Int: IntWrap, V>(t: Map<usize, (Int, V)>)
    requires
        keyed_pairs(t),
    ensures
        t.values() == entries(t).kv_pairs(),
{
    assert forall|p: (Int, V)| t.values().contains(p) <==> entries(t).kv_pairs().contains(p) by {
        if t.values().contains(p) {
            let n = choose|n: usize| #[trigger] t.dom().contains(n) && t[n] == p;
            assert(t.contains_key(n));
        }
        if entries(t).kv_pairs().contains(p) {
            let n = p.0.inner_spec();
            assert(t.contains_key(n));
            Int::inner_is_unique(&t[n].0, &p.0);
            assert(t.dom().contains(n) && t[n] == p);
        }
    }
    assert(t.values() =~= entries(t).kv_pairs());
}

/// A finite table that is keyed holds as many entries as it has integers.
proof fn lemma_entries_len<Int: IntWrap, V>(t: Map<usize, (Int, V)>)
    requires
        keyed_pairs(t),
        t.dom().finite(),
    ensures
        entries(t).dom().finite(),
        entries(t).dom().len() == t.dom().len(),
        t.values().finite(),
        t.values().len() == t.dom().len(),
{
    let key_of = |n: usize| t[n].0;
    assert forall|a: usize, b: usize|
        t.dom().contains(a) && t.dom().contains(b) && #[trigger] key_of(a) == #[trigger] key_of(
            b,
        ) implies a == b by {
        assert(t.contains_key(a) && t.contains_key(b));
    }
    assert forall|j: Int| t.dom().map(key_of).contains(j) <==> entries(t).dom().contains(j) by {
        if t.dom().map(key_of).contains(j) {
            let n = choose|n: usize| t.dom().contains(n) && key_of(n) == j;
            assert(t.contains_key(n));
        }
        if entries(t).dom().contains(j) {
            let n = j.inner_spec();
            assert(t.contains_key(n));
            Int::inner_is_unique(&t[n].0, &j);
            assert(t.dom().contains(n) && key_of(n) == j);
        }
    }
    assert(t.dom().map(key_of) =~= entries(t).dom());
    vstd::set_lib::lemma_map_size(t.dom(), entries(t).dom(), key_of);
    assert forall|a: usize, b: usize|
        a != b && t.dom().contains(a) && t.dom().contains(b) implies #[trigger] t[a]
        != #[trigger] t[b] by {
        assert(t.contains_key(a) && t.contains_key(b));
    }
    t.lemma_injective_values_len();
}

/// The map `m` after the pairs of `pairs` have been inserted one after the
/// other.
pub open spec fn insert_all<K, V>(m: Map<K, V>, pairs: Seq<(K, V)>) -> Map<K, V>
    decreases pairs.len(),
{
    if pairs.len() == 0 {
        m
    } else {
        insert_all(m, pairs.drop_last()).insert(pairs.last().0, pairs.last().1)
    }
}

/// Keys that differ do not disturb each other: after two of them have got
/// their values, each has its own, and when the first gets a new value, it
/// has the new one and the second still has its own.
pub proof fn lemma_distinct_keys<K, V>(m: Map<K, V>, k1: K, v1: V, k2: K, v2: V, w1: V)
    requires
        k1 != k2,
    ensures
        m.insert(k1, v1).insert(k2, v2).contains_key(k1),
        m.insert(k1, v1).insert(k2, v2).contains_key(k2),
        m.insert(k1, v1).insert(k2, v2)[k1] == v1,
        m.insert(k1, v1).insert(k2, v2)[k2] == v2,
        m.insert(k1, v1).insert(k2, v2).insert(k1, w1)[k1] == w1,
        m.insert(k1, v1).insert(k2, v2).insert(k1, w1)[k2] == v2,
        m.insert(k1, v1).insert(k2, v2).insert(k1, w1).dom() == m.insert(k1, v1).insert(
            k2,
            v2,
        ).dom(),
{
    assert(m.insert(k1, v1).insert(k2, v2).insert(k1, w1).dom() =~= m.insert(k1, v1).insert(
        k2,
        v2,
    ).dom());
}

/// `<[T]>::sort_unstable`, on a vector of integers: the same integers, as
/// often as before, in ascending order.
#[verifier::external_body]
fn vec_sort(v: &mut Vec<usize>)
    ensures
        final(v)@.to_multiset() == old(v)@.to_multiset(),
        forall|i: int, j: int| 0 <= i <= j < final(v)@.len() ==> final(v)@[i] <= final(v)@[j],
{
    v.sort_unstable()
}

/// The keys of a table, each one once, in ascending order: an order that the
/// keys fix, whatever the order in which the table is walked.
fn sorted_keys<V>(t: &HashMap<usize, V>) -> (ks: Vec<usize>)
    ensures
        ks@.to_set() == t@.dom(),
        forall|i: int, j: int| 0 <= i < j < ks@.len() ==> ks@[i] < ks@[j],
{
    let mut ks: Vec<usize> = Vec::new();
    for k in it: t.keys()
        invariant
            ks@.len() == it.index(),
            forall|j: int| 0 <= j < ks@.len() ==> ks@[j] == *it.seq()[j],
            it.index() == it.seq().len() ==> ks@ == it.seq().unref(),
            it.seq().unref().to_set() == t@.dom(),
            it.seq().len() == t@.dom().len(),
    {
        ks.push(*k);
    }
    let ghost walked = ks@;
    proof {
        walked.lemma_no_dup_set_cardinality();
        walked.lemma_multiset_has_no_duplicates();
    }
    vec_sort(&mut ks);
    proof {
        assert forall|a: usize| ks@.to_set().contains(a) <==> walked.to_set().contains(a) by {
            vstd::seq_lib::to_multiset_contains(ks@, a);
            vstd::seq_lib::to_multiset_contains(walked, a);
        }
        assert(ks@.to_set() =~= walked.to_set());
        ks@.lemma_multiset_has_no_duplicates_conv();
    }
    ks
}

/// The entry under `n` is a loan of the table `before`: it held `key` and
/// `val` when it was lent, and `last` is what the table `after` holds in the
/// place of `val`.
spec fn lent<K, V>(
    before: Map<usize, (K, V)>,
    after: Map<usize, (K, V)>,
    n: usize,
    key: K,
    val: V,
    last: V,
) -> bool {
    before.contains_key(n) && before[n] == (key, val) && after.contains_key(n) && after[n] == (
        key,
        last,
    )
}

/// `HashMap::values_mut`, collected into a vector: each entry of the table
/// once, its first part by reference and its second part by mutable
/// reference, in an order that is not told. So each item is an entry, each
/// entry is an item, and the first parts that come are as different from
/// each other as those of the table are. The table keeps its keys and the
/// first part of each entry, and the second part of each entry ends as what
/// was last written through the reference to it.
#[verifier::external_body]
fn table_iter_mut<'a, K, V>(t: &'a mut HashMap<usize, (K, V)>) -> (r: Vec<(&'a K, &'a mut V)>)
    ensures
        r@.len() == old(t)@.dom().len(),
        forall|i: int|
            0 <= i < r@.len() ==> old(t)@.values().contains((*(#[trigger] r@[i]).0, *r@[i].1)),
        (forall|m: usize, n: usize|
            m != n && old(t)@.contains_key(m) && old(t)@.contains_key(n) ==> (#[trigger] old(
                t,
            )@[m]).0 != (#[trigger] old(t)@[n]).0) ==> (forall|i: int, j: int|
            0 <= i < j < r@.len() ==> *(#[trigger] r@[i]).0 != *(#[trigger] r@[j]).0),
        final(t)@.dom() == old(t)@.dom(),
        forall|n: usize| #[trigger] final(t)@.contains_key(n) ==> final(t)@[n].0 == old(t)@[n].0,
        forall|i: int|
            #![trigger r@[i]]
            0 <= i < r@.len() ==> exists|n: usize| #[trigger]
                lent(old(t)@, final(t)@, n, *r@[i].0, *r@[i].1, *final(r@[i].1)),
        forall|n: usize| #[trigger]
            old(t)@.contains_key(n) ==> exists|i: int|
                0 <= i < r@.len() && lent(
                    old(t)@,
                    final(t)@,
                    n,
                    *(#[trigger] r@[i]).0,
                    *r@[i].1,
                    *final(r@[i].1),
                ),
{
    t.values_mut().map(|pair| (&pair.0, &mut pair.1)).collect()
}

/// Wraps a hash map from integer wrappers.
#[derive(Debug, PartialEq, Eq)]
pub struct IntHMap<Int: IntWrap, V> {
    map: HashMap<usize, (Int, V)>,
}

impl<Int: IntWrap, V> View for IntHMap<Int, V> {
    type V = Map<Int, V>;

    /// The keys, each with its value.
    closed spec fn view(&self) -> Map<Int, V> {
        entries(self.map@)
    }
}

impl<Int: IntWrap, V> IntHMap<Int, V> {
    /// The invariant of the map: each key stands under its own integer.
    /// Every function that gives a map back gives one that is well formed.
    pub closed spec fn wf(&self) -> bool {
        keyed_pairs(self.map@)
    }

    /// A map has finitely many keys.
    pub proof fn lemma_finite(&self)
        requires
            self.wf(),
        ensures
            self@.dom().finite(),
    {
        lemma_entries_len(self.map@);
    }

    /// Two keys that differ, inserted into a new map, are both there, each
    /// with its own value, and they are all that is there. `empty` is a map
    /// as `new` gives it, `one` is what the first `insert` makes of it and
    /// `two` what the second `insert` makes of that; what is said of `two`
    /// is what `get` finds in it and what `len` counts. When the first key
    /// then gets another value, in `again`, it has that one, and the second
    /// key is as it was.
    pub proof fn lemma_two_keys(
        empty: Self,
        one: Self,
        two: Self,
        again: Self,
        k1: Int,
        v1: V,
        k2: Int,
        v2: V,
        w1: V,
    )
        requires
            k1 != k2,
            empty@ == Map::<Int, V>::empty(),
            one@ == empty@.insert(k1, v1),
            two@ == one@.insert(k2, v2),
            again@ == two@.insert(k1, w1),
        ensures
            two@.contains_key(k1) && two@[k1] == v1,
            two@.contains_key(k2) && two@[k2] == v2,
            two@.dom().finite() && two@.len() == 2,
            again@.contains_key(k1) && again@[k1] == w1,
            again@.contains_key(k2) && again@[k2] == v2,
            again@.dom().finite() && again@.len() == 2,
    {
        assert(two@.dom() =~= Set::<Int>::empty().insert(k1).insert(k2));
        assert(again@.dom() =~= two@.dom());
    }

    /// Empty hash map.
    pub fn new() -> (r: Self)
        ensures
            r.wf(),
            r@ == Map::<Int, V>::empty(),
    {
        let r = IntHMap { map: HashMap::new() };
        assert(r@ =~= Map::<Int, V>::empty());
        r
    }

    /// Empty hash map with some capacity. The capacity changes nothing but
    /// the time that the next insertions take.
    pub fn with_capacity(capa: usize) -> (r: Self)
        ensures
            r.wf(),
            r@ == Map::<Int, V>::empty(),
    {
        let r = IntHMap { map: HashMap::with_capacity(capa) };
        assert(r@ =~= Map::<Int, V>::empty());
        r
    }

    /// Number of keys.
    pub fn len(&self) -> (n: usize)
        requires
            self.wf(),
        ensures
            n == self@.len(),
    {
        proof {
            lemma_entries_len(self.map@);
        }
        self.map.len()
    }

    /// Is the map empty?
    pub fn is_empty(&self) -> (b: bool)
        requires
            self.wf(),
        ensures
            b == (self@ == Map::<Int, V>::empty()),
    {
        proof {
            lemma_entries_len(self.map@);
            if self@.dom().len() == 0 {
                self@.dom().lemma_len0_is_empty();
                assert(self@ =~= Map::<Int, V>::empty());
            }
        }
        self.map.len() == 0
    }

    /// Is `key` a key of the map?
    pub fn contains_key(&self, key: &Int) -> (b: bool)
        requires
            self.wf(),
        ensures
            b == self@.contains_key(*key),
    {
        let n: usize = key.inner();
        self.map.contains_key(&n)
    }

    /// The value of `key`, if it has one.
    pub fn get(&self, key: &Int) -> (r: Option<&V>)
        requires
            self.wf(),
        ensures
            self@.contains_key(*key) ==> r == Some(&self@[*key]),
            !self@.contains_key(*key) ==> r.is_none(),
    {
        let n: usize = key.inner();
        match self.map.get(&n) {
            Some(pair) => Some(&pair.1),
            None => None,
        }
    }

    /// Gives `key` the value `value`, and returns the value that it had.
    pub fn insert(&mut self, key: Int, value: V) -> (r: Option<V>)
        requires
            old(self).wf(),
        ensures
            final(self).wf(),
            final(self)@ == old(self)@.insert(key, value),
            old(self)@.contains_key(key) ==> r == Some(old(self)@[key]),
            !old(self)@.contains_key(key) ==> r.is_none(),
    {
        proof {
            lemma_entries_insert(self.map@, key, value);
        }
        let n: usize = key.inner();
        match self.map.insert(n, (key, value)) {
            Some(pair) => Some(pair.1),
            None => None,
        }
    }

    /// Takes `key` out of the map, and returns the value that it had.
    pub fn remove(&mut self, key: &Int) -> (r: Option<V>)
        requires
            old(self).wf(),
        ensures
            final(self).wf(),
            final(self)@ == old(self)@.remove(*key),
            old(self)@.contains_key(*key) ==> r == Some(old(self)@[*key]),
            !old(self)@.contains_key(*key) ==> r.is_none(),
    {
        proof {
            lemma_entries_remove(self.map@, *key);
        }
        let n: usize = key.inner();
        match self.map.remove(&n) {
            Some(pair) => Some(pair.1),
            None => None,
        }
    }

    /// Takes every key out of the map.
    pub fn clear(&mut self)
        ensures
            final(self).wf(),
            final(self)@ == Map::<Int, V>::empty(),
    {
        self.map.clear();
        assert(self@ =~= Map::<Int, V>::empty());
    }

    /// An iterator visiting all entries, each one once, in an order that is
    /// not told. An entry is a key with its value.
    pub fn iter(&self) -> (it: Values<'_, usize, (Int, V)>)
        requires
            self.wf(),
        ensures
            IteratorSpec::remaining(&it).unref().to_set() == self@.kv_pairs(),
            IteratorSpec::remaining(&it).unref().no_duplicates(),
            IteratorSpec::remaining(&it).len() == self@.len(),
            IteratorSpec::decrease(&it) is Some,
            IteratorSpec::initial_value_relation(&it, &it),
    {
        let it = self.map.values();
        proof {
            lemma_entries_len(self.map@);
            lemma_entries_pairs(self.map@);
            IteratorSpec::remaining(&it).unref().lemma_no_dup_set_cardinality();
        }
        it
    }

    /// An iterator visiting all entries, each one once, in an order that is
    /// not told, with the value open to change: each key of the map comes,
    /// once, with a reference to its value. The map keeps its keys, and each
    /// key ends with the value that was last written through the reference
    /// that came with it.
    pub fn iter_mut(&mut self) -> (it: IntoIter<(&Int, &mut V)>)
        requires
            old(self).wf(),
        ensures
            final(self).wf(),
            final(self)@.dom() == old(self)@.dom(),
            IteratorSpec::remaining(&it).len() == old(self)@.len(),
            forall|i: int|
                0 <= i < IteratorSpec::remaining(&it).len() ==> old(self)@.contains_pair(
                    *(#[trigger] IteratorSpec::remaining(&it)[i]).0,
                    *IteratorSpec::remaining(&it)[i].1,
                ),
            forall|i: int, j: int|
                0 <= i < j < IteratorSpec::remaining(&it).len() ==> *(#[trigger] IteratorSpec::remaining(
                    &it,
                )[i]).0 != *(#[trigger] IteratorSpec::remaining(&it)[j]).0,
            forall|i: int|
                #![trigger IteratorSpec::remaining(&it)[i]]
                0 <= i < IteratorSpec::remaining(&it).len() ==> final(self)@.contains_key(
                    *IteratorSpec::remaining(&it)[i].0,
                ) && final(self)@[*IteratorSpec::remaining(&it)[i].0] == *final(IteratorSpec::remaining(&it)[i].1),
            forall|k: Int| #[trigger]
                old(self)@.contains_key(k) ==> exists|i: int|
                    0 <= i < IteratorSpec::remaining(&it).len() && *(#[trigger] IteratorSpec::remaining(
                        &it,
                    )[i]).0 == k,
            IteratorSpec::decrease(&it) is Some,
            IteratorSpec::initial_value_relation(&it, &it),
    {
        proof {
            lemma_entries_len(self.map@);
            lemma_entries_pairs(self.map@);
        }
        proof {
            assert forall|m: usize, n: usize|
                m != n && self.map@.contains_key(m) && self.map@.contains_key(n) implies (
                #[trigger] self.map@[m]).0 != (#[trigger] self.map@[n]).0 by {}
        }
        let ghost before = self@;
        let ghost table = self.map@;
        let out = table_iter_mut(&mut self.map);
        let ghost items = out@;
        let it = out.into_iter();
        proof {
            assert forall|k: Int| #[trigger] before.contains_key(k) implies exists|i: int|
                0 <= i < items.len() && *(#[trigger] items[i]).0 == k by {
                let n = k.inner_spec();
                assert(table.contains_key(n));
                Int::inner_is_unique(&table[n].0, &k);
            }
        }
        it
    }

    /// Gives each key that `iter` yields the value that comes with it. Where
    /// a key comes more than once, its last value stays.
    pub fn extend<I: Iterator<Item = (Int, V)>>(&mut self, iter: I)
        requires
            old(self).wf(),
            iter.obeys_prophetic_iter_laws(),
            iter.decrease() is Some,
        ensures
            final(self).wf(),
            final(self)@ == insert_all(old(self)@, iter.remaining()),
    {
        let mut iter = iter;
        let ghost all = iter.remaining();
        let ghost mut done: int = 0;
        assert(all.take(0) =~= Seq::<(Int, V)>::empty());
        assert(all.skip(0) =~= all);
        loop
            invariant
                self.wf(),
                iter.obeys_prophetic_iter_laws(),
                iter.decrease() is Some,
                0 <= done <= all.len(),
                iter.remaining() == all.skip(done),
                self@ == insert_all(old(self)@, all.take(done)),
            ensures
                self.wf(),
                self@ == insert_all(old(self)@, all),
            decreases iter.decrease()->0,
        {
            match iter.next() {
                Some(pair) => {
                    self.insert(pair.0, pair.1);
                    proof {
                        assert(pair == all[done]);
                        assert(all.take(done + 1).drop_last() =~= all.take(done));
                        assert(all.take(done + 1).last() == pair);
                        assert(all.skip(done).drop_first() =~= all.skip(done + 1));
                        done = done + 1;
                    }
                },
                None => {
                    assert(all.take(done) =~= all);
                    break ;
                },
            }
        }
    }

    /// The map that gives each key that `iter` yields the value that comes
    /// with it.
    pub fn from_iter<I: Iterator<Item = (Int, V)>>(iter: I) -> (r: Self)
        requires
            iter.obeys_prophetic_iter_laws(),
            iter.decrease() is Some,
        ensures
            r.wf(),
            r@ == insert_all(Map::<Int, V>::empty(), iter.remaining()),
    {
        let mut r = Self::new();
        r.extend(iter);
        r
    }
}

impl<Int: IntWrap, V: Hash> Hash for IntHMap<Int, V> {
    /// Feeds the entries to the hasher by ascending integer of the key: for
    /// each one, the integer of its key, then its value. Two maps with the
    /// same entries feed the same, however they were filled.
    fn hash<H: Hasher>(&self, state: &mut H) {
        let keys = sorted_keys(&self.map);
        let mut i: usize = 0;
        while i < keys.len()
            invariant
                keys@.to_set() == self.map@.dom(),
            decreases keys@.len() - i,
        {
            let n: usize = keys[i];
            assert(keys@.to_set().contains(keys@[i as int]));
            match self.map.get(&n) {
                Some(pair) => {
                    write_usize_into(state, n);
                    hash_into(&pair.1, state);
                },
                None => {
                    assert(false);
                },
            }
            i = i + 1;
        }
    }
}

impl<Int: IntWrap, V> IntoIterator for IntHMap<Int, V> {
    type Item = (Int, V);

    type IntoIter = IntoIter<(Int, V)>;

    /// An iterator that takes the map and yields all its entries, each one
    /// once, in an order that is not told.
    fn into_iter(self) -> (it: IntoIter<(Int, V)>)
        requires
            self.wf(),
        ensures
            IteratorSpec::remaining(&it).to_set() == self@.kv_pairs(),
            IteratorSpec::remaining(&it).no_duplicates(),
            IteratorSpec::remaining(&it).len() == self@.len(),
            IteratorSpec::decrease(&it) is Some,
            IteratorSpec::initial_value_relation(&it, &it),
    {
        proof {
            lemma_entries_len(self.map@);
            lemma_entries_pairs(self.map@);
        }
        let out = table_into_values(self.map);
        proof {
            out@.lemma_no_dup_set_cardinality();
        }
        out.into_iter()
    }
}

impl<'a, Int: IntWrap, V> IntoIterator for &'a IntHMap<Int, V> {
    type Item = &'a (Int, V);

    type IntoIter = Values<'a, usize, (Int, V)>;

    /// The same as [`IntHMap::iter`].
    fn into_iter(self) -> (it: Values<'a, usize, (Int, V)>)
        requires
            self.wf(),
        ensures
            IteratorSpec::remaining(&it).unref().to_set() == self@.kv_pairs(),
            IteratorSpec::remaining(&it).unref().no_duplicates(),
            IteratorSpec::remaining(&it).len() == self@.len(),
            IteratorSpec::decrease(&it) is Some,
            IteratorSpec::initial_value_relation(&it, &it),
    {
        self.iter()
    }
}

impl<Int: IntWrap + Clone, V: Clone> Clone for IntHMap<Int, V> {
    /// A map of the same keys with the same values.
    fn clone(&self) -> (r: Self)
        ensures
            r@ == self@,
            self.wf() ==> r.wf(),
    {
        IntHMap { map: self.map.clone() }
    }
}

impl<'a, Int: IntWrap, V> IntoIterator for &'a mut IntHMap<Int, V> {
    type Item = (&'a Int, &'a mut V);

    type IntoIter = IntoIter<(&'a Int, &'a mut V)>;

    /// The same as [`IntHMap::iter_mut`].
    fn into_iter(self) -> (it: IntoIter<(&'a Int, &'a mut V)>)
        requires
            old(self).wf(),
        ensures
            final(self).wf(),
            final(self)@.dom() == old(self)@.dom(),
            IteratorSpec::remaining(&it).len() == old(self)@.len(),
            forall|i: int|
                0 <= i < IteratorSpec::remaining(&it).len() ==> old(self)@.contains_pair(
                    *(#[trigger] IteratorSpec::remaining(&it)[i]).0,
                    *IteratorSpec::remaining(&it)[i].1,
                ),
            forall|i: int, j: int|
                0 <= i < j < IteratorSpec::remaining(&it).len() ==> *(#[trigger] IteratorSpec::remaining(
                    &it,
                )[i]).0 != *(#[trigger] IteratorSpec::remaining(&it)[j]).0,
            forall|i: int|
                #![trigger IteratorSpec::remaining(&it)[i]]
                0 <= i < IteratorSpec::remaining(&it).len() ==> final(self)@.contains_key(
                    *IteratorSpec::remaining(&it)[i].0,
                ) && final(self)@[*IteratorSpec::remaining(&it)[i].0] == *final(IteratorSpec::remaining(&it)[i].1),
            forall|k: Int| #[trigger]
                old(self)@.contains_key(k) ==> exists|i: int|
                    0 <= i < IteratorSpec::remaining(&it).len() && *(#[trigger] IteratorSpec::remaining(
                        &it,
                    )[i]).0 == k,
            IteratorSpec::decrease(&it) is Some,
            IteratorSpec::initial_value_relation(&it, &it),
    {
        self.iter_mut()
    }
}

impl<Int: IntWrap, V> Default for IntHMap<Int, V> {
    /// The same as `new`.
    fn default() -> (r: Self)
        ensures
            r.wf(),
            r@ == Map::<Int, V>::empty(),
    {
        Self::new()
    }
}

} // verus!
