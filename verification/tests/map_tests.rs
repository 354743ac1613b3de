use mylib::safe::index::examples::VarMap;
use mylib::safe::index::map::IndexVecMap;
use mylib::safe::index::wrap::IndexType;
use std::mem::size_of;
use std::collections::hash_map::DefaultHasher;
use std::hash::Hash;
use std::hash::Hasher;

#[derive(Debug, Clone, Copy, PartialEq, Eq, PartialOrd, Ord, Hash)]
pub struct RowTag;

type Row = IndexType<RowTag>;
type RowMap<T> = IndexVecMap<RowTag, T>;

fn abc() -> RowMap<&'static str> {
    RowMap::of(vec!["a", "b", "c"])
}

#[test]
fn scenario_row_map() {
    let mut m: RowMap<String> = RowMap::new();
    m.push("x".to_string());
    m.push("y".to_string());
    m.push("z".to_string());
    assert_eq!(m.len(), 3);
    assert_eq!(m[Row::from_raw(1)], "y");
    assert_eq!(m.swap_remove(Row::from_raw(0)), "x");
    assert_eq!(m[Row::from_raw(0)], "z");
    assert_eq!(m.len(), 2);
    assert_eq!(m[Row::from_raw(1)], "y");
}

#[test]
fn next_index_is_the_index_of_the_next_push() {
    let mut m: RowMap<usize> = RowMap::new();
    for k in 0..50usize {
        assert_eq!(m.len(), k);
        let idx = m.next_index();
        assert_eq!(idx.raw(), k);
        m.push(k * 10);
        assert_eq!(m[idx], k * 10);
        assert_eq!(*m.get(idx), k * 10);
    }
    assert_eq!(m.len(), 50);
    for k in 0..50usize {
        assert_eq!(m[Row::from_raw(k)], k * 10);
    }
}

#[test]
fn new_and_with_capacity_are_empty() {
    let a: RowMap<u8> = RowMap::new();
    assert_eq!(a.len(), 0);
    assert_eq!(a.next_index(), Row::zero());
    let b: RowMap<u8> = RowMap::with_capacity(16);
    assert_eq!(b.len(), 0);
    assert!(b.capacity() >= 16);
    assert_eq!(b.next_index(), Row::zero());
}

#[test]
fn of_keeps_the_order() {
    let m = abc();
    assert_eq!(m.len(), 3);
    assert_eq!(m[Row::from_raw(0)], "a");
    assert_eq!(m[Row::from_raw(1)], "b");
    assert_eq!(m[Row::from_raw(2)], "c");
    let n: RowMap<&str> = vec!["a", "b", "c"].into();
    assert_eq!(m, n);
    assert_eq!(m.into_vec(), vec!["a", "b", "c"]);
}

#[test]
fn capacity_is_at_least_the_length() {
    let mut m: RowMap<u32> = RowMap::with_capacity(4);
    for k in 0..100 {
        m.push(k);
        assert!(m.capacity() >= m.len());
    }
    m.shrink_to_fit();
    assert!(m.capacity() >= m.len());
    assert_eq!(m.len(), 100);
    assert_eq!(m[Row::from_raw(99)], 99);
    assert_eq!(m[Row::from_raw(0)], 0);
}

#[test]
fn pop_takes_the_last_element() {
    let mut m = abc();
    assert_eq!(m.pop(), Some("c"));
    assert_eq!(m.len(), 2);
    assert_eq!(m.next_index().raw(), 2);
    assert_eq!(m.pop(), Some("b"));
    assert_eq!(m.pop(), Some("a"));
    assert_eq!(m.pop(), None);
    assert_eq!(m.pop(), None);
    assert_eq!(m.len(), 0);
}

#[test]
fn clear_empties_the_map() {
    let mut m = abc();
    m.clear();
    assert_eq!(m.len(), 0);
    assert_eq!(m.next_index(), Row::zero());
    m.push("d");
    assert_eq!(m[Row::zero()], "d");
}

#[test]
fn swap_remove_moves_the_last_element_into_the_slot() {
    let mut m = RowMap::of(vec![10, 20, 30, 40, 50]);
    assert_eq!(m.swap_remove(Row::from_raw(1)), 20);
    assert_eq!(m.len(), 4);
    assert_eq!(m.into_vec(), vec![10, 50, 30, 40]);
}

#[test]
fn swap_remove_of_the_last_index_only_shortens() {
    let mut m = RowMap::of(vec![10, 20, 30]);
    assert_eq!(m.swap_remove(Row::from_raw(2)), 30);
    assert_eq!(m.len(), 2);
    assert_eq!(m.into_vec(), vec![10, 20]);
    let mut one = RowMap::of(vec![7]);
    assert_eq!(one.swap_remove(Row::zero()), 7);
    assert_eq!(one.len(), 0);
}

#[test]
fn swap_lets_two_elements_change_places() {
    let mut m = RowMap::of(vec![10, 20, 30]);
    m.swap(Row::from_raw(0), Row::from_raw(2));
    assert_eq!(m.clone().into_vec(), vec![30, 20, 10]);
    m.swap(Row::from_raw(1), Row::from_raw(1));
    assert_eq!(m.into_vec(), vec![30, 20, 10]);
}

#[test]
fn set_and_get_mut_change_in_place() {
    let mut m = RowMap::of(vec![1, 2, 3]);
    m.set(Row::from_raw(1), 20);
    *m.get_mut(Row::from_raw(2)) += 30;
    m[Row::from_raw(0)] = 10;
    assert_eq!(m.len(), 3);
    assert_eq!(m.into_vec(), vec![10, 20, 33]);
}

#[test]
fn iter_goes_by_ascending_index() {
    let m = abc();
    let got: Vec<&str> = m.iter().copied().collect();
    assert_eq!(got, vec!["a", "b", "c"]);
    let mut seen = Vec::new();
    for x in &m {
        seen.push(*x);
    }
    assert_eq!(seen, vec!["a", "b", "c"]);
    let owned: Vec<&str> = m.into_iter().collect();
    assert_eq!(owned, vec!["a", "b", "c"]);
}

#[test]
fn iter_mut_changes_the_elements_and_not_their_number() {
    let mut m = RowMap::of(vec![1, 2, 3]);
    for x in m.iter_mut() {
        *x *= 2;
    }
    for x in &mut m {
        *x += 1;
    }
    assert_eq!(m.len(), 3);
    assert_eq!(m.into_vec(), vec![3, 5, 7]);
}

#[test]
fn iter_mut_yields_each_element_once_by_ascending_index() {
    let mut m = RowMap::of(vec![10, 20, 30, 40]);
    let mut seen = Vec::new();
    let mut it = m.iter_mut();
    while let Some(x) = it.next() {
        seen.push(*x);
        *x = seen.len();
        *x += 100;
    }
    assert!(it.next().is_none());
    assert_eq!(seen, vec![10, 20, 30, 40]);
    assert_eq!(m.len(), 4);
    assert_eq!(m[Row::from_raw(0)], 101);
    assert_eq!(m[Row::from_raw(3)], 104);
    let mut other = RowMap::of(vec![1, 2, 3]);
    let mut walk = (&mut other).into_iter();
    *walk.next().unwrap() = 7;
    assert_eq!(walk.next(), Some(&mut 2));
    assert_eq!(other.into_vec(), vec![7, 2, 3]);
    let mut none: RowMap<u8> = RowMap::new();
    assert!(none.iter_mut().next().is_none());
}

#[test]
fn index_iter_pairs_each_element_with_its_index() {
    let m = abc();
    let got: Vec<(usize, &str)> = m.index_iter().map(|(i, x)| (i.raw(), *x)).collect();
    assert_eq!(got, vec![(0, "a"), (1, "b"), (2, "c")]);
    let again: Vec<(Row, &&str)> = m.index_iter().collect();
    assert_eq!(again.len(), 3);
    assert_eq!(again[2], (Row::from_raw(2), &"c"));
    for (i, x) in m.index_iter() {
        assert_eq!(m[i], *x);
    }
    let none: RowMap<u8> = RowMap::new();
    assert_eq!(none.index_iter().count(), 0);
}

#[test]
fn into_index_iter_yields_in_ascending_order() {
    let m = abc();
    let got: Vec<(Row, &str)> = m.into_index_iter().collect();
    assert_eq!(
        got,
        vec![(Row::from_raw(0), "a"), (Row::from_raw(1), "b"), (Row::from_raw(2), "c")]
    );
    let words = RowMap::of(vec!["x".to_string(), "y".to_string()]);
    let mut it = words.into_index_iter();
    assert_eq!(it.next(), Some((Row::from_raw(0), "x".to_string())));
    assert_eq!(it.next(), Some((Row::from_raw(1), "y".to_string())));
    assert_eq!(it.next(), None);
    assert_eq!(it.next(), None);
    let none: RowMap<u8> = RowMap::new();
    assert_eq!(none.into_index_iter().next(), None);
}

#[test]
fn slices_by_raw_positions() {
    let m = RowMap::of(vec![10, 20, 30, 40]);
    assert_eq!(&m[1..3], &[20, 30]);
    assert_eq!(&m[2..], &[30, 40]);
    assert_eq!(&m[..2], &[10, 20]);
    assert_eq!(&m[4..], &[] as &[i32]);
    assert_eq!(&m[..0], &[] as &[i32]);
    assert_eq!(m.slice(0, 4), &[10, 20, 30, 40]);
    assert_eq!(m.slice(3, 3), &[] as &[i32]);
}

#[test]
fn extend_and_from_iter_push_in_order() {
    let mut m = RowMap::of(vec![1, 2]);
    m.extend(vec![3, 4, 5].into_iter());
    assert_eq!(m.len(), 5);
    assert_eq!(m[Row::from_raw(2)], 3);
    assert_eq!(m[Row::from_raw(4)], 5);
    m.extend(Vec::new().into_iter());
    assert_eq!(m.len(), 5);
    let n: RowMap<char> = RowMap::from_iter("abc".chars());
    assert_eq!(n.into_vec(), vec!['a', 'b', 'c']);
}

#[test]
fn of_elems_repeats_the_element() {
    let m: RowMap<String> = RowMap::of_elems("w".to_string(), 3);
    assert_eq!(m.len(), 3);
    assert_eq!(m.into_vec(), vec!["w", "w", "w"]);
    let none: RowMap<u8> = RowMap::of_elems(1, 0);
    assert_eq!(none.len(), 0);
}

#[test]
fn maps_are_equal_when_their_elements_are() {
    assert_eq!(RowMap::of(vec![1, 2, 3]), RowMap::of(vec![1, 2, 3]));
    assert_ne!(RowMap::of(vec![1, 2, 3]), RowMap::of(vec![1, 2, 4]));
    assert_ne!(RowMap::of(vec![1, 2, 3]), RowMap::of(vec![1, 2]));
    assert_ne!(RowMap::of(vec![1, 2]), RowMap::of(vec![1, 2, 3]));
    assert_eq!(RowMap::<u8>::new(), RowMap::<u8>::with_capacity(3));
    let m = RowMap::of(vec!["a".to_string()]);
    assert_eq!(m.clone(), m);
}

#[test]
fn a_map_reads_as_a_vector() {
    let m = abc();
    assert_eq!(m.first(), Some(&"a"));
    assert_eq!(m.last(), Some(&"c"));
    assert!(m.contains(&"b"));
    assert_eq!(m.as_slice(), &["a", "b", "c"]);
}

#[test]
fn a_map_is_as_large_as_a_vector() {
    assert_eq!(size_of::<VarMap<String>>(), size_of::<Vec<String>>());
}

#[test]
fn a_map_hashes_its_elements_in_order() {
    let m = RowMap::of(vec![1u8, 2, 3]);
    let mut a = DefaultHasher::new();
    m.hash(&mut a);
    let mut b = DefaultHasher::new();
    1u8.hash(&mut b);
    2u8.hash(&mut b);
    3u8.hash(&mut b);
    assert_eq!(a.finish(), b.finish());
    let mut c = DefaultHasher::new();
    RowMap::of(vec![3u8, 2, 1]).hash(&mut c);
    assert_ne!(a.finish(), c.finish());
}
