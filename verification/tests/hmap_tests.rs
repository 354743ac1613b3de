use mylib::safe::index::examples::VarHMap;
use mylib::safe::index::examples::VarIndex;
use mylib::safe::index::wrap::IndexType;
use mylib::safe::index::IntHMap;
use std::collections::hash_map::DefaultHasher;
use std::hash::Hash;
use std::hash::Hasher;

#[derive(Debug, Clone, Copy, PartialEq, Eq, PartialOrd, Ord, Hash)]
pub struct RowTag;

type Row = IndexType<RowTag>;
type RowHMap<V> = IntHMap<Row, V>;

fn row(n: usize) -> Row {
    Row::from_raw(n)
}

fn sorted<V: Ord>(mut v: Vec<(usize, V)>) -> Vec<(usize, V)> {
    v.sort();
    v
}

#[test]
fn new_maps_are_empty() {
    let a: RowHMap<u8> = RowHMap::new();
    assert_eq!(a.len(), 0);
    assert!(a.is_empty());
    assert_eq!(a.get(&row(0)), None);
    assert!(!a.contains_key(&row(0)));
    let b: RowHMap<u8> = RowHMap::with_capacity(100);
    assert!(b.is_empty());
    let c: RowHMap<u8> = RowHMap::default();
    assert!(c.is_empty());
    assert_eq!(a, b);
    assert_eq!(a.iter().count(), 0);
}

#[test]
fn distinct_keys_keep_their_values() {
    let mut m = RowHMap::new();
    assert_eq!(m.insert(row(1), "one"), None);
    assert_eq!(m.insert(row(2), "two"), None);
    assert_eq!(m.get(&row(1)), Some(&"one"));
    assert_eq!(m.get(&row(2)), Some(&"two"));
    assert_eq!(m.insert(row(1), "uno"), Some("one"));
    assert_eq!(m.get(&row(1)), Some(&"uno"));
    assert_eq!(m.get(&row(2)), Some(&"two"));
    assert_eq!(m.len(), 2);
    assert!(m.contains_key(&row(1)));
    assert!(m.contains_key(&row(2)));
    assert!(!m.contains_key(&row(3)));
    assert_eq!(m.get(&row(3)), None);
}

#[test]
fn remove_gives_the_value_back() {
    let mut m = RowHMap::new();
    m.insert(row(1), 10);
    m.insert(row(2), 20);
    assert_eq!(m.remove(&row(1)), Some(10));
    assert_eq!(m.remove(&row(1)), None);
    assert_eq!(m.remove(&row(7)), None);
    assert_eq!(m.len(), 1);
    assert_eq!(m.get(&row(2)), Some(&20));
    m.clear();
    assert!(m.is_empty());
    assert_eq!(m.get(&row(2)), None);
}

#[test]
fn iter_visits_each_entry_once() {
    let mut m = RowHMap::new();
    for n in [9usize, 1, 5, 0, usize::MAX] {
        m.insert(row(n), n / 2);
    }
    m.insert(row(5), 500);
    let want = vec![(0, 0), (1, 0), (5, 500), (9, 4), (usize::MAX, usize::MAX / 2)];
    assert_eq!(sorted(m.iter().map(|(k, v)| (k.raw(), *v)).collect()), want);
    let mut seen = Vec::new();
    for (k, v) in &m {
        seen.push((k.raw(), *v));
    }
    assert_eq!(sorted(seen), want);
    assert_eq!(sorted(m.into_iter().map(|(k, v)| (k.raw(), v)).collect()), want);
}

#[test]
fn iter_mut_changes_values_in_place() {
    let mut m = RowHMap::new();
    m.insert(row(1), 10);
    m.insert(row(2), 20);
    m.insert(row(3), 30);
    for (k, v) in m.iter_mut() {
        *v += k.raw();
    }
    assert_eq!(m.len(), 3);
    assert_eq!(m.get(&row(1)), Some(&11));
    assert_eq!(m.get(&row(2)), Some(&22));
    assert_eq!(m.get(&row(3)), Some(&33));
    assert_eq!(m.iter_mut().count(), 3);
}

#[test]
fn iter_mut_leaves_what_was_written_under_each_key() {
    let mut m = RowHMap::new();
    for n in 0..100usize {
        m.insert(row(n), n);
    }
    let mut seen = Vec::new();
    for (k, v) in &mut m {
        assert_eq!(k.raw(), *v);
        seen.push(k.raw());
        *v = 2 * *v + 1;
    }
    seen.sort();
    assert_eq!(seen, (0..100usize).collect::<Vec<usize>>());
    assert_eq!(m.len(), 100);
    for n in 0..100usize {
        assert_eq!(m.get(&row(n)), Some(&(2 * n + 1)));
    }
    let _unused = m.iter_mut();
    assert_eq!(m.get(&row(7)), Some(&15));
}

#[test]
fn equal_maps_hash_alike_however_they_were_filled() {
    let mut a = RowHMap::with_capacity(1000);
    let mut b = RowHMap::new();
    for n in 0..200usize {
        a.insert(row(n * 3), n as u8);
        b.insert(row((199 - n) * 3), (199 - n) as u8);
    }
    b.insert(row(1), 0);
    b.remove(&row(1));
    assert_eq!(a, b);
    let mut ha = DefaultHasher::new();
    a.hash(&mut ha);
    let mut hb = DefaultHasher::new();
    b.hash(&mut hb);
    assert_eq!(ha.finish(), hb.finish());
    let mut hc = DefaultHasher::new();
    a.clone().hash(&mut hc);
    assert_eq!(ha.finish(), hc.finish());
    let mut want = DefaultHasher::new();
    for n in 0..200usize {
        want.write_usize(n * 3);
        (n as u8).hash(&mut want);
    }
    assert_eq!(ha.finish(), want.finish());
    b.insert(row(0), 9);
    let mut hd = DefaultHasher::new();
    b.hash(&mut hd);
    assert_ne!(ha.finish(), hd.finish());
}

#[test]
fn map_from_iter_and_extend_insert_in_bulk() {
    let mut m = RowHMap::from_iter(vec![(row(1), 'a'), (row(2), 'b'), (row(1), 'c')].into_iter());
    assert_eq!(m.len(), 2);
    assert_eq!(m.get(&row(1)), Some(&'c'));
    m.extend(vec![(row(2), 'x'), (row(3), 'y')].into_iter());
    assert_eq!(sorted(m.iter().map(|(k, v)| (k.raw(), *v)).collect()), vec![(1, 'c'), (2, 'x'), (3, 'y')]);
    m.extend(Vec::new().into_iter());
    assert_eq!(m.len(), 3);
}

#[test]
fn map_many_keys_with_clustered_integers() {
    let mut m: VarHMap<usize> = VarHMap::new();
    for n in 0..2000usize {
        assert_eq!(m.insert(VarIndex::from_raw(n << 16), n), None);
    }
    assert_eq!(m.len(), 2000);
    for n in 0..2000usize {
        assert_eq!(m.get(&VarIndex::from_raw(n << 16)), Some(&n));
    }
}

#[test]
fn maps_compare_and_clone() {
    let a = RowHMap::from_iter(vec![(row(1), 1), (row(2), 2)].into_iter());
    let b = RowHMap::from_iter(vec![(row(2), 2), (row(1), 1)].into_iter());
    let c = RowHMap::from_iter(vec![(row(1), 1), (row(2), 3)].into_iter());
    assert_eq!(a, b);
    assert_ne!(a, c);
    assert_eq!(a.clone(), a);
}

#[test]
fn a_map_hashes_its_integers_and_values() {
    let mut m = RowHMap::new();
    m.insert(row(3), 30u8);
    let mut a = DefaultHasher::new();
    m.hash(&mut a);
    let mut b = DefaultHasher::new();
    b.write_usize(3);
    30u8.hash(&mut b);
    assert_eq!(a.finish(), b.finish());
    let empty: RowHMap<u8> = RowHMap::new();
    let mut c = DefaultHasher::new();
    empty.hash(&mut c);
    assert_eq!(c.finish(), DefaultHasher::new().finish());
}
