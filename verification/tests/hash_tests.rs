use mylib::safe::index::hash::BuildHashUsize;
use mylib::safe::index::hash::HashUsize;
use mylib::safe::index::hash::USIZE_BYTES;
use std::collections::HashMap;
use std::collections::HashSet;
use mylib::safe::index::map::IndexVecMap;
use std::hash::BuildHasher;
use std::hash::Hash;
use std::hash::Hasher;
use std::mem::size_of;

pub struct RowTag;

type RowMap<T> = IndexVecMap<RowTag, T>;

fn hash_of_le_bytes(n: usize) -> u64 {
    let mut h = BuildHashUsize::default().build_hasher();
    h.write(&n.to_le_bytes());
    h.finish()
}

#[test]
fn usize_bytes_is_the_width_of_usize() {
    assert_eq!(USIZE_BYTES, size_of::<usize>());
    assert!(USIZE_BYTES == 4 || USIZE_BYTES == 8);
}

#[test]
fn has_width_accepts_the_width_of_usize_only() {
    assert!(HashUsize::has_width(&0usize.to_le_bytes()));
    assert!(HashUsize::has_width(&vec![0u8; USIZE_BYTES]));
    assert!(!HashUsize::has_width(&[]));
    assert!(!HashUsize::has_width(&[1u8]));
    assert!(!HashUsize::has_width(&[0u8; 3]));
    assert!(!HashUsize::has_width(&vec![0u8; USIZE_BYTES - 1]));
    assert!(!HashUsize::has_width(&vec![0u8; USIZE_BYTES + 1]));
    assert!(!HashUsize::has_width(&[0u8; 16]));
}

#[test]
fn test_bytes_passes_the_width_of_usize() {
    HashUsize::test_bytes(&0usize.to_le_bytes());
    HashUsize::test_bytes(&usize::MAX.to_le_bytes());
    HashUsize::test_bytes(&vec![7u8; USIZE_BYTES]);
}

#[test]
fn a_write_of_another_width_does_not_stop_the_program() {
    let mut h = BuildHashUsize {}.build_hasher();
    h.write(&0x0102usize.to_le_bytes());
    h.write(&[9u8]);
    assert_eq!(h.finish(), 0x0109);
    h.write(&[]);
    assert_eq!(h.finish(), 0x0109);
    h.write(&[1u8; 16]);
    assert_eq!(h.finish(), u64::from_le_bytes([1u8; 8]) >> (8 * (8 - USIZE_BYTES)));
    let mut g = BuildHashUsize {}.build_hasher();
    5u8.hash(&mut g);
    "text".hash(&mut g);
    RowMap::of(vec![1u8, 2, 3]).hash(&mut g);
    let _ = g.finish();
}

#[test]
fn a_new_hasher_holds_zero() {
    assert_eq!(BuildHashUsize {}.build_hasher().finish(), 0);
}

#[test]
fn the_hash_of_an_integer_is_the_integer() {
    for n in [0usize, 1, 2, 255, 256, 257, 65_535, 65_536, 0x0102_0304, usize::MAX - 1, usize::MAX] {
        assert_eq!(hash_of_le_bytes(n), n as u64);
    }
}

#[test]
fn finish_reads_little_endian() {
    let mut bytes = vec![0u8; USIZE_BYTES];
    bytes[0] = 1;
    let mut h = BuildHashUsize {}.build_hasher();
    h.write(&bytes);
    assert_eq!(h.finish(), 1);
    bytes[0] = 0;
    bytes[1] = 1;
    h.write(&bytes);
    assert_eq!(h.finish(), 256);
    bytes[1] = 2;
    bytes[USIZE_BYTES - 1] = 0x80;
    h.write(&bytes);
    assert_eq!(h.finish(), 512 + (0x80u64 << (8 * (USIZE_BYTES - 1))));
}

#[test]
fn a_write_replaces_what_was_written() {
    let mut h = BuildHashUsize {}.build_hasher();
    h.write(&77usize.to_le_bytes());
    h.write(&5usize.to_le_bytes());
    assert_eq!(h.finish(), 5);
    assert_eq!(h.finish(), 5);
}

#[test]
fn the_hasher_keys_the_tables_of_std() {
    let mut m: HashMap<usize, &str, BuildHashUsize> = HashMap::with_hasher(BuildHashUsize {});
    for n in 0..1000usize {
        m.insert(n * 7, "v");
    }
    m.insert(3 * 7, "w");
    assert_eq!(m.len(), 1000);
    assert_eq!(m.get(&21), Some(&"w"));
    assert_eq!(m.get(&28), Some(&"v"));
    assert_eq!(m.get(&1), None);
    let mut s: HashSet<usize, BuildHashUsize> = HashSet::default();
    assert!(s.insert(usize::MAX));
    assert!(!s.insert(usize::MAX));
    assert!(s.contains(&usize::MAX));
    assert!(!s.contains(&0));
    assert_eq!(BuildHashUsize {}.hash_one(41usize), 41usize.to_le() as u64);
    let _again = BuildHashUsize {}.clone();
}
