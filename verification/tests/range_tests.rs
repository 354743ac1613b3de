use mylib::safe::index::examples::VarIndex;
use mylib::safe::index::examples::VarRange;
use mylib::safe::index::range::IndexRange;
use mylib::safe::index::wrap::IndexType;
use std::mem::size_of;

#[derive(Debug, Clone, Copy, PartialEq, Eq, PartialOrd, Ord, Hash)]
pub struct RowTag;

type Row = IndexType<RowTag>;
type RowRange = IndexRange<RowTag>;

fn raws(r: RowRange) -> Vec<usize> {
    r.map(|i| i.raw()).collect()
}

#[test]
fn range_yields_each_index_once() {
    let r = RowRange::new(Row::from_raw(2), Row::from_raw(5));
    assert_eq!(raws(r), vec![2, 3, 4]);
}

#[test]
fn range_yields_end_minus_start_values_strictly_increasing() {
    for (start, end) in [(0usize, 1usize), (0, 10), (3, 4), (7, 20), (100, 164)] {
        let got = raws(RowRange::new(Row::from_raw(start), Row::from_raw(end)));
        assert_eq!(got.len(), end - start);
        assert_eq!(got[0], start);
        assert_eq!(got[got.len() - 1], end - 1);
        for w in got.windows(2) {
            assert!(w[0] < w[1]);
            assert_eq!(w[0] + 1, w[1]);
        }
    }
}

#[test]
fn range_is_empty_when_start_is_not_below_end() {
    assert_eq!(raws(RowRange::new(Row::from_raw(5), Row::from_raw(5))), Vec::<usize>::new());
    assert_eq!(raws(RowRange::new(Row::from_raw(6), Row::from_raw(5))), Vec::<usize>::new());
    assert_eq!(raws(RowRange::new(Row::from_raw(usize::MAX), Row::zero())), Vec::<usize>::new());
    assert_eq!(raws(RowRange::zero_to(Row::zero())), Vec::<usize>::new());
}

#[test]
fn zero_to_starts_at_zero() {
    assert_eq!(raws(RowRange::zero_to(Row::from_raw(4))), vec![0, 1, 2, 3]);
    assert_eq!(raws(RowRange::zero_to(Row::one())), vec![0]);
}

#[test]
fn range_never_yields_its_end() {
    let end = Row::from_raw(usize::MAX);
    let r = RowRange::new(Row::from_raw(usize::MAX - 2), end);
    let got: Vec<Row> = r.collect();
    assert_eq!(got, vec![Row::from_raw(usize::MAX - 2), Row::from_raw(usize::MAX - 1)]);
    assert!(got.iter().all(|i| *i < end));
}

#[test]
fn range_is_used_up_by_walking_it() {
    let mut r = RowRange::new(Row::from_raw(1), Row::from_raw(3));
    assert_eq!(r.next(), Some(Row::from_raw(1)));
    assert_eq!(r.next(), Some(Row::from_raw(2)));
    assert_eq!(r.next(), None);
    assert_eq!(r.next(), None);
    let again = RowRange::new(Row::from_raw(1), Row::from_raw(3));
    assert_eq!(raws(again), vec![1, 2]);
}

#[test]
fn range_works_in_a_for_loop() {
    let mut sum = 0;
    for i in VarRange::zero_to(VarIndex::from_raw(5)) {
        sum += i.raw();
    }
    assert_eq!(sum, 10);
}

#[test]
fn a_range_is_two_indices() {
    assert_eq!(size_of::<VarRange>(), 2 * size_of::<usize>());
}
