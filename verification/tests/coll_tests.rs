use mylib::coll::ChainOne;
use mylib::coll::ChainOneExt;

#[test]
fn chain_one_adds_an_element_at_the_end() {
    let mut data = vec![7, 5, 3];
    data = data.into_iter().chain_one(2).collect();
    assert_eq!(vec![7, 5, 3, 2], data)
}

#[test]
fn chain_one_works_on_references() {
    let data = vec![7, 5, 3];
    let two = 2;
    let ref_data: Vec<_> = data.iter().chain_one(&two).collect();
    assert_eq!(vec![&7, &5, &3, &2], ref_data)
}

#[test]
fn chain_one_on_an_empty_iterator_yields_the_element() {
    let mut it: ChainOne<u8, std::vec::IntoIter<u8>> = Vec::new().into_iter().chain_one(9);
    assert_eq!(it.next(), Some(9));
    assert_eq!(it.next(), None);
    assert_eq!(it.next(), None);
}

#[test]
fn chain_one_yields_the_element_once() {
    let mut it = vec!['a'].into_iter().chain_one('z');
    assert_eq!(it.next(), Some('a'));
    assert_eq!(it.next(), Some('z'));
    assert_eq!(it.next(), None);
    let twice: Vec<u8> = vec![1].into_iter().chain_one(2).chain_one(3).collect();
    assert_eq!(twice, vec![1, 2, 3]);
}
