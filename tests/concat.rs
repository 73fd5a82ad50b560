use kv_iter::concat::ConcatIterator;
use kv_iter::kv::{collect_all, KvIterator, TestIterator};

fn key(i: usize) -> Vec<u8> {
    format!("key_{:05}", i).into_bytes()
}

fn value(i: usize) -> Vec<u8> {
    format!("value_{:05}", i).into_bytes()
}

#[test]
fn concatenation_skips_empty_sources() {
    let mut it = ConcatIterator::new(vec![
        TestIterator::new(0, 2),
        TestIterator::new(0, 0),
        TestIterator::new(5, 7),
    ]);
    for i in [0, 1, 5, 6] {
        assert_eq!(it.next3(), Some((key(i), value(i))));
    }
    assert_eq!(it.next3(), None);
}

#[test]
fn concatenation_of_nothing_is_empty() {
    let mut it: ConcatIterator<TestIterator> = ConcatIterator::new(Vec::new());
    assert_eq!(it.next3(), None);
}

#[test]
fn exhausted_concatenation_stays_exhausted() {
    let mut it = ConcatIterator::new(vec![TestIterator::new(3, 4), TestIterator::new(0, 0)]);
    assert_eq!(it.next3(), Some((key(3), value(3))));
    for _ in 0..4 {
        assert_eq!(it.next3(), None);
    }
}

#[test]
fn nested_concatenation_flattens_in_order() {
    let inner_a = ConcatIterator::new(vec![TestIterator::new(1, 3), TestIterator::new(8, 9)]);
    let inner_b = ConcatIterator::new(vec![TestIterator::new(0, 0)]);
    let inner_c = ConcatIterator::new(vec![TestIterator::new(20, 22)]);
    let mut outer = ConcatIterator::new(vec![inner_a, inner_b, inner_c]);
    let all = collect_all(&mut outer);
    let expected: Vec<(Vec<u8>, Vec<u8>)> =
        [1, 2, 8, 20, 21].iter().map(|&i| (key(i), value(i))).collect();
    assert_eq!(all, expected);
    assert_eq!(outer.next3(), None);
}
