use kv_iter::decimal::{digit_count, push_digits, push_zero_padded};
use kv_iter::kv::{advance, collect_all, copy_bytes, refill, KvIterator, TestIterator};

fn pair(k: &str, v: &str) -> (Vec<u8>, Vec<u8>) {
    (k.as_bytes().to_vec(), v.as_bytes().to_vec())
}

#[test]
fn yields_three_pairs_then_none() {
    let mut it = TestIterator::new(0, 3);
    assert_eq!(it.next3(), Some(pair("key_00000", "value_00000")));
    assert_eq!(it.next3(), Some(pair("key_00001", "value_00001")));
    assert_eq!(it.next3(), Some(pair("key_00002", "value_00002")));
    assert_eq!(it.next3(), None);
}

#[test]
fn count_is_to_minus_from_and_exhaustion_is_idempotent() {
    let mut it = TestIterator::new(7, 19);
    let all = collect_all(&mut it);
    assert_eq!(all.len(), 12);
    assert_eq!(all[0], pair("key_00007", "value_00007"));
    assert_eq!(all[11], pair("key_00018", "value_00018"));
    for _ in 0..5 {
        assert_eq!(it.next3(), None);
        assert_eq!(it.next1(), None);
        assert_eq!(it.next2(), None);
    }
}

#[test]
fn empty_bounds_yield_nothing() {
    let mut it = TestIterator::new(4, 4);
    assert_eq!(it.next1(), None);
    let mut reversed = TestIterator::new(9, 2);
    assert_eq!(reversed.next3(), None);
}

#[test]
fn three_entry_points_agree() {
    let mut a = TestIterator::new(95, 105);
    let mut b = TestIterator::new(95, 105);
    let mut c = TestIterator::new(95, 105);
    loop {
        let x = a.next1();
        let y = b.next2();
        let z = c.next3();
        assert_eq!(x, y);
        assert_eq!(y, z);
        if x.is_none() {
            break;
        }
    }
}

#[test]
fn mixed_entry_points_follow_one_sequence() {
    let mut it = TestIterator::new(10, 13);
    assert_eq!(it.next1(), Some(pair("key_00010", "value_00010")));
    assert_eq!(it.next2(), Some(pair("key_00011", "value_00011")));
    assert_eq!(advance(&mut it), Some(pair("key_00012", "value_00012")));
    assert_eq!(it.next3(), None);
}

#[test]
fn positions_past_five_digits_are_not_truncated() {
    let mut it = TestIterator::new(99999, 100001);
    assert_eq!(it.next3(), Some(pair("key_99999", "value_99999")));
    assert_eq!(it.next3(), Some(pair("key_100000", "value_100000")));
    assert_eq!(it.next3(), None);
}

#[test]
fn largest_position() {
    let mut it = TestIterator::new(usize::MAX - 1, usize::MAX);
    let expected = format!("{}", usize::MAX - 1);
    let (k, v) = it.next3().unwrap();
    assert_eq!(k, format!("key_{}", expected).into_bytes());
    assert_eq!(v, format!("value_{}", expected).into_bytes());
    assert_eq!(it.next3(), None);
}

#[test]
fn decimal_formatting() {
    let mut out = Vec::new();
    push_digits(0, &mut out);
    assert_eq!(out, b"0".to_vec());
    let mut out = b"x".to_vec();
    push_digits(40213, &mut out);
    assert_eq!(out, b"x40213".to_vec());
    assert_eq!(digit_count(0), 1);
    assert_eq!(digit_count(9), 1);
    assert_eq!(digit_count(10), 2);
    assert_eq!(digit_count(123456), 6);
    let mut out = Vec::new();
    push_zero_padded(42, 5, &mut out);
    assert_eq!(out, b"00042".to_vec());
    let mut out = Vec::new();
    push_zero_padded(1234567, 5, &mut out);
    assert_eq!(out, b"1234567".to_vec());
    let mut out = Vec::new();
    push_zero_padded(7, 0, &mut out);
    assert_eq!(out, b"7".to_vec());
}

#[test]
fn byte_copies() {
    let mut dst = b"old contents".to_vec();
    refill(&mut dst, b"new");
    assert_eq!(dst, b"new".to_vec());
    assert_eq!(copy_bytes(b"abc"), b"abc".to_vec());
    assert_eq!(copy_bytes(b""), Vec::<u8>::new());
}
