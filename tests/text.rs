use zeroclaw_ui::text::{BoundedText, CapacityError};

#[test]
fn push_within_capacity_keeps_input() {
    let mut b: BoundedText<8> = BoundedText::new();
    assert_eq!(b.push_str("abc"), Ok(()));
    assert_eq!(b.as_str(), "abc");
    assert_eq!(b.len(), 3);
}

#[test]
fn push_exactly_capacity_succeeds() {
    let mut b: BoundedText<4> = BoundedText::new();
    assert_eq!(b.push_str("abcd"), Ok(()));
    assert_eq!(b.as_str(), "abcd");
}

#[test]
fn push_over_capacity_fails_unchanged() {
    let mut b: BoundedText<4> = BoundedText::new();
    b.push_str("ab").unwrap();
    assert_eq!(b.push_str("cde"), Err(CapacityError));
    assert_eq!(b.as_str(), "ab");
    let mut e: BoundedText<2> = BoundedText::new();
    assert_eq!(e.push_str("xyz"), Err(CapacityError));
    assert!(e.is_empty());
}

#[test]
fn capacity_counts_bytes() {
    let mut b: BoundedText<3> = BoundedText::new();
    assert_eq!(b.push_str("é"), Ok(()));
    assert_eq!(b.len(), 2);
    assert_eq!(b.push_str("é"), Err(CapacityError));
    assert_eq!(b.as_str(), "é");
}

#[test]
fn clear_empties_and_copy_is_independent() {
    let mut b: BoundedText<8> = BoundedText::from_str("hello").unwrap();
    let c = b.duplicate();
    b.clear();
    assert!(b.is_empty());
    assert_eq!(c.as_str(), "hello");
    assert_eq!(c.capacity(), 8);
    assert!(BoundedText::<2>::from_str("abc").is_err());
}
