use snap_sync::primitives::B256;

fn with_byte(at: usize, byte: u8) -> B256 {
    let mut bytes = [5u8; 32];
    bytes[at] = byte;
    B256(bytes)
}

#[test]
fn hashes_are_ordered_byte_by_byte() {
    assert!(B256::zero().precedes(&B256::repeat_byte(0xff)));
    assert!(!B256::repeat_byte(0xff).precedes(&B256::zero()));
    assert!(!B256::zero().precedes(&B256::zero()));
    assert!(with_byte(31, 4).precedes(&with_byte(31, 5)));
    assert!(!with_byte(31, 6).precedes(&with_byte(31, 5)));
    // The first difference decides.
    assert!(with_byte(3, 4).precedes(&with_byte(30, 0)));
    for (a, b) in [(with_byte(0, 1), with_byte(9, 200)), (with_byte(7, 9), with_byte(7, 8))] {
        let (x, y) = (alloy_primitives::B256::from(a.0), alloy_primitives::B256::from(b.0));
        assert_eq!(a.precedes(&b), x < y);
        assert_ne!(a.precedes(&b), b.precedes(&a));
    }
}

#[test]
fn hashes_are_equal_by_their_bytes() {
    assert_eq!(B256::from_slice(&[7; 32]), B256::repeat_byte(7));
    assert_ne!(with_byte(31, 4), with_byte(31, 5));
    assert_eq!(B256::zero(), B256([0; 32]));
}
