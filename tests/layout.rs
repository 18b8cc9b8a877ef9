use open_jsw::layout::{unpack_byte, unpack_layout};

#[test]
fn one_byte_unpacks_to_four_pairs() {
    assert_eq!(unpack_layout(&[0b01_10_11_00]), vec![1, 2, 3, 0]);
    assert_eq!(unpack_byte(0b01_10_11_00), [1, 2, 3, 0]);
}

#[test]
fn bytes_unpack_in_order() {
    assert_eq!(unpack_layout(&[0b11_00_00_01, 0b00_10_00_00]), vec![3, 0, 0, 1, 0, 2, 0, 0]);
    assert!(unpack_layout(&[]).is_empty());
}
