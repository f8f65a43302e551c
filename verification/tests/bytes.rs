use nearscreen_receiver::bytes::{push_be, read_be, same_bytes, to_be};

#[test]
fn numbers_are_big_endian() {
    assert_eq!(to_be(0x01020304, 4), 0x01020304u32.to_be_bytes().to_vec());
    assert_eq!(to_be(u64::MAX - 1, 8), (u64::MAX - 1).to_be_bytes().to_vec());
    assert_eq!(to_be(0x1_0000_0002, 4), vec![0, 0, 0, 2]);
    let mut out = vec![9];
    push_be(&mut out, 258, 2);
    assert_eq!(out, vec![9, 1, 2]);
}

#[test]
fn numbers_come_back() {
    for n in [0u64, 1, 255, 256, 9_876_543_210, u64::MAX] {
        assert_eq!(read_be(&to_be(n, 8), 0, 8), n);
    }
    assert_eq!(read_be(&[7, 1, 2, 7], 1, 2), 258);
}

#[test]
fn bytes_are_compared() {
    assert!(same_bytes(&[], &[]));
    assert!(same_bytes(&[1, 2], &[1, 2]));
    assert!(!same_bytes(&[1, 2], &[1, 3]));
    assert!(!same_bytes(&[1, 2], &[1]));
}
