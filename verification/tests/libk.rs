use kaname::libk::mem::{memcmp, memcpy, memmove, memset};

#[test]
fn memcpy_copies_prefix() {
    let mut d = vec![9u8; 6];
    memcpy(&mut d, &vec![1, 2, 3, 4], 3);
    assert_eq!(d, vec![1, 2, 3, 9, 9, 9]);
    memcpy(&mut d, &vec![7], 0);
    assert_eq!(d, vec![1, 2, 3, 9, 9, 9]);
}

#[test]
fn memmove_forward_overlap() {
    let mut b = vec![1u8, 2, 3, 4, 5, 6, 7, 8];
    memmove(&mut b, 0, 2, 5);
    assert_eq!(b, vec![3, 4, 5, 6, 7, 6, 7, 8]);
}

#[test]
fn memmove_backward_overlap() {
    let mut b = vec![1u8, 2, 3, 4, 5, 6, 7, 8];
    memmove(&mut b, 2, 0, 5);
    assert_eq!(b, vec![1, 2, 1, 2, 3, 4, 5, 8]);
}

#[test]
fn memmove_disjoint_and_empty() {
    let mut b = vec![1u8, 2, 3, 4, 5, 6];
    memmove(&mut b, 4, 0, 2);
    assert_eq!(b, vec![1, 2, 3, 4, 1, 2]);
    memmove(&mut b, 3, 3, 3);
    assert_eq!(b, vec![1, 2, 3, 4, 1, 2]);
    memmove(&mut b, 0, 5, 0);
    assert_eq!(b, vec![1, 2, 3, 4, 1, 2]);
}

#[test]
fn memset_uses_low_byte() {
    let mut d = vec![0u8; 10];
    memset(&mut d, 0x1AB, 7);
    assert_eq!(d, vec![0xAB, 0xAB, 0xAB, 0xAB, 0xAB, 0xAB, 0xAB, 0, 0, 0]);
    memset(&mut d, -1, 2);
    assert_eq!(d[0], 0xFF);
    assert_eq!(d[1], 0xFF);
    assert_eq!(d[2], 0xAB);
}

#[test]
fn memcmp_first_difference() {
    let a = vec![1u8, 2, 3, 250];
    let b = vec![1u8, 2, 5, 0];
    assert_eq!(memcmp(&a, &b, 2), 0);
    assert_eq!(memcmp(&a, &b, 3), -2);
    assert_eq!(memcmp(&b, &a, 4), 2);
    assert_eq!(memcmp(&vec![250u8], &vec![0u8], 1), 250);
    assert_eq!(memcmp(&a, &a, 4), 0);
    assert_eq!(memcmp(&a, &b, 0), 0);
}
