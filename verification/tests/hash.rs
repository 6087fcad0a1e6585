use crypsinous::hash::{blake3, Digest};

#[test]
fn blake3_of_nothing() {
    let expected: [u8; 32] = [
        0xaf, 0x13, 0x49, 0xb9, 0xf5, 0xf9, 0xa1, 0xa6, 0xa0, 0x40, 0x4d, 0xea, 0x36, 0xdc, 0xc9,
        0x49, 0x9b, 0xcb, 0x25, 0xc9, 0xad, 0xc1, 0x12, 0xb7, 0xcc, 0x9a, 0x93, 0xca, 0xe4, 0x1f,
        0x32, 0x62,
    ];
    assert_eq!(blake3(&[]).to_bytes(), expected);
}

#[test]
fn blake3_depends_on_the_data() {
    assert_eq!(blake3(b"slot"), blake3(b"slot"));
    assert_ne!(blake3(b"slot"), blake3(b"slos"));
    assert_ne!(blake3(b"slot").to_bytes(), [0u8; 32]);
    assert!(blake3(b"slot").same(&blake3(b"slot")));
    assert!(!blake3(b"slot").same(&blake3(b"")));
}

#[test]
fn digest_keeps_its_bytes() {
    let mut bytes = [0u8; 32];
    bytes[3] = 7;
    let d = Digest::new(bytes);
    assert_eq!(d.to_bytes(), bytes);
    assert!(d.same(&Digest::new(bytes)));
    assert!(!d.same(&Digest::new([0u8; 32])));
}
