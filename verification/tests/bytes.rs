use attestation::bytes::{bytes_equal, decode_u16, decode_u32};

#[test]
fn decodes_big_endian_integers() {
    assert_eq!(decode_u16(0x80, 0x18), 0x8018);
    assert_eq!(decode_u16(0xff, 0xff), u16::MAX);
    assert_eq!(decode_u32(0xff, 0x54, 0x43, 0x47), 0xff54_4347);
    assert_eq!(decode_u32(0xff, 0xff, 0xff, 0xff), u32::MAX);
    for n in [0u32, 1, 0x100, 0x1_0000, 0x100_0000, 0x1234_5678] {
        let b = n.to_be_bytes();
        assert_eq!(decode_u32(b[0], b[1], b[2], b[3]), n);
        assert_eq!(decode_u16(b[2], b[3]), n as u16);
    }
}

#[test]
fn compares_byte_strings() {
    assert!(bytes_equal(b"", b""));
    assert!(bytes_equal(b"abc", b"abc"));
    assert!(!bytes_equal(b"abc", b"abd"));
    assert!(!bytes_equal(b"abc", b"ab"));
    assert!(!bytes_equal(b"", b"a"));
}
