use nereon::payload::{read_i32, read_i64, read_u32, read_u64};
use nereon::text::{text_until_nul, until_nul};

#[test]
fn unsigned_reads_are_little_endian() {
    let p = [1u8, 2, 3, 4, 5, 6, 7, 8];
    assert_eq!(read_u64(&p), 0x0807_0605_0403_0201);
    assert_eq!(read_u32(&p), 0x0403_0201);
}

#[test]
fn signed_reads_use_twos_complement() {
    assert_eq!(read_i64(&[0xff; 8]), -1);
    assert_eq!(read_i64(&[0, 0, 0, 0, 0, 0, 0, 0x80]), i64::MIN);
    assert_eq!(read_i32(&[0xfe, 0xff, 0xff, 0xff, 9, 9, 9, 9]), -2);
    assert_eq!(read_i32(&[0, 0, 0, 0x80, 0, 0, 0, 0]), i32::MIN);
}

#[test]
fn nul_terminated_bytes() {
    assert_eq!(until_nul(b"abc\0def"), Some(b"abc".to_vec()));
    assert_eq!(until_nul(b"\0"), Some(vec![]));
    assert_eq!(until_nul(b"abc"), None);
    assert_eq!(until_nul(b""), None);
}

#[test]
fn nul_terminated_text() {
    assert_eq!(text_until_nul(b"port\0\0\0"), Some("port".to_string()));
    assert_eq!(text_until_nul(&[0xff, 0]), None);
    assert_eq!(text_until_nul(b"port"), None);
}
