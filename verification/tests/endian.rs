use libtardis::endian::{push_u64_le, read_u64_le, u64_be_bytes};

#[test]
fn push_u64_le_writes_least_significant_byte_first() {
    let mut out = vec![0xaau8];
    push_u64_le(&mut out, 0x0102_0304_0506_0708);
    assert_eq!(out, vec![0xaa, 8, 7, 6, 5, 4, 3, 2, 1]);
}

#[test]
fn push_u64_le_agrees_with_std() {
    for value in [0u64, 1, 16, 255, 256, 0xdead_beef, u64::MAX - 1, u64::MAX] {
        let mut out = Vec::new();
        push_u64_le(&mut out, value);
        assert_eq!(out, value.to_le_bytes().to_vec());
    }
}

#[test]
fn read_u64_le_reads_at_the_offset() {
    let bytes = [0xffu8, 0xff, 0x10, 0, 0, 0, 0, 0, 0, 0x80, 0xff];
    assert_eq!(read_u64_le(&bytes, 2), 0x8000_0000_0000_0010);
}

#[test]
fn read_u64_le_undoes_push_u64_le() {
    for value in [0u64, 1, 0x1234, 0xffff_ffff, 0x1_0000_0000, u64::MAX] {
        let mut out = vec![1u8, 2, 3];
        push_u64_le(&mut out, value);
        assert_eq!(read_u64_le(&out, 3), value);
    }
}

#[test]
fn u64_be_bytes_writes_most_significant_byte_first() {
    assert_eq!(u64_be_bytes(0x0102_0304_0506_0708), [1, 2, 3, 4, 5, 6, 7, 8]);
    assert_eq!(u64_be_bytes(0), [0; 8]);
    assert_eq!(u64_be_bytes(257), [0, 0, 0, 0, 0, 0, 1, 1]);
    assert_eq!(u64_be_bytes(u64::MAX), u64::MAX.to_be_bytes());
}
