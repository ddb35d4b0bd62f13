use hv_msix::codec::{le_read_u16, le_read_u32, le_read_u64, le_write_u16, le_write_u32, le_write_u64, OutOfBounds};
use hv_msix::msix::ranges_overlap;

#[test]
fn reads_are_little_endian() {
    let buf = [0x01u8, 0x02, 0x03, 0x04, 0x05, 0x06, 0x07, 0x08, 0x09];
    assert_eq!(le_read_u16(&buf, 0), Ok(0x0201));
    assert_eq!(le_read_u32(&buf, 1), Ok(0x0504_0302));
    assert_eq!(le_read_u64(&buf, 1), Ok(0x0908_0706_0504_0302));
}

#[test]
fn reads_past_the_end_fail() {
    let buf = [0u8; 4];
    assert_eq!(le_read_u16(&buf, 3), Err(OutOfBounds));
    assert_eq!(le_read_u32(&buf, 1), Err(OutOfBounds));
    assert_eq!(le_read_u64(&buf, 0), Err(OutOfBounds));
    assert_eq!(le_read_u16(&buf, usize::MAX), Err(OutOfBounds));
}

#[test]
fn writes_are_little_endian() {
    let mut buf = vec![0xaau8; 12];
    assert_eq!(le_write_u16(&mut buf, 0, 0x1234), Ok(()));
    assert_eq!(le_write_u32(&mut buf, 2, 0xdead_beef), Ok(()));
    assert_eq!(buf[..6], [0x34, 0x12, 0xef, 0xbe, 0xad, 0xde]);
    assert_eq!(le_write_u64(&mut buf, 4, 0x0102_0304_0506_0708), Ok(()));
    assert_eq!(buf, vec![0x34, 0x12, 0xef, 0xbe, 8, 7, 6, 5, 4, 3, 2, 1]);
}

#[test]
fn writes_past_the_end_change_nothing() {
    let mut buf = vec![0u8; 3];
    assert_eq!(le_write_u32(&mut buf, 0, 1), Err(OutOfBounds));
    assert_eq!(le_write_u16(&mut buf, 2, 1), Err(OutOfBounds));
    assert_eq!(le_write_u64(&mut buf, 0, 1), Err(OutOfBounds));
    assert_eq!(buf, vec![0, 0, 0]);
}

#[test]
fn overlap_of_ranges() {
    assert!(ranges_overlap(0, 64, 32, 8));
    assert!(ranges_overlap(32, 8, 0, 64));
    assert!(!ranges_overlap(0, 64, 64, 8));
    assert!(!ranges_overlap(64, 8, 0, 64));
    assert!(!ranges_overlap(5, 0, 0, 10));
    assert!(ranges_overlap(0x43, 1, 0x43, 1));
    assert!(!ranges_overlap(usize::MAX, 1, 0, usize::MAX));
}
