use psoxide::arith::{div_toward_zero, rem_toward_zero};
use psoxide::word::{read_le16, read_le32, write_le16, write_le32};

#[test]
fn words_are_little_endian() {
    let mut v = vec![0u8; 8];
    write_le32(&mut v, 1, 0x1234_5678);
    assert_eq!(v, vec![0, 0x78, 0x56, 0x34, 0x12, 0, 0, 0]);
    assert_eq!(read_le32(&v, 1), 0x1234_5678);
    assert_eq!(read_le16(&v, 2), 0x3456);
    write_le16(&mut v, 6, 0xBEEF);
    assert_eq!(read_le16(&v, 6), 0xBEEF);
    assert_eq!(read_le32(&v, 1), 0x1234_5678);
}

#[test]
fn division_rounds_towards_zero() {
    assert_eq!(div_toward_zero(7, 2), 3);
    assert_eq!(div_toward_zero(-7, 2), -3);
    assert_eq!(div_toward_zero(7, -2), -3);
    assert_eq!(div_toward_zero(-7, -2), 3);
    assert_eq!(rem_toward_zero(7, 2), 1);
    assert_eq!(rem_toward_zero(-7, 2), -1);
    assert_eq!(rem_toward_zero(7, -2), 1);
    assert_eq!(rem_toward_zero(-7, -2), -1);
    assert_eq!(div_toward_zero(i32::MIN, 1), i32::MIN);
    assert_eq!(rem_toward_zero(0, -5), 0);
    for (n, d) in [(100, 7), (-100, 7), (100, -7), (-100, -7), (i32::MIN, 3)] {
        assert_eq!(div_toward_zero(n, d) * d + rem_toward_zero(n, d), n);
    }
}
