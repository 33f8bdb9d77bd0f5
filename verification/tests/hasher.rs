use friidump::hasher::{to_hex, MultiHash};

#[test]
fn digests_of_check_string() {
    let mut h = MultiHash::new();
    h.update(b"123456789");
    let d = h.finish();
    assert_eq!(d.crc32, "cbf43926");
    assert_eq!(d.md5, "25f9e794323b453885f5181f1b624d0b");
    assert_eq!(d.sha1, "f7c3bc1d808e04732adf679965ccc34ca7ae3441");
}

#[test]
fn digests_of_nothing() {
    let d = MultiHash::new().finish();
    assert_eq!(d.crc32, "00000000");
    assert_eq!(d.md5, "d41d8cd98f00b204e9800998ecf8427e");
    assert_eq!(d.sha1, "da39a3ee5e6b4b0d3255bfef95601890afd80709");
}

#[test]
fn split_updates_equal_one_update() {
    let mut a = MultiHash::new();
    a.update(b"abc");
    let mut b = MultiHash::new();
    b.update(b"a");
    b.update(b"");
    b.update(b"bc");
    let (da, db) = (a.finish(), b.finish());
    assert_eq!(da, db);
    assert_eq!(da.sha1, "a9993e364706816aba3e25717850c26c9cd0d89d");
    assert_eq!(da.md5, "900150983cd24fb0d6963f7d28e17f72");
    assert_eq!(da.crc32, "352441c2");
}

#[test]
fn hex_is_lowercase_two_digits_per_byte() {
    assert_eq!(to_hex(&[0x00, 0x0a, 0xff, 0x10]), "000aff10");
    assert_eq!(to_hex(&[]), "");
}

#[test]
fn default_hasher_is_empty() {
    assert_eq!(MultiHash::default().finish(), MultiHash::new().finish());
}
