use friidump::drive::mmc::{
    e7_memdump, flush_cache_read12, inquiry, parse_layerbreak, parse_read_capacity,
    read12_dummy, read12_streaming, read12_streaming_n, read_buffer_2384,
    read_buffer_vanilla2064, read_capacity, read_dvd_structure, set_speed, set_streaming,
    stop_unit, Direction,
};

#[test]
fn inquiry_cdb() {
    let c = inquiry(36);
    assert_eq!(c.cdb[0], 0x12);
    assert_eq!(c.cdb[4], 36);
    assert_eq!(c.direction, Direction::FromDevice);
    assert_eq!(c.length, 36);
}

#[test]
fn read12_dummy_has_fua_and_be_fields() {
    let c = read12_dummy(0x00123456, 16);
    assert_eq!(c.cdb[0], 0xA8);
    assert_eq!(c.cdb[1], 0x08);
    assert_eq!(&c.cdb[2..6], &[0x00, 0x12, 0x34, 0x56]);
    assert_eq!(&c.cdb[6..10], &[0, 0, 0, 16]);
    assert_eq!(c.length, 0);
}

#[test]
fn read12_streaming_fixed_16() {
    let c = read12_streaming(0x00000020);
    assert_eq!(c.cdb[0], 0xA8);
    assert_eq!(&c.cdb[2..6], &[0, 0, 0, 0x20]);
    assert_eq!(c.cdb[9], 0x10);
    assert_eq!(c.cdb[10], 0x80);
}

#[test]
fn set_streaming_payload() {
    let c = set_streaming(0x0000_0ABC);
    assert_eq!(c.cdb[0], 0xB6);
    assert_eq!(c.cdb[10], 28);
    assert_eq!(c.direction, Direction::ToDevice);
    assert_eq!(c.data.len(), 28);
    assert_eq!(&c.data[8..12], &[0xFF; 4]);
    assert_eq!(&c.data[12..16], &[0, 0, 0x0A, 0xBC]);
    assert_eq!(&c.data[16..20], &1000u32.to_be_bytes());
}

#[test]
fn e7_memdump_cdb() {
    let c = e7_memdump(0xA13000, 12);
    assert_eq!(c.cdb[0], 0xE7);
    assert_eq!(&c.cdb[1..5], b"HIT\x01");
    assert_eq!(&c.cdb[6..10], &[0x00, 0xA1, 0x30, 0x00]);
    assert_eq!(c.cdb[10], 0x00);
    assert_eq!(c.cdb[11], 12);
}

#[test]
fn read_buffer_2384_scales_offset_and_length() {
    let c = read_buffer_2384(0, 16 * 2064, false);
    assert_eq!(c.cdb[0], 0x3C);
    assert_eq!(c.cdb[1], 0x02);
    assert_eq!(&c.cdb[6..9], &[0x00, 0x95, 0x00]);
    let l = read_buffer_2384(0, 16 * 2064, true);
    assert_eq!(&l.cdb[1..3], &[0x01, 0x01]);
}

#[test]
fn parse_read_capacity_be() {
    let mut buf = [0u8; 0x22];
    buf[0x18..0x1c].copy_from_slice(&712_880u32.to_be_bytes());
    assert_eq!(parse_read_capacity(&buf), 712_880);
}

#[test]
fn parse_layerbreak_applies_offset() {
    let mut buf = [0u8; 2052];
    let raw: u32 = 0x21_0000;
    buf[0x11] = (raw >> 16) as u8;
    buf[0x12] = (raw >> 8) as u8;
    buf[0x13] = raw as u8;
    assert_eq!(parse_layerbreak(&buf), raw - 0x30000 + 1);
    assert_eq!(parse_layerbreak(&[0u8; 2052]), 0);
}

#[test]
fn other_command_blocks() {
    let c = read12_streaming_n(0x01020304, 27, 27 * 2048);
    assert_eq!(&c.cdb[..11], &[0xA8, 0, 1, 2, 3, 4, 0, 0, 0, 27, 0x80]);
    assert_eq!(c.length, 27 * 2048);
    let f = flush_cache_read12(0x10);
    assert_eq!(&f.cdb[..6], &[0xA8, 0x08, 0, 0, 0, 0x10]);
    assert_eq!(f.length, 0);
    assert_eq!(stop_unit(false).cdb[0], 0x1B);
    assert_eq!(stop_unit(true).cdb[4], 1);
    let s = set_speed(0x1234);
    assert_eq!(&s.cdb[..4], &[0xBB, 0, 0x12, 0x34]);
    let r = read_capacity();
    assert_eq!((r.cdb[0], r.cdb[1], r.cdb[5], r.cdb[8], r.length), (0x52, 1, 1, 0x22, 0x22));
    let d = read_dvd_structure();
    assert_eq!((d.cdb[0], d.cdb[8], d.cdb[9], d.length), (0xAD, 8, 4, 2052));
    let v = read_buffer_vanilla2064(0x123456, 0x8100);
    assert_eq!(&v.cdb[..9], &[0x3C, 0x02, 0, 0x12, 0x34, 0x56, 0x00, 0x81, 0x00]);
    assert_eq!(v.length, 0x8100);
}
