use friidump::constants::SECTOR_SIZE;
use friidump::metadata::{iso_name, maker_name, parse_sector0, DiscRegion, DiscType, TITLE_OFFSET};

fn build_sector0() -> [u8; SECTOR_SIZE] {
    let mut buf = [0u8; SECTOR_SIZE];
    buf[0] = b'G';
    buf[1] = b'S';
    buf[2] = b'N';
    buf[3] = b'J';
    buf[4] = b'0';
    buf[5] = b'1';
    buf[7] = 0;
    let title = b"NARUTO GEKITOU NINJA TAISEN 4";
    buf[TITLE_OFFSET..TITLE_OFFSET + title.len()].copy_from_slice(title);
    buf
}

#[test]
fn parses_basic_fields() {
    let info = parse_sector0(&build_sector0()).unwrap();
    assert_eq!(info.system_id, b'G');
    assert_eq!(info.game_id, "SN");
    assert_eq!(info.region, DiscRegion::Japan);
    assert_eq!(info.maker, "01");
    assert_eq!(info.version, 0);
    assert_eq!(info.version_string, "1.00");
    assert_eq!(info.title, "NARUTO GEKITOU NINJA TAISEN 4");
}

#[test]
fn trims_title_and_stops_at_nul() {
    let mut buf = [0u8; SECTOR_SIZE];
    buf[TITLE_OFFSET..TITLE_OFFSET + 5].copy_from_slice(b"ABC  ");
    buf[TITLE_OFFSET + 5] = 0;
    buf[TITLE_OFFSET + 6] = b'X';
    assert_eq!(parse_sector0(&buf).unwrap().title, "ABC");
}

#[test]
fn region_unknown_for_other_codes() {
    let mut buf = build_sector0();
    buf[3] = b'?';
    assert_eq!(parse_sector0(&buf).unwrap().region, DiscRegion::Unknown);
}

#[test]
fn maker_lookup_is_case_insensitive() {
    assert_eq!(maker_name("01"), "Nintendo");
    assert_eq!(maker_name("zz"), "Unknown");
}

#[test]
fn rejects_short_buffer() {
    assert!(parse_sector0(&[0u8; 10]).is_err());
}

#[test]
fn version_string_and_exact_length() {
    let mut buf = build_sector0();
    buf[7] = 0x12;
    let info = parse_sector0(&buf).unwrap();
    assert_eq!(info.version, 0x12);
    assert_eq!(info.version_string, "1.18");
    assert!(parse_sector0(&buf[..SECTOR_SIZE - 1]).is_err());
}

#[test]
fn region_codes_and_names() {
    let mut buf = build_sector0();
    buf[3] = b'E';
    assert_eq!(parse_sector0(&buf).unwrap().region, DiscRegion::Ntsc);
    buf[3] = b'P';
    assert_eq!(parse_sector0(&buf).unwrap().region, DiscRegion::Pal);
    assert_eq!(DiscType::GameCube.as_str(), "GameCube");
    assert!(DiscType::WiiDl.is_wii());
    assert!(!DiscType::GameCube.is_wii());
}

#[test]
fn title_trims_c_white_space_and_names_the_image() {
    let mut buf = [0u8; SECTOR_SIZE];
    buf[TITLE_OFFSET..TITLE_OFFSET + 6].copy_from_slice(b"GAME\x0b\t");
    assert_eq!(parse_sector0(&buf).unwrap().title, "GAME");
    assert_eq!(iso_name("  ZELDA \t"), "ZELDA.iso");
}
