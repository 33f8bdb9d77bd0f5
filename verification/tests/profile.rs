use friidump::drive::profile::{lookup, profiles, MemdumpKind, ReadFamily};

#[test]
fn matches_mn103s_type1() {
    let p = lookup("HL-DT-ST", "RW/DVD GCC-4240N").unwrap();
    assert_eq!(p.memdump, MemdumpKind::HitachiMn103s);
    assert_eq!(p.mem_base, 0xA13000);
    assert_eq!(p.family, ReadFamily::HitachiType1);
    assert_eq!(p.def_method, 12);
    assert_eq!(p.command, 2);
}

#[test]
fn matches_type2() {
    let p = lookup("HL-DT-ST", "DVD-ROM GDR8082N").unwrap();
    assert_eq!(p.family, ReadFamily::HitachiType4);
    assert_eq!(p.def_method, 9);
}

#[test]
fn matches_plextor_any_product() {
    let p = lookup("PLEXTOR", "DVDR PX-716A").unwrap();
    assert_eq!(p.memdump, MemdumpKind::Vanilla2064);
    assert_eq!(p.def_method, 2);
}

#[test]
fn unknown_drive_returns_none() {
    assert!(lookup("HL-DT-ST", "GCC-9999N").is_none());
    assert!(lookup("NOPE", "GCC-4240N").is_none());
}

#[test]
fn first_matching_row_wins_and_table_size() {
    assert_eq!(profiles().len(), 21);
    let p = lookup("LITE-ON", "DVDRW LH-20A1P").unwrap();
    assert_eq!((p.memdump, p.def_method, p.command), (MemdumpKind::LiteOn, 5, 3));
    let t = lookup("TSSTcorp", "DVD-ROM SH-D162C").unwrap();
    assert_eq!(t.memdump, MemdumpKind::Vanilla2384);
    // Vendor must match exactly.
    assert!(lookup("HL-DT-ST ", "GCC-4240N").is_none());
}
