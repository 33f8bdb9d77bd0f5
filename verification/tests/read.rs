use friidump::read::params_for;
use friidump::read::select_method;
use friidump::read::{compute_params, resolve_sec_disc, resolve_sec_mem, ReadMethod};

#[test]
fn method_ids_roundtrip() {
    for m in ReadMethod::ALL {
        assert_eq!(ReadMethod::from_id(m.id() as i32), Some(m));
    }
    assert_eq!(ReadMethod::from_id(14), None);
    assert_eq!(ReadMethod::from_id(-1), None);
}

#[test]
fn streaming_defaults_27_others_16() {
    assert_eq!(ReadMethod::M4.default_sec(), 27);
    assert_eq!(ReadMethod::M5.default_sec(), 27);
    assert_eq!(ReadMethod::M6.default_sec(), 27);
    assert_eq!(ReadMethod::M12.default_sec(), 16);
    assert_eq!(ReadMethod::M0.default_sec(), 16);
}

#[test]
fn known_params() {
    let p = compute_params(ReadMethod::M12, None, None).unwrap();
    assert_eq!((p.sec_mem, p.max_cnt, p.max_blk), (16, 0, 1));
    let p = compute_params(ReadMethod::M4, None, None).unwrap();
    assert_eq!((p.sec_mem, p.max_cnt, p.max_blk), (27, 2, 5));
    let p = compute_params(ReadMethod::M0, None, Some(32)).unwrap();
    assert_eq!((p.sec_mem, p.max_cnt, p.max_blk), (32, 0, 2));
    let p = compute_params(ReadMethod::M0, None, Some(20)).unwrap();
    assert_eq!((p.sec_mem, p.max_cnt, p.max_blk), (20, 3, 5));
    let p = compute_params(ReadMethod::M0, None, Some(100)).unwrap();
    assert_eq!((p.sec_mem, p.max_cnt, p.max_blk), (100, 3, 25));
    let p = compute_params(ReadMethod::M0, None, Some(17)).unwrap();
    assert_eq!((p.sec_mem, p.max_cnt, p.max_blk), (17, 0, 1));
}

#[test]
fn range_resolution() {
    assert_eq!(resolve_sec_disc(1), Some(1));
    assert_eq!(resolve_sec_disc(100), Some(100));
    assert_eq!(resolve_sec_disc(0), None);
    assert_eq!(resolve_sec_disc(101), None);
    assert_eq!(resolve_sec_mem(16), Some(16));
    assert_eq!(resolve_sec_mem(15), None);
    assert_eq!(resolve_sec_mem(101), None);
}

#[test]
fn zero_sec_mem_is_refused_and_sec_disc_kept() {
    assert!(compute_params(ReadMethod::M0, None, Some(0)).is_err());
    let p = compute_params(ReadMethod::M5, Some(7), None).unwrap();
    assert_eq!((p.sec_disc, p.sec_mem), (7, 27));
    assert!(ReadMethod::M5.is_streaming());
    assert!(!ReadMethod::M7.is_streaming());
}

#[test]
fn extra_reads_never_exceed_fifteen() {
    for sec_mem in 1..=100u32 {
        let p = compute_params(ReadMethod::M0, None, Some(sec_mem)).unwrap();
        assert!(p.max_cnt <= 15);
        assert_eq!(p.max_blk, sec_mem * (p.max_cnt + 1) / 16);
    }
}

#[test]
fn method_selection_falls_back() {
    assert_eq!(select_method(Some(4), 9), ReadMethod::M4);
    assert_eq!(select_method(Some(99), 9), ReadMethod::M9);
    assert_eq!(select_method(None, 11), ReadMethod::M11);
    assert_eq!(select_method(None, 200), ReadMethod::M12);
    assert_eq!(select_method(Some(-1), u32::MAX), ReadMethod::M12);
}

#[test]
fn params_for_refuses_overflow() {
    let p = params_for(ReadMethod::M0, Some(3), Some(20)).unwrap();
    assert_eq!((p.sec_disc, p.sec_mem, p.max_cnt, p.max_blk), (3, 20, 3, 5));
    assert!(params_for(ReadMethod::M0, None, Some(0)).is_err());
    assert!(params_for(ReadMethod::M0, None, Some(u32::MAX)).is_err());
    // A large count without extra reads still fits.
    let q = params_for(ReadMethod::M0, None, Some(0xFFFF_FFF0)).unwrap();
    assert_eq!((q.max_cnt, q.max_blk), (0, 0x0FFF_FFFF));
}
