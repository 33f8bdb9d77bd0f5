use friidump::dumper::{journal_due, journal_text, parse_journal, pending_start, progress_due, Dumper};
use friidump::hasher::MultiHash;
use friidump::Error;

#[test]
fn pending_start_from_existing_files() {
    assert_eq!(pending_start(None, 2064, false).unwrap(), 0);
    assert!(matches!(pending_start(Some(0), 2064, false), Err(Error::InvalidArgument(_))));
    assert!(matches!(pending_start(Some(1), 2064, false), Err(Error::InvalidArgument(_))));
    assert_eq!(pending_start(Some(0), 2064, true).unwrap(), 0);
    // 40 whole sectors and a partial one: resume at the last whole block (32).
    assert_eq!(pending_start(Some(40 * 2064 + 100), 2064, true).unwrap(), 32);
    assert_eq!(pending_start(Some(48 * 2048), 2048, true).unwrap(), 48);
}

#[test]
fn plan_takes_the_earlier_output_or_the_forced_start() {
    let mut d = Dumper::new();
    assert!(matches!(d.plan(None, None), Err(Error::InvalidArgument(_))));
    d.plan(Some(64), Some(32)).unwrap();
    assert_eq!((d.start_sector(), d.write_start_sector()), (32, 32));
    d.set_start_sector(100);
    d.plan(Some(64), None).unwrap();
    assert_eq!((d.start_sector(), d.write_start_sector()), (100, 0));
    d.set_start_sector(17);
    d.plan(Some(64), None).unwrap();
    assert_eq!((d.start_sector(), d.write_start_sector()), (17, 0));
}

#[test]
fn journal_moves_the_start_back() {
    let mut d = Dumper::new();
    d.plan(Some(160), None).unwrap();
    d.apply_journal(Some(0));
    assert_eq!(d.start_sector(), 160);
    d.apply_journal(Some(200));
    assert_eq!(d.start_sector(), 160);
    d.apply_journal(Some(37));
    assert_eq!((d.start_sector(), d.write_start_sector()), (32, 32));
    d.apply_journal(None);
    assert_eq!((d.start_sector(), d.write_start_sector()), (32, 32));
    // A forced start keeps writing from the beginning.
    let mut f = Dumper::new();
    f.set_start_sector(64);
    f.plan(Some(32), None).unwrap();
    f.apply_journal(Some(20));
    assert_eq!((f.start_sector(), f.write_start_sector()), (16, 0));
}

#[test]
fn last_sector_and_reporting_points() {
    let mut d = Dumper::new();
    assert!(matches!(d.last_sector(0), Err(Error::Other(_))));
    assert_eq!(d.last_sector(712_880).unwrap(), Some(712_879));
    d.set_end_sector(2048);
    assert_eq!(d.last_sector(712_880).unwrap(), Some(2047));
    d.set_end_sector(0);
    assert_eq!(d.last_sector(712_880).unwrap(), None);
    d.set_end_sector(800_000);
    assert_eq!(d.last_sector(712_880).unwrap(), Some(712_879));
    assert!(progress_due(0, 10));
    assert!(progress_due(640, 1000));
    assert!(!progress_due(641, 1000));
    assert!(progress_due(1000, 1000));
    assert!(journal_due(8191, 100_000));
    assert!(!journal_due(8192, 100_000));
    assert!(journal_due(5, 5));
    assert!(journal_due(u32::MAX, u32::MAX));
}

#[test]
fn journal_text_roundtrip() {
    assert_eq!(journal_text(1234), "next=1234\n");
    for n in [0u32, 7, 8192, 712_880, u32::MAX] {
        assert_eq!(parse_journal(&journal_text(n)), Some(n));
    }
    assert_eq!(parse_journal("junk\r\nnext= 42 \r\nnext=7\n"), Some(42));
    assert_eq!(parse_journal("next=x\nnext=7\n"), None);
    assert_eq!(parse_journal(""), None);
    assert_eq!(parse_journal("nex=1\n"), None);
}

#[test]
fn hashes_follow_the_written_bytes() {
    let mut d = Dumper::new();
    d.begin_hashing();
    d.absorb_raw(b"12345").unwrap();
    d.absorb_raw(b"6789").unwrap();
    d.absorb_iso(b"abc").unwrap();
    assert!(d.raw_digests().is_none());
    d.finish();
    let mut h = MultiHash::new();
    h.update(b"123456789");
    assert_eq!(d.raw_digests().unwrap(), &h.finish());
    assert_eq!(d.iso_digests().unwrap().sha1, "a9993e364706816aba3e25717850c26c9cd0d89d");
}

#[test]
fn no_hashing_no_digests() {
    let mut d = Dumper::new();
    d.set_hashing(false);
    assert!(!d.hashing());
    d.begin_hashing();
    d.absorb_raw(b"x").unwrap();
    d.finish();
    assert!(d.raw_digests().is_none() && d.iso_digests().is_none());
    d.set_flushing(false);
    assert!(!d.flushing());
}

#[test]
fn rehash_only_when_resuming_from_a_later_sector() {
    let mut d = Dumper::new();
    d.plan(Some(32), None).unwrap();
    assert!(d.rehashes_existing(true));
    assert!(!d.rehashes_existing(false));
    d.set_start_sector(64);
    assert!(!d.rehashes_existing(true));
}
