use friidump::unscrambler::{file_progress_due, sectors_in_file, FileUnscramble};
use friidump::constants::{BLOCK_SIZE, RAW_BLOCK_SIZE, RAW_SECTOR_SIZE, SECTORS_PER_BLOCK, SECTOR_SIZE};
use friidump::ecma267::{edc_calc, lfsr_fill, Lfsr};
use friidump::unscrambler::{Unscrambler, DISCTYPE_DVD, DISCTYPE_NINTENDO, EDC_LENGTH};
use friidump::Error;

fn scramble_block(iso: &[u8; BLOCK_SIZE], seed: u16, first_sector: u32) -> [u8; RAW_BLOCK_SIZE] {
    let mut lfsr = Lfsr::new(seed);
    let mut cipher = [0u8; SECTOR_SIZE];
    for b in cipher.iter_mut() {
        *b = lfsr.next_byte();
    }
    let mut raw = [0u8; RAW_BLOCK_SIZE];
    for j in 0..SECTORS_PER_BLOCK {
        let ro = j * RAW_SECTOR_SIZE;
        let oo = j * SECTOR_SIZE;
        let sn = first_sector + j as u32;
        raw[ro] = 0;
        raw[ro + 1] = ((sn >> 16) & 0xFF) as u8;
        raw[ro + 2] = ((sn >> 8) & 0xFF) as u8;
        raw[ro + 3] = (sn & 0xFF) as u8;
        raw[ro + 6..ro + 12].copy_from_slice(&iso[oo..oo + 6]);
        for (dst, (s, c)) in raw[ro + 12..ro + 12 + SECTOR_SIZE - 6]
            .iter_mut()
            .zip(iso[oo + 6..oo + SECTOR_SIZE].iter().zip(cipher.iter()))
        {
            *dst = *s ^ *c;
        }
        let mut tmp = [0u8; RAW_SECTOR_SIZE];
        tmp.copy_from_slice(&raw[ro..ro + RAW_SECTOR_SIZE]);
        let mut l = Lfsr::new(seed);
        for b in &mut tmp[12..EDC_LENGTH] {
            *b ^= l.next_byte();
        }
        let edc = edc_calc(0, &tmp[..EDC_LENGTH]);
        raw[ro + EDC_LENGTH..ro + RAW_SECTOR_SIZE].copy_from_slice(&edc.to_be_bytes());
    }
    raw
}

fn sample_iso() -> [u8; BLOCK_SIZE] {
    let mut iso = [0u8; BLOCK_SIZE];
    let mut x: u32 = 0x1234_5678;
    for b in iso.iter_mut() {
        x = x.wrapping_mul(1_664_525).wrapping_add(1_013_904_223);
        *b = (x >> 24) as u8;
    }
    iso
}

#[test]
fn roundtrip_nintendo() {
    let iso = sample_iso();
    let seed = 0x2A7Bu16;
    let mut raw = scramble_block(&iso, seed, 0);
    let mut out = [0u8; BLOCK_SIZE];

    let mut u = Unscrambler::new();
    u.set_disctype(DISCTYPE_NINTENDO);
    u.set_bruteforce(true);
    assert!(u.unscramble_16sectors(0, &mut raw, &mut out).unwrap());
    assert_eq!(&out[..], &iso[..]);
}

#[test]
fn roundtrip_dvd() {
    let seed = 0x00FFu16;
    let mut raw = [0u8; RAW_BLOCK_SIZE];
    let mut expect = [0u8; BLOCK_SIZE];
    let mut lfsr = Lfsr::new(seed);
    let mut cipher = [0u8; SECTOR_SIZE];
    for b in cipher.iter_mut() {
        *b = lfsr.next_byte();
    }
    for j in 0..SECTORS_PER_BLOCK {
        let ro = j * RAW_SECTOR_SIZE;
        let oo = j * SECTOR_SIZE;
        for (i, (dst, c)) in raw[ro + 12..ro + 12 + SECTOR_SIZE]
            .iter_mut()
            .zip(cipher.iter())
            .enumerate()
        {
            let data = ((j * 7 + i) & 0xFF) as u8;
            *dst = data ^ *c;
            expect[oo + i] = data;
        }
        let mut tmp = [0u8; RAW_SECTOR_SIZE];
        tmp.copy_from_slice(&raw[ro..ro + RAW_SECTOR_SIZE]);
        let mut l = Lfsr::new(seed);
        for b in &mut tmp[12..EDC_LENGTH] {
            *b ^= l.next_byte();
        }
        let edc = edc_calc(0, &tmp[..EDC_LENGTH]);
        raw[ro + EDC_LENGTH..ro + RAW_SECTOR_SIZE].copy_from_slice(&edc.to_be_bytes());
    }

    let mut out = [0u8; BLOCK_SIZE];
    let mut u = Unscrambler::new();
    u.set_disctype(DISCTYPE_DVD);
    assert!(u.unscramble_16sectors(0, &mut raw, &mut out).unwrap());
    assert_eq!(&out[..], &expect[..]);
}

#[test]
fn detects_corruption() {
    let iso = sample_iso();
    let mut raw = scramble_block(&iso, 0x0102, 0);
    raw[100] ^= 0xFF;
    let mut out = [0u8; BLOCK_SIZE];
    let mut u = Unscrambler::new();
    assert!(u.unscramble_16sectors(0, &mut raw, &mut out).is_err());
}

#[test]
fn caches_seed_and_reuses() {
    let iso = sample_iso();
    let seed = 0x0033u16;
    let mut u = Unscrambler::new();
    for _ in 0..2 {
        let mut raw = scramble_block(&iso, seed, 0);
        let mut out = [0u8; BLOCK_SIZE];
        assert!(u.unscramble_16sectors(0, &mut raw, &mut out).unwrap());
        assert_eq!(&out[..], &iso[..]);
    }
}

#[test]
fn no_bruteforce_means_seed_not_found() {
    let iso = sample_iso();
    let mut raw = scramble_block(&iso, 0x0044, 0);
    let mut out = [0u8; BLOCK_SIZE];
    let mut u = Unscrambler::new();
    u.set_bruteforce(false);
    match u.unscramble_16sectors(32, &mut raw, &mut out) {
        Err(Error::SeedNotFound(n)) => assert_eq!(n, 32),
        other => panic!("unexpected result: {:?}", other.is_ok()),
    }
}

#[test]
fn corrupted_later_sector_is_an_unscramble_error() {
    let iso = sample_iso();
    let mut raw = scramble_block(&iso, 0x0055, 0);
    // The first sector (used to find the seed) stays intact; the fifth is broken.
    raw[4 * RAW_SECTOR_SIZE + 100] ^= 0x01;
    let mut out = [0u8; BLOCK_SIZE];
    let mut u = Unscrambler::new();
    match u.unscramble_16sectors(0, &mut raw, &mut out) {
        Err(Error::Unscramble(_)) => {}
        other => panic!("unexpected result: {:?}", other.is_ok()),
    }
}

#[test]
fn disctype_is_kept() {
    let mut u = Unscrambler::default();
    assert_eq!(u.disctype(), DISCTYPE_NINTENDO);
    u.set_disctype(DISCTYPE_DVD);
    assert_eq!(u.disctype(), DISCTYPE_DVD);
}

#[test]
fn lfsr_stream_and_edc_values() {
    // The fill helper gives the same stream as stepping the register.
    let v = lfsr_fill(0x0001, 16);
    let mut l = Lfsr::new(0x0001);
    for b in &v {
        assert_eq!(*b, l.next_byte());
    }
    // EDC of nothing is the initial value; EDC is linear in its input.
    assert_eq!(edc_calc(0, &[]), 0);
    assert_eq!(edc_calc(0x1234, &[]), 0x1234);
    assert_ne!(edc_calc(0, &[1]), 0);
}

#[test]
fn file_block_zero_pads_and_reports_unscramble_errors() {
    // A block of zeros unscrambles to nothing valid: no seed gives a good EDC.
    let mut u = Unscrambler::new();
    u.set_bruteforce(false);
    let mut raw = [0xAAu8; RAW_BLOCK_SIZE];
    let mut out = [0u8; BLOCK_SIZE];
    match u.unscramble_file_block(0, &mut raw, 10, &mut out) {
        Err(Error::Unscramble(_)) => {}
        other => panic!("unexpected result: {:?}", other.is_ok()),
    }
    assert!(raw[10..].iter().all(|b| *b == 0));
    assert!(raw[..10].iter().all(|b| *b == 0xAA));
    // A full block scrambled with a known seed goes through.
    let iso = sample_iso();
    let mut good = scramble_block(&iso, 0x0007, 16);
    let mut u = Unscrambler::new();
    u.unscramble_file_block(16, &mut good, RAW_BLOCK_SIZE, &mut out).unwrap();
    assert_eq!(&out[..], &iso[..]);
    assert_eq!(sectors_in_file(2064 * 32 + 5), 32);
    assert!(file_progress_due(320, 1000) && file_progress_due(1000, 1000) && !file_progress_due(16, 1000));
}

#[test]
fn a_cached_seed_needs_no_bruteforce() {
    let iso = sample_iso();
    let mut u = Unscrambler::new();
    let mut raw = scramble_block(&iso, 0x0021, 48);
    let mut out = [0u8; BLOCK_SIZE];
    assert!(u.unscramble_16sectors(48, &mut raw, &mut out).unwrap());
    u.set_bruteforce(false);
    let mut again = scramble_block(&iso, 0x0021, 48);
    let mut out2 = [0u8; BLOCK_SIZE];
    assert!(u.unscramble_16sectors(48, &mut again, &mut out2).unwrap());
    assert_eq!(&out2[..], &iso[..]);
}

#[test]
fn file_run_writes_blocks_in_order_and_reports_progress() {
    let iso_a = sample_iso();
    let mut iso_b = sample_iso();
    iso_b[100] ^= 0x5A;
    let (mut run, first) = FileUnscramble::new(Unscrambler::new(), 2 * RAW_BLOCK_SIZE as u64 + 7);
    assert_eq!(first, (true, 0, 32));
    let mut out = [0u8; BLOCK_SIZE];
    let mut block = scramble_block(&iso_a, 0x0007, 0);
    assert_eq!(run.next_block(&mut block, RAW_BLOCK_SIZE, &mut out).unwrap(), None);
    assert_eq!(&out[..], &iso_a[..]);
    let mut block = scramble_block(&iso_b, 0x0009, 16);
    assert_eq!(run.next_block(&mut block, RAW_BLOCK_SIZE, &mut out).unwrap(), Some((false, 32, 32)));
    assert_eq!(&out[..], &iso_b[..]);
    let mut bad = [0xAAu8; RAW_BLOCK_SIZE];
    match run.next_block(&mut bad, RAW_BLOCK_SIZE, &mut out) {
        Err(Error::Unscramble(m)) => assert!(m.starts_with("near sector 32: ")),
        other => panic!("unexpected result: {:?}", other.is_ok()),
    }
    // A run that failed stays failed.
    let mut block = scramble_block(&iso_a, 0x0007, 48);
    assert!(matches!(run.next_block(&mut block, RAW_BLOCK_SIZE, &mut out), Err(Error::Unscramble(_))));
}
