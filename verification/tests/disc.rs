use friidump::disc::{detect_type, type_from_reads, GAMECUBE_PROBE_LBA, WII_PROBE_LBA};
use friidump::drive::device::Sense;
use friidump::constants::DISC_WII_SECTORS_NO_DL;
use friidump::disc::geometry_for_type;
use friidump::constants::{DISC_GAMECUBE_SECTORS_NO, DISC_WII_SECTORS_NO_SL};
use friidump::dumper::{fetch_sector, DumpRun, Dumper};
use friidump::hasher::MultiHash;
use friidump::constants::{BLOCK_SIZE, RAW_BLOCK_SIZE, RAW_SECTOR_SIZE, SECTORS_PER_BLOCK, SECTOR_SIZE};
use friidump::disc::Disc;
use friidump::drive::device::{ScsiDevice, ScsiOutcome};
use friidump::drive::dvd::{DvdDrive, MN103S_MEM_BASE};
use friidump::drive::mmc::Command;
use friidump::drive::profile::{MemdumpKind, ReadFamily};
use friidump::ecma267::{edc_calc, Lfsr};
use friidump::metadata::DiscType;
use friidump::read::ReadMethod;
use friidump::{Error, Result};

fn iso_byte(block: u32, j: usize) -> u8 {
    ((block as usize).wrapping_mul(131).wrapping_add(j) & 0xFF) as u8
}

struct VirtualGcDrive {
    gc_seed: [u16; SECTORS_PER_BLOCK],
    drive_cipher: Vec<[u8; SECTOR_SIZE]>,
    current: Option<u32>,
    sn_offset: u32,
    dump_lengths: Vec<usize>,
}

impl VirtualGcDrive {
    fn new() -> Self {
        let mut gc_seed = [0u16; SECTORS_PER_BLOCK];
        let mut drive_cipher = Vec::with_capacity(SECTORS_PER_BLOCK);
        for (m, seed) in gc_seed.iter_mut().enumerate() {
            *seed = (m as u16) + 1;
            let mut lfsr = Lfsr::new(0x3000 + m as u16);
            let mut c = [0u8; SECTOR_SIZE];
            for b in c.iter_mut() {
                *b = lfsr.next_byte();
            }
            drive_cipher.push(c);
        }
        Self {
            gc_seed,
            drive_cipher,
            current: None,
            sn_offset: 0,
            dump_lengths: Vec::new(),
        }
    }

    fn gc_cipher(&self, phase: usize) -> [u8; SECTOR_SIZE] {
        let mut lfsr = Lfsr::new(self.gc_seed[phase]);
        let mut c = [0u8; SECTOR_SIZE];
        for b in c.iter_mut() {
            *b = lfsr.next_byte();
        }
        c
    }

    fn raw_block(&self, block: u32) -> [u8; RAW_BLOCK_SIZE] {
        let phase = (block % SECTORS_PER_BLOCK as u32) as usize;
        let gc = self.gc_cipher(phase);
        let lba = block * SECTORS_PER_BLOCK as u32;
        let mut raw = [0u8; RAW_BLOCK_SIZE];
        for k in 0..SECTORS_PER_BLOCK {
            let ro = k * RAW_SECTOR_SIZE;
            let oo = k * SECTOR_SIZE;
            let sn = lba + k as u32 + self.sn_offset;
            raw[ro] = 0;
            raw[ro + 1] = ((sn >> 16) & 0xFF) as u8;
            raw[ro + 2] = ((sn >> 8) & 0xFF) as u8;
            raw[ro + 3] = (sn & 0xFF) as u8;
            for i in 0..6 {
                raw[ro + 6 + i] = iso_byte(block, oo + i);
            }
            for i in 0..SECTOR_SIZE - 6 {
                raw[ro + 12 + i] = iso_byte(block, oo + 6 + i) ^ gc[i];
            }
            let mut tmp = [0u8; RAW_SECTOR_SIZE];
            tmp.copy_from_slice(&raw[ro..ro + RAW_SECTOR_SIZE]);
            let mut l = Lfsr::new(self.gc_seed[phase]);
            for b in &mut tmp[12..RAW_SECTOR_SIZE - 4] {
                *b ^= l.next_byte();
            }
            let edc = edc_calc(0, &tmp[..RAW_SECTOR_SIZE - 4]);
            raw[ro + RAW_SECTOR_SIZE - 4..ro + RAW_SECTOR_SIZE].copy_from_slice(&edc.to_be_bytes());
        }
        raw
    }
}

impl ScsiDevice for VirtualGcDrive {
    fn execute(&mut self, command: &Command, data: &mut [u8]) -> Result<ScsiOutcome> {
        match command.cdb[0] {
            0xA8 => {
                let lba = u32::from_be_bytes([command.cdb[2], command.cdb[3], command.cdb[4], command.cdb[5]]);
                let block = lba / SECTORS_PER_BLOCK as u32;
                self.current = Some(block);
                if !data.is_empty() {
                    let raw = self.raw_block(block);
                    let phase = (block % SECTORS_PER_BLOCK as u32) as usize;
                    for k in 0..SECTORS_PER_BLOCK {
                        for i in 0..SECTOR_SIZE {
                            data[k * SECTOR_SIZE + i] =
                                raw[k * RAW_SECTOR_SIZE + 12 + i] ^ self.drive_cipher[phase][i];
                        }
                    }
                }
                Ok(ScsiOutcome::default())
            }
            0xE7 => {
                let abs = u32::from_be_bytes([command.cdb[6], command.cdb[7], command.cdb[8], command.cdb[9]]);
                let len = ((command.cdb[10] as usize) << 8) | command.cdb[11] as usize;
                let block = self
                    .current
                    .ok_or_else(|| Error::Other("no current block".to_string()))?;
                let raw = self.raw_block(block);
                let rel = (abs - MN103S_MEM_BASE) as usize;
                let n = len.min(data.len());
                self.dump_lengths.push(n);
                data[..n].copy_from_slice(&raw[rel..rel + n]);
                Ok(ScsiOutcome::default())
            }
            _ => Ok(ScsiOutcome::default()),
        }
    }
}

fn make_disc(method: ReadMethod) -> Disc<VirtualGcDrive> {
    let mut drive = DvdDrive::new(VirtualGcDrive::new(), -1);
    drive.memdump_kind = MemdumpKind::HitachiMn103s;
    drive.family = ReadFamily::HitachiType1;
    drive.def_method = method.id();
    let mut disc = Disc::new(drive).unwrap();
    disc.disc_type = DiscType::GameCube;
    disc.set_unscrambling(true);
    disc.set_read_method(method).unwrap();
    disc
}

fn expected_block(block: u32) -> [u8; BLOCK_SIZE] {
    let mut b = [0u8; BLOCK_SIZE];
    for (j, v) in b.iter_mut().enumerate() {
        *v = iso_byte(block, j);
    }
    b
}

#[test]
fn method11_recovers_iso() {
    let mut disc = make_disc(ReadMethod::M11);
    for sector in [0u32, 16 * 20, 16 * 21] {
        disc.read_sector(sector).unwrap();
    }
    let (data, _raw) = disc.sector(16 * 20).unwrap();
    assert_eq!(data, &expected_block(20));
    let (data21, _) = disc.sector(16 * 21).unwrap();
    assert_eq!(data21, &expected_block(21));
}

#[test]
fn method12_recovers_iso_and_true_raw() {
    let mut disc = make_disc(ReadMethod::M12);
    for sector in [0u32, 16 * 20, 16 * 21] {
        disc.read_sector(sector).unwrap();
    }
    let (data, raw) = disc.sector(16 * 20).unwrap();
    assert_eq!(data, &expected_block(20));
    assert_eq!(&raw[6..12], &data[..6]);
}

#[test]
fn method11_offline_calibration_only() {
    let mut disc = make_disc(ReadMethod::M11);
    disc.read_sector(0).unwrap();
    let (data, _) = disc.sector(0).unwrap();
    assert_eq!(data, &expected_block(0));
}

#[test]
fn method12_raw_is_the_drive_frame() {
    let mut disc = make_disc(ReadMethod::M12);
    disc.read_sector(16 * 7 + 3).unwrap();
    let (_, raw) = disc.sector(16 * 7).unwrap();
    let frame = VirtualGcDrive::new().raw_block(7);
    assert_eq!(&raw[..], &frame[..]);
}

#[test]
fn other_methods_are_unsupported_and_sector_misses() {
    let mut disc = make_disc(ReadMethod::M12);
    assert!(disc.sector(16 * 3).is_none());
    let mut other = make_disc(ReadMethod::M12);
    other.set_read_method(ReadMethod::M4).unwrap();
    assert!(other.read_sector(0).is_err());
    // A block read with method 12 stays readable after another one.
    disc.read_sector(16 * 3).unwrap();
    disc.read_sector(16 * 4).unwrap();
    assert_eq!(disc.sector(16 * 3).unwrap().0, &expected_block(3));
}

#[test]
fn fetch_sector_copies_from_the_cache() {
    let mut disc = make_disc(ReadMethod::M12);
    let mut iso = [0u8; SECTOR_SIZE];
    let mut raw = [0u8; RAW_SECTOR_SIZE];
    fetch_sector(&mut disc, 16 * 9 + 5, &mut iso, &mut raw).unwrap();
    assert_eq!(&iso[..], &expected_block(9)[5 * SECTOR_SIZE..6 * SECTOR_SIZE]);
    let frame = VirtualGcDrive::new().raw_block(9);
    assert_eq!(&raw[..], &frame[5 * RAW_SECTOR_SIZE..6 * RAW_SECTOR_SIZE]);
}

#[test]
fn geometry_from_the_given_type() {
    let mut disc = make_disc(ReadMethod::M12);
    let (t, n, lb) = geometry_for_type(&mut disc, Some(0)).unwrap();
    assert_eq!((t, n, lb), (DiscType::GameCube, DISC_GAMECUBE_SECTORS_NO, 0));
    let (t, n, lb) = geometry_for_type(&mut disc, Some(1)).unwrap();
    assert_eq!((t, n, lb), (DiscType::Wii, DISC_WII_SECTORS_NO_SL, 0));
    // The virtual drive answers every READ: the disc is taken for a dual-layer one.
    let (t, _, _) = geometry_for_type(&mut disc, None).unwrap();
    assert_eq!(t, DiscType::WiiDl);
}

#[test]
fn type_from_read_outcomes() {
    let oor = ScsiOutcome { failed: true, sense: Sense { sense_key: 0x05, asc: 0x21, ascq: 0 } };
    let ok = ScsiOutcome::default();
    let other = ScsiOutcome { failed: true, sense: Sense { sense_key: 0x03, asc: 0x11, ascq: 0 } };
    assert_eq!(type_from_reads(&oor, None, None), (DiscType::GameCube, DISC_GAMECUBE_SECTORS_NO, 0));
    assert_eq!(type_from_reads(&ok, Some(&oor), None), (DiscType::Wii, DISC_WII_SECTORS_NO_SL, 0));
    assert_eq!(type_from_reads(&other, Some(&ok), Some(2_084_960)), (DiscType::WiiDl, DISC_WII_SECTORS_NO_DL, 2_084_960));
    assert_eq!(type_from_reads(&ok, Some(&ok), None), (DiscType::WiiDl, DISC_WII_SECTORS_NO_DL, 0));
    assert_eq!((GAMECUBE_PROBE_LBA, WII_PROBE_LBA), (712_980, 2_295_012));
}

#[test]
fn dump_run_reads_sectors_in_order_and_hashes_them() {
    let mut disc = make_disc(ReadMethod::M12);
    disc.sectors_no = 712_880;
    let mut dumper = Dumper::new();
    dumper.set_start_sector(16 * 9 + 3);
    dumper.set_end_sector(16 * 9 + 6);
    dumper.plan(Some(0), None).unwrap();
    dumper.begin_hashing();
    let (mut run, first) = DumpRun::new(dumper, disc.sectors_no, true, false).unwrap();
    assert_eq!(first, (true, 16 * 9 + 3, 712_880));
    let mut iso = [0u8; SECTOR_SIZE];
    let mut raw = [0u8; RAW_SECTOR_SIZE];
    let mut written: Vec<u8> = Vec::new();
    let frames = VirtualGcDrive::new().raw_block(9);
    let mut sectors = Vec::new();
    loop {
        let i = run.next_sector_no();
        let step = match run.next_step(&mut disc, &mut iso, &mut raw).unwrap() {
            Some(step) => step,
            None => break,
        };
        assert!(step.write_raw && !step.write_iso);
        let k = (i % 16) as usize;
        assert_eq!(&raw[..], &frames[k * RAW_SECTOR_SIZE..(k + 1) * RAW_SECTOR_SIZE]);
        assert_eq!(&iso[..], &expected_block(9)[k * SECTOR_SIZE..(k + 1) * SECTOR_SIZE]);
        written.extend_from_slice(&raw);
        sectors.push(i);
        if i == 16 * 9 + 5 {
            assert_eq!(step.progress, Some((false, 16 * 9 + 6, 712_880)));
            assert_eq!(step.journal, Some(16 * 9 + 6));
        } else {
            assert_eq!(step.progress, None);
            assert_eq!(step.journal, None);
        }
    }
    assert_eq!(sectors, vec![147, 148, 149]);
    let d = run.finish();
    let mut h = MultiHash::new();
    h.update(&written);
    assert_eq!(d.raw_digests().unwrap(), &h.finish());
    let h0 = MultiHash::new();
    assert_eq!(d.iso_digests().unwrap(), &h0.finish());
}

#[test]
fn dump_run_needs_the_disc_size() {
    assert!(matches!(DumpRun::new(Dumper::new(), 0, true, true), Err(Error::Other(_))));
}

fn make_disc_with_offset(method: ReadMethod, sn_offset: u32) -> Disc<VirtualGcDrive> {
    let mut v = VirtualGcDrive::new();
    v.sn_offset = sn_offset;
    let mut drive = DvdDrive::new(v, -1);
    drive.memdump_kind = MemdumpKind::HitachiMn103s;
    drive.family = ReadFamily::HitachiType1;
    drive.def_method = method.id();
    let mut disc = Disc::new(drive).unwrap();
    disc.disc_type = DiscType::GameCube;
    disc.set_unscrambling(true);
    disc.set_read_method(method).unwrap();
    disc
}

#[test]
fn method11_fast_read_checks_sector_numbers() {
    // Sector numbers with the layer 0 offset: the fast read is taken.
    let mut disc = make_disc_with_offset(ReadMethod::M11, 0x30000);
    disc.read_block_11(20).unwrap();
    assert_eq!(disc.sector(16 * 20).unwrap().0, &expected_block(20));
    let d = &disc.drive.device.dump_lengths;
    assert_eq!(&d[d.len() - 16..], &[12usize; 16][..]);
    // Sector numbers that do not match: every try fails and the block is read raw.
    let mut stale = make_disc_with_offset(ReadMethod::M11, 0);
    stale.read_block_11(21).unwrap();
    assert_eq!(stale.sector(16 * 21).unwrap().0, &expected_block(21));
    assert_eq!(*stale.drive.device.dump_lengths.last().unwrap(), RAW_BLOCK_SIZE);
}

#[test]
fn method12_fast_read_rebuilds_the_frames() {
    let mut disc = make_disc_with_offset(ReadMethod::M12, 0x30000);
    disc.read_block_12(5).unwrap();
    let (data, raw) = disc.sector(16 * 5).unwrap();
    assert_eq!(data, &expected_block(5));
    let mut v = VirtualGcDrive::new();
    v.sn_offset = 0x30000;
    assert_eq!(&raw[..], &v.raw_block(5)[..]);
    let d = &disc.drive.device.dump_lengths;
    let tail: Vec<usize> = (0..16).flat_map(|_| [12usize, 10]).collect();
    assert_eq!(&d[d.len() - 32..], &tail[..]);
    // Block 0 is always read raw.
    disc.read_block_12(0).unwrap();
    assert_eq!(*disc.drive.device.dump_lengths.last().unwrap(), RAW_BLOCK_SIZE);
}

struct ProbeDrive {
    refuse: Option<u32>,
    fail: bool,
    opcodes: Vec<u8>,
}

impl ScsiDevice for ProbeDrive {
    fn execute(&mut self, command: &Command, data: &mut [u8]) -> Result<ScsiOutcome> {
        self.opcodes.push(command.cdb[0]);
        if self.fail {
            return Err(Error::Other("bus".to_string()));
        }
        match command.cdb[0] {
            0xA8 => {
                let lba = u32::from_be_bytes([command.cdb[2], command.cdb[3], command.cdb[4], command.cdb[5]]);
                if Some(lba) == self.refuse {
                    Ok(ScsiOutcome { failed: true, sense: Sense { sense_key: 0x05, asc: 0x21, ascq: 0 } })
                } else {
                    Ok(ScsiOutcome::default())
                }
            }
            0xAD => {
                data[0x11] = 0x22;
                data[0x13] = 0x5f;
                Ok(ScsiOutcome::default())
            }
            0x25 | 0x52 => {
                data[0x18..0x1c].copy_from_slice(&2_298_496u32.to_be_bytes());
                Ok(ScsiOutcome::default())
            }
            _ => Ok(ScsiOutcome::default()),
        }
    }
}

fn probe_disc(refuse: Option<u32>, fail: bool) -> Disc<ProbeDrive> {
    Disc::new(DvdDrive::new(ProbeDrive { refuse, fail, opcodes: Vec::new() }, -1)).unwrap()
}

#[test]
fn detect_type_follows_the_probe_answers() {
    let mut gc = probe_disc(Some(GAMECUBE_PROBE_LBA), false);
    assert_eq!(detect_type(&mut gc).unwrap(), (DiscType::GameCube, DISC_GAMECUBE_SECTORS_NO, 0));
    assert_eq!(gc.drive.device.opcodes, vec![0xA8]);
    let mut wii = probe_disc(Some(WII_PROBE_LBA), false);
    assert_eq!(detect_type(&mut wii).unwrap(), (DiscType::Wii, DISC_WII_SECTORS_NO_SL, 0));
    assert_eq!(wii.drive.device.opcodes, vec![0xA8, 0xA8]);
    let mut dl = probe_disc(None, false);
    assert_eq!(detect_type(&mut dl).unwrap(), (DiscType::WiiDl, DISC_WII_SECTORS_NO_DL, 0x22005f - 0x30000 + 1));
    assert_eq!(dl.drive.device.opcodes, vec![0xA8, 0xA8, 0xAD]);
    let mut bad = probe_disc(None, true);
    assert!(matches!(detect_type(&mut bad), Err(Error::Other(_))));
    assert_eq!(bad.drive.device.opcodes, vec![0xA8]);
}

#[test]
fn dvd_geometry_comes_from_the_drive() {
    let mut dvd = probe_disc(None, false);
    assert_eq!(geometry_for_type(&mut dvd, Some(3)).unwrap(), (DiscType::Dvd, 2_298_496, 0x22005f - 0x30000 + 1));
    let mut dl = probe_disc(None, false);
    assert_eq!(geometry_for_type(&mut dl, Some(2)).unwrap(), (DiscType::WiiDl, DISC_WII_SECTORS_NO_DL, 0x22005f - 0x30000 + 1));
    let mut none = probe_disc(None, true);
    assert_eq!(geometry_for_type(&mut none, Some(3)).unwrap(), (DiscType::Dvd, 0, 0));
}

#[test]
fn configure_sets_geometry_and_method() {
    let mut disc = make_disc(ReadMethod::M12);
    let m = disc.configure((DiscType::Dvd, 100, 7), Some(50), Some(11), None, None).unwrap();
    assert_eq!(m, ReadMethod::M11);
    assert_eq!((disc.disc_type, disc.sectors_no, disc.layerbreak), (DiscType::Dvd, 50, 7));
    assert!(disc.unscrambling);
    let m = disc.configure((DiscType::Wii, 100, 0), None, None, None, None).unwrap();
    assert_eq!(m, ReadMethod::from_id(disc.drive.def_method as i32).unwrap());
    assert_eq!(disc.sectors_no, 100);
    assert!(matches!(
        disc.configure((DiscType::Wii, 100, 0), None, None, Some(16), Some(0)),
        Err(Error::InvalidArgument(_))
    ));
}
