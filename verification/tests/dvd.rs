use friidump::drive::dvd::speed_value;
use friidump::drive::dvd::{layerbreak_of_answer, memdump_block_result};
use friidump::drive::device::{decode_outcome, transfer_of, Transfer};
use friidump::drive::mmc::Direction;
use friidump::drive::device::{ScsiDevice, ScsiOutcome, Sense};
use friidump::drive::dvd::{DvdDrive, MN103S_MEM_BASE};
use friidump::drive::mmc::Command;
use friidump::drive::profile::MemdumpKind;
use friidump::Result;
use std::collections::VecDeque;

struct MockDevice {
    outcomes: VecDeque<(bool, Vec<u8>)>,
    pub seen: Vec<[u8; 12]>,
    pub last_data_len: usize,
}

impl MockDevice {
    fn new(responses: Vec<(bool, Vec<u8>)>) -> Self {
        Self {
            outcomes: responses.into(),
            seen: Vec::new(),
            last_data_len: 0,
        }
    }
}

impl ScsiDevice for MockDevice {
    fn execute(&mut self, command: &Command, data: &mut [u8]) -> Result<ScsiOutcome> {
        self.seen.push(command.cdb);
        self.last_data_len = data.len();
        let (failed, resp) = self.outcomes.pop_front().unwrap_or((false, Vec::new()));
        let n = resp.len().min(data.len());
        data[..n].copy_from_slice(&resp[..n]);
        Ok(ScsiOutcome {
            failed,
            sense: Sense::default(),
        })
    }
}

fn inquiry_response(vendor: &str, prod: &str, rev: &str) -> Vec<u8> {
    let mut b = vec![0u8; 36];
    b[8..8 + vendor.len()].copy_from_slice(vendor.as_bytes());
    b[16..16 + prod.len()].copy_from_slice(prod.as_bytes());
    b[32..32 + rev.len()].copy_from_slice(rev.as_bytes());
    b
}

#[test]
fn inquiry_matches_gcc4240n_profile() {
    let m = MockDevice::new(vec![(
        false,
        inquiry_response("HL-DT-ST", "RW/DVD GCC-4240N", "E112"),
    )]);
    let mut d = DvdDrive::new(m, -1);
    d.inquiry().unwrap();
    assert_eq!(d.vendor, "HL-DT-ST");
    assert_eq!(d.prod_id, "RW/DVD GCC-4240N");
    assert_eq!(d.memdump_kind, MemdumpKind::HitachiMn103s);
    assert_eq!(d.mem_base, MN103S_MEM_BASE);
    assert_eq!(d.def_method, 12);
    assert!(d.supported);
}

#[test]
fn command_override_changes_memdump() {
    let m = MockDevice::new(vec![(
        false,
        inquiry_response("HL-DT-ST", "GCC-4240N", "E112"),
    )]);
    let mut d = DvdDrive::new(m, 0);
    d.inquiry().unwrap();
    assert_eq!(d.memdump_kind, MemdumpKind::Vanilla2064);
}

#[test]
fn memdump_sends_e7_with_base() {
    let resp = vec![0xABu8; 33024];
    let m = MockDevice::new(vec![(false, resp.clone()), (false, resp)]);
    let mut d = DvdDrive::new(m, -1);
    d.memdump_kind = MemdumpKind::HitachiMn103s;
    let mut buf = vec![0u8; 33024 * 2];
    d.memdump(0, 2, 33024, &mut buf).unwrap();
    assert_eq!(&buf[..33024], &vec![0xABu8; 33024][..]);
    let d0 = d.device.seen[0];
    assert_eq!(d0[0], 0xE7);
    assert_eq!(&d0[6..10], &[0x00, 0xA1, 0x30, 0x00]);
    let d1 = d.device.seen[1];
    assert_eq!(&d1[6..10], &[0x00, 0xA1, 0xB1, 0x00]);
}

#[test]
fn dummy_read_passes_data_buffer() {
    let m = MockDevice::new(vec![(true, Vec::new())]);
    let mut d = DvdDrive::new(m, -1);
    let out = d.read_sector_dummy(712_980, 16).unwrap();
    assert!(out.failed);
    let cdb = d.device.seen[0];
    assert_eq!(cdb[0], 0xA8);
    assert_eq!(cdb[1], 0x08);
    assert_eq!(&cdb[6..10], &[0x00, 0x00, 0x00, 0x10]);
    assert!(d.device.last_data_len >= 16 * 2048);
}

#[test]
fn unknown_drive_keeps_defaults_and_trims_fields() {
    let m = MockDevice::new(vec![(false, inquiry_response("ACME    ", "FAST DRIVE  ", "1.0 "))]);
    let mut d = DvdDrive::new(m, -1);
    d.inquiry().unwrap();
    assert_eq!(d.vendor, "ACME");
    assert_eq!(d.prod_id, "FAST DRIVE");
    assert_eq!(d.prod_rev, "1.0");
    assert!(!d.supported);
}

#[test]
fn size_and_layerbreak_parse_answers() {
    let mut cap = vec![0u8; 0x22];
    cap[0x18..0x1c].copy_from_slice(&712_880u32.to_be_bytes());
    let mut lb = vec![0u8; 2052];
    lb[0x11] = 0x21;
    let m = MockDevice::new(vec![(false, cap), (false, lb)]);
    let mut d = DvdDrive::new(m, -1);
    assert_eq!(d.get_size().unwrap(), 712_880);
    assert_eq!(d.get_layerbreak().unwrap(), 0x21_0000 - 0x30000 + 1);
}

#[test]
fn speed_command_ignores_the_status() {
    let m = MockDevice::new(vec![(true, Vec::new())]);
    let mut d = DvdDrive::new(m, -1);
    assert!(d.set_speed(0x1234).is_ok());
    assert_eq!(&d.device.seen[0][..4], &[0xBB, 0, 0x12, 0x34]);
    assert_eq!(d.device.last_data_len, 0);
}

#[test]
fn unsupported_memdump_kinds_are_refused() {
    let m = MockDevice::new(vec![]);
    let mut d = DvdDrive::new(m, -1);
    d.memdump_kind = MemdumpKind::LiteOn;
    let mut buf = vec![0u8; 2064];
    assert!(d.memdump(0, 1, 2064, &mut buf).is_err());
    assert!(d.device.seen.is_empty());
}

#[test]
fn transfer_direction_and_outcome_decoding() {
    assert_eq!(transfer_of(Direction::FromDevice, 0, 36), Transfer::FromDevice);
    assert_eq!(transfer_of(Direction::FromDevice, 5, 0), Transfer::NoData);
    assert_eq!(transfer_of(Direction::ToDevice, 28, 0), Transfer::ToDevice);
    assert_eq!(transfer_of(Direction::ToDevice, 0, 100), Transfer::NoData);
    let mut sense = [0u8; 32];
    sense[2] = 0xF5;
    sense[12] = 0x21;
    sense[13] = 0x02;
    let o = decode_outcome(0x02, 0, 0, &sense);
    assert!(o.failed);
    assert_eq!((o.sense.sense_key, o.sense.asc, o.sense.ascq), (0x05, 0x21, 0x02));
    assert!(!decode_outcome(0x81, 0, 0, &sense).failed);
    assert!(decode_outcome(0, 1, 0, &sense).failed);
    assert!(decode_outcome(0, 0, 8, &sense).failed);
    assert!(decode_outcome(0, 0, 0, &sense).is_ok());
}

#[test]
fn identify_and_layerbreak_from_answers() {
    let mut d = DvdDrive::new(MockDevice::new(vec![]), 1);
    let mut answer = [0u8; 36];
    answer.copy_from_slice(&inquiry_response("PLEXTOR", "DVDR   PX-716A", "1.11"));
    d.identify(&answer);
    assert_eq!(d.model, "PLEXTOR/DVDR   PX-716A/1.11");
    assert_eq!(d.memdump_kind, MemdumpKind::Vanilla2384);
    assert_eq!(d.def_method, 2);
    assert!(d.device.seen.is_empty());
    let mut buf = [0u8; 2052];
    assert_eq!(layerbreak_of_answer(&buf).unwrap(), 0);
    buf[0x11] = 0x02;
    assert!(matches!(layerbreak_of_answer(&buf), Err(friidump::Error::Other(_))));
    buf[0x11] = 0x22;
    buf[0x13] = 0x5f;
    assert_eq!(layerbreak_of_answer(&buf).unwrap(), 0x22005f - 0x30000 + 1);
}

#[test]
fn memdump_edge_cases_need_no_device() {
    let mut d = DvdDrive::new(MockDevice::new(vec![]), -1);
    d.memdump_kind = MemdumpKind::HitachiMn103s;
    let mut buf = vec![7u8; 10];
    d.memdump(0, 0, 2064, &mut buf).unwrap();
    assert!(matches!(d.memdump(0, 1, 2064, &mut buf), Err(friidump::Error::InvalidArgument(_))));
    assert_eq!(buf, vec![7u8; 10]);
    assert!(d.device.seen.is_empty());
}

#[test]
fn inquiry_result_from_outcomes() {
    let mut d = DvdDrive::new(MockDevice::new(vec![]), -1);
    let mut reply = [0u8; 36];
    reply.copy_from_slice(&inquiry_response("HL-DT-ST", "DVD-ROM GDR8082N", "0K03"));
    assert!(d.inquiry_result(Err(friidump::Error::Other("bus".to_string())), &reply).is_err());
    assert_eq!(d.vendor, "");
    let failed = ScsiOutcome { failed: true, sense: Sense::default() };
    assert!(matches!(d.inquiry_result(Ok(failed), &reply), Err(friidump::Error::Other(_))));
    assert_eq!(d.vendor, "");
    d.inquiry_result(Ok(ScsiOutcome::default()), &reply).unwrap();
    assert_eq!(d.prod_id, "DVD-ROM GDR8082N");
    assert_eq!(d.def_method, 9);
    assert_eq!(speed_value(24), Some(24 * 177));
    assert_eq!(speed_value(u32::MAX), None);
}

struct FailingDevice {
    calls: usize,
}

impl ScsiDevice for FailingDevice {
    fn execute(&mut self, _command: &Command, _data: &mut [u8]) -> Result<ScsiOutcome> {
        self.calls += 1;
        Err(friidump::Error::Other("transport".to_string()))
    }
}

#[test]
fn memdump_stops_at_a_failed_block() {
    let m = MockDevice::new(vec![(false, vec![0x11u8; 16]), (true, vec![0x22u8; 16]), (false, vec![0x33u8; 16])]);
    let mut d = DvdDrive::new(m, -1);
    d.memdump_kind = MemdumpKind::Vanilla2064;
    let mut buf = vec![0u8; 48];
    assert!(matches!(d.memdump(0x100, 3, 16, &mut buf), Err(friidump::Error::Other(_))));
    assert_eq!(d.device.seen.len(), 2);
    assert_eq!(&buf[..16], &[0x11u8; 16][..]);
    assert_eq!(&buf[16..32], &[0x22u8; 16][..]);
    assert_eq!(&buf[32..], &[0u8; 16][..]);
}

#[test]
fn memdump_checks_every_block_against_the_buffer() {
    let m = MockDevice::new(vec![(false, vec![0x44u8; 16]), (false, vec![0x55u8; 16])]);
    let mut d = DvdDrive::new(m, -1);
    d.memdump_kind = MemdumpKind::Hitachi;
    let mut buf = vec![0u8; 24];
    assert!(matches!(d.memdump(0, 2, 16, &mut buf), Err(friidump::Error::InvalidArgument(_))));
    assert_eq!(d.device.seen.len(), 1);
    assert_eq!(d.device.seen[0][0], 0xE7);
    assert_eq!(&buf[..16], &[0x44u8; 16][..]);
    assert_eq!(&buf[16..], &[0u8; 8][..]);
}

#[test]
fn memdump_passes_on_the_device_error() {
    let mut d = DvdDrive::new(FailingDevice { calls: 0 }, -1);
    d.memdump_kind = MemdumpKind::HitachiMn103s;
    let mut buf = vec![0u8; 64];
    match d.memdump(0, 4, 16, &mut buf) {
        Err(friidump::Error::Other(m)) => assert_eq!(m, "transport"),
        _ => panic!("expected the device's error"),
    }
    assert_eq!(d.device.calls, 1);
}

#[test]
fn memdump_block_results() {
    let ok = ScsiOutcome::default();
    let failed = ScsiOutcome { failed: true, sense: Sense::default() };
    assert!(memdump_block_result(Ok(ok), 16, 16).is_ok());
    assert!(matches!(memdump_block_result(Ok(failed), 16, 16), Err(friidump::Error::Other(_))));
    assert!(matches!(memdump_block_result(Ok(ScsiOutcome::default()), 8, 16), Err(friidump::Error::Other(_))));
    assert!(matches!(
        memdump_block_result(Err(friidump::Error::Unsupported("x".to_string())), 16, 16),
        Err(friidump::Error::Unsupported(_))
    ));
}

#[test]
fn streaming_reads_pass_on_only_device_errors() {
    let m = MockDevice::new(vec![(true, vec![9u8; 4]), (true, Vec::new())]);
    let mut d = DvdDrive::new(m, -1);
    let mut buf = [0u8; 8];
    assert!(d.read_sector_streaming(100, &mut buf).is_ok());
    assert_eq!(&buf[..4], &[9u8; 4]);
    assert!(d.read_streaming(100, 1, &mut buf).is_ok());
    let mut f = DvdDrive::new(FailingDevice { calls: 0 }, -1);
    assert!(matches!(f.read_sector_streaming(100, &mut buf), Err(friidump::Error::Other(_))));
    assert!(matches!(f.read_sector_dummy(100, 16), Err(friidump::Error::Other(_))));
    assert!(matches!(f.get_layerbreak(), Err(friidump::Error::Other(_))));
    assert!(matches!(f.stop_unit(true), Err(friidump::Error::Other(_))));
    assert_eq!(f.device.calls, 4);
}

#[test]
fn layerbreak_is_decoded_even_from_a_failed_command() {
    let mut lb = vec![0u8; 2052];
    lb[0x11] = 0x03;
    let m = MockDevice::new(vec![(true, lb)]);
    let mut d = DvdDrive::new(m, -1);
    assert_eq!(d.get_layerbreak().unwrap(), 1);
    assert_eq!(d.device.last_data_len, 2052);
}
