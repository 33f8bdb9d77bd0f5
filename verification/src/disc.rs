//! Reading a disc with the fast methods 11 and 12.
//!
//! A plain READ(12) returns the host data `rd` of a block: the bytes 12..2060
//! of every raw frame XORed with a stream of the drive, which repeats every 16
//! blocks like the disc's own scrambling. Calibrating on 16 reference blocks
//! read raw through the E7 memory dump gives, per phase, the correction
//! (method 11: drive stream XOR disc stream) or the drive stream alone
//! (method 12). A block is then read with a streaming READ and one short E7
//! per sector for the bytes the READ lacks; the sector numbers of those E7
//! reads detect a drive that returned stale data.

use vstd::prelude::*;
use crate::bytes::be_u24;
use crate::cache::{BlockCache, CacheEntryView, cached, slot_of, layout_raw, DEFAULT_CACHE_SIZE};
use crate::constants::{DISC_GAMECUBE_SECTORS_NO, DISC_WII_SECTORS_NO_DL, DISC_WII_SECTORS_NO_SL};
use crate::drive::device::{ScsiDevice, ScsiOutcome};
use crate::drive::dvd::{DvdDrive, DeviceAnswer, answered, dump_cdb, layerbreak_of, one_more_answer, same_settings, size_of};
use crate::drive::profile::MemdumpKind;
use crate::drive::mmc;
use crate::ecma267::lfsr_stream;
use crate::error::{Error, Result};
use crate::metadata::DiscType;
use crate::read::{compute_params, method_default_sec, params_of, ReadMethod, ReadParams, lemma_extra_reads_le_15};
use crate::unscrambler::{frame_ok, frame_out, Unscrambler, DISCTYPE_DVD, DISCTYPE_NINTENDO};

verus! {

/// Length of the head of a raw frame read by E7 (sector ID and 6 data bytes).
pub const HEAD_LEN: usize = 12;

/// Length of the tail of a raw frame read by E7 (CPR_MAI and EDC).
pub const TAIL_LEN: usize = 10;

/// Offset of the tail in a raw frame.
pub const TAIL_OFFSET: usize = 2054;

/// Offset between sector numbers of the raw frames and LBAs on layer 0.
pub const SN_OFFSET_LAYER1: u32 = 0x30000;

/// The sector number (ID) carried by the head of a raw frame: its bytes 1..4.
pub open spec fn head_sector_number(head: Seq<u8>) -> u32 {
    be_u24(head[1], head[2], head[3])
}

/// The sector number carried by the head `head`.
pub fn sector_number(head: &[u8; 12]) -> (sn: u32)
    ensures
        sn == head_sector_number(head@),
{
    ((head[1] as u32) << 16u32) | ((head[2] as u32) << 8u32) | (head[3] as u32)
}

/// The method 11 correction of a phase: the host data of the last sector of
/// a reference block XORed with the bytes 6..2048 of its unscrambled data.
pub open spec fn correction_of(rd: Seq<u8>, p: Seq<u8>) -> Seq<u8> {
    Seq::new(2042, |i: int| rd[15 * 2048 + i] ^ p[15 * 2048 + 6 + i])
}

/// The method 12 drive stream of a phase: the host data of the last sector
/// of a reference block XORed with bytes 12..2060 of its raw frame.
pub open spec fn drive_stream_of(rd: Seq<u8>, raw: Seq<u8>) -> Seq<u8> {
    Seq::new(2048, |i: int| rd[15 * 2048 + i] ^ raw[15 * 2064 + 12 + i])
}

/// The method 11 correction from the host data `rd` and the unscrambled
/// data `p` of a reference block.
pub fn calibration_correction(rd: &[u8; 32768], p: &[u8; 32768]) -> (c: Vec<u8>)
    ensures
        c@ == correction_of(rd@, p@),
{
    let mut c: Vec<u8> = Vec::new();
    let mut i: usize = 0;
    while i < 2042
        invariant
            i <= 2042,
            c@ =~= correction_of(rd@, p@).subrange(0, i as int),
        decreases 2042 - i,
    {
        c.push(rd[15 * 2048 + i] ^ p[15 * 2048 + 6 + i]);
        i = i + 1;
    }
    assert(c@ =~= correction_of(rd@, p@));
    c
}

/// The method 12 drive stream from the host data `rd` and the raw frames
/// `raw` of a reference block.
pub fn calibration_drive_stream(rd: &[u8; 32768], raw: &[u8; 33024]) -> (c: Vec<u8>)
    ensures
        c@ == drive_stream_of(rd@, raw@),
{
    let mut c: Vec<u8> = Vec::new();
    let mut i: usize = 0;
    while i < 2048
        invariant
            i <= 2048,
            c@ =~= drive_stream_of(rd@, raw@).subrange(0, i as int),
        decreases 2048 - i,
    {
        c.push(rd[15 * 2048 + i] ^ raw[15 * 2064 + 12 + i]);
        i = i + 1;
    }
    assert(c@ =~= drive_stream_of(rd@, raw@));
    c
}

/// Sector `k` of a block read with method 11: its first 6 bytes from the E7
/// head, the rest from the host data XORed with the correction.
pub open spec fn fast11_sector_byte(head: Seq<u8>, rd: Seq<u8>, corr: Seq<u8>, k: int, t: int) -> u8 {
    if t < 6 {
        head[6 + t]
    } else {
        rd[k * 2048 + t - 6] ^ corr[t - 6]
    }
}

/// Writes sector `k` of a method 11 block into `out`.
pub fn fast11_sector(out: &mut [u8; 32768], k: usize, head: &[u8; 12], rd: &[u8; 32768], corr: &Vec<u8>)
    requires
        k < 16,
        corr@.len() == 2042,
    ensures
        forall|q: int|
            0 <= q < 32768 ==> #[trigger] final(out)@[q] == if k * 2048 <= q < k * 2048 + 2048 {
                fast11_sector_byte(head@, rd@, corr@, k as int, q - k * 2048)
            } else {
                old(out)@[q]
            },
{
    let oo = k * 2048;
    let mut t: usize = 0;
    while t < 2048
        invariant
            k < 16,
            oo == k * 2048,
            t <= 2048,
            corr@.len() == 2042,
            forall|q: int|
                0 <= q < 32768 ==> #[trigger] out@[q] == if oo <= q < oo + t {
                    fast11_sector_byte(head@, rd@, corr@, k as int, q - oo)
                } else {
                    old(out)@[q]
                },
        decreases 2048 - t,
    {
        if t < 6 {
            out[oo + t] = head[6 + t];
        } else {
            out[oo + t] = rd[oo + t - 6] ^ corr[t - 6];
        }
        t = t + 1;
    }
}

/// Byte `o` of raw frame `k` of a block read with method 12: the E7 head for
/// bytes 0..12, the host data XORed with the drive stream for 12..2054, the
/// E7 tail for 2054..2064.
pub open spec fn fast12_frame_byte(head: Seq<u8>, tail: Seq<u8>, rd: Seq<u8>, stream: Seq<u8>, k: int, o: int) -> u8 {
    if o < 12 {
        head[o]
    } else if o < 2054 {
        rd[k * 2048 + o - 12] ^ stream[o - 12]
    } else {
        tail[o - 2054]
    }
}

/// Writes raw frame `k` of a method 12 block into `raw`.
pub fn fast12_frame(
    raw: &mut [u8; 33024],
    k: usize,
    head: &[u8; 12],
    tail: &[u8; 10],
    rd: &[u8; 32768],
    stream: &Vec<u8>,
)
    requires
        k < 16,
        stream@.len() == 2048,
    ensures
        forall|q: int|
            0 <= q < 33024 ==> #[trigger] final(raw)@[q] == if k * 2064 <= q < k * 2064 + 2064 {
                fast12_frame_byte(head@, tail@, rd@, stream@, k as int, q - k * 2064)
            } else {
                old(raw)@[q]
            },
{
    let ro = k * 2064;
    let mut o: usize = 0;
    while o < 2064
        invariant
            k < 16,
            ro == k * 2064,
            o <= 2064,
            stream@.len() == 2048,
            forall|q: int|
                0 <= q < 33024 ==> #[trigger] raw@[q] == if ro <= q < ro + o {
                    fast12_frame_byte(head@, tail@, rd@, stream@, k as int, q - ro)
                } else {
                    old(raw)@[q]
                },
        decreases 2064 - o,
    {
        if o < 12 {
            raw[ro + o] = head[o];
        } else if o < 2054 {
            raw[ro + o] = rd[k * 2048 + o - 12] ^ stream[o - 12];
        } else {
            raw[ro + o] = tail[o - 2054];
        }
        o = o + 1;
    }
}

/// `seed` unscrambles the raw block `raw` to `data`, with a valid EDC in
/// every sector.
pub open spec fn seed_unscrambles(disctype: u8, raw: Seq<u8>, data: Seq<u8>, seed: u16) -> bool {
    &&& frame_ok(raw, lfsr_stream(seed, 2048))
    &&& data == frame_out(disctype, raw, lfsr_stream(seed, 2048))
}

/// Some seed of the scrambling register (below 0x7FFF) unscrambles the raw
/// block `raw` to `data`, with a valid EDC in every sector.
pub open spec fn block_unscrambles(disctype: u8, raw: Seq<u8>, data: Seq<u8>) -> bool {
    exists|seed: u16| seed < 0x7FFF && #[trigger] seed_unscrambles(disctype, raw, data, seed)
}

/// `a` answers a streaming READ(12) of the block at `lba`.
pub open spec fn streamed(a: DeviceAnswer, lba: u32) -> bool {
    &&& a.cdb == mmc::read12_streaming_cdb(lba)
    &&& a.result is Ok
}

/// The drive's log `a` ends with a raw read of the block at `lba`: two
/// streaming READs of it, then a dump of the 33024 bytes of raw frames the
/// drive holds.
pub open spec fn ends_with_raw_read(a: Seq<DeviceAnswer>, kind: MemdumpKind, lba: u32) -> bool {
    &&& a.len() >= 3
    &&& streamed(a[a.len() - 3], lba)
    &&& streamed(a[a.len() - 2], lba)
    &&& answered(a[a.len() - 1], dump_cdb(kind, 0, 33024), 33024)
}

/// The last `m` answers of the log `a`.
pub open spec fn last_answers(a: Seq<DeviceAnswer>, m: int) -> Seq<DeviceAnswer> {
    a.subrange(a.len() - m, a.len() as int)
}

/// The number of answers per sector of a fast read: the head, and the tail
/// too (`tails`).
pub open spec fn fast_step(tails: bool) -> int {
    if tails {
        2
    } else {
        1
    }
}

/// The answer to the head read of sector `k` in the answers `seg` of a fast
/// read (one answer per sector without tails, two with).
pub open spec fn head_at(seg: Seq<DeviceAnswer>, step: int, k: int) -> DeviceAnswer {
    seg[2 + step * k]
}

/// The answer to the tail read of sector `k` in the answers `seg` of a fast
/// read with tails.
pub open spec fn tail_at(seg: Seq<DeviceAnswer>, k: int) -> DeviceAnswer {
    seg[3 + 2 * k]
}

/// `a` answers the read of the 12-byte head of the raw frame of sector `k`
/// of the block at `lba`, and the head carries the sector number
/// `lba + k + sn_off`.
pub open spec fn head_read(a: DeviceAnswer, kind: MemdumpKind, lba: u32, sn_off: u32, k: int) -> bool {
    &&& answered(a, dump_cdb(kind, (k * 2064) as u32, 12), 12)
    &&& head_sector_number(a.reply) == vstd::wrapping::u32_specs::wrapping_add(
        vstd::wrapping::u32_specs::wrapping_add(lba, k as u32),
        sn_off,
    )
}

/// `a` answers the read of the 10-byte tail of the raw frame of sector `k`.
pub open spec fn tail_read(a: DeviceAnswer, kind: MemdumpKind, k: int) -> bool {
    answered(a, dump_cdb(kind, (k * 2064 + 2054) as u32, 10), 10)
}

/// The answers `seg` of a fast read of the block at `lba`: two streaming
/// READs of it (the second with the host data of the block), then for each
/// sector `k` in order the head of its raw frame, carrying the sector
/// number `lba + k + sn_off`, followed (with `tails`) by its tail.
pub open spec fn fast_replies(seg: Seq<DeviceAnswer>, kind: MemdumpKind, lba: u32, sn_off: u32, tails: bool) -> bool {
    let step = fast_step(tails);
    &&& seg.len() == 2 + 16 * step
    &&& streamed(seg[0], lba)
    &&& streamed(seg[1], lba)
    &&& seg[1].reply.len() == 32768
    &&& forall|k: int| 0 <= k < 16 ==> head_read(#[trigger] head_at(seg, step, k), kind, lba, sn_off, k)
    &&& tails ==> forall|k: int| 0 <= k < 16 ==> tail_read(#[trigger] tail_at(seg, k), kind, k)
}

/// The heads read in the answers `seg` of a fast read.
pub open spec fn heads_of(seg: Seq<DeviceAnswer>, step: int) -> Seq<Seq<u8>> {
    Seq::new(16, |k: int| head_at(seg, step, k).reply)
}

/// The tails read in the answers `seg` of a fast read with tails.
pub open spec fn tails_of(seg: Seq<DeviceAnswer>) -> Seq<Seq<u8>> {
    Seq::new(16, |k: int| tail_at(seg, k).reply)
}

/// The raw frames of a block read with method 12 from the heads, tails and
/// host data read and the drive stream of its phase.
pub open spec fn fast12_raw(heads: Seq<Seq<u8>>, tails: Seq<Seq<u8>>, rd: Seq<u8>, stream: Seq<u8>) -> Seq<u8> {
    Seq::new(33024, |q: int| fast12_frame_byte(heads[q / 2064], tails[q / 2064], rd, stream, q / 2064, q % 2064))
}

/// The data of a block read with method 11 from the heads and host data
/// read and the correction of its phase.
pub open spec fn fast11_data(heads: Seq<Seq<u8>>, rd: Seq<u8>, corr: Seq<u8>) -> Seq<u8> {
    Seq::new(32768, |q: int| fast11_sector_byte(heads[q / 2048], rd, corr, q / 2048, q % 2048))
}

/// Position `q` of a block of `k`-th `n`-byte pieces is in piece `k`.
proof fn lemma_in_piece(q: int, k: int, n: int)
    requires
        n > 0,
        k * n <= q < k * n + n,
    ensures
        q / n == k,
        q % n == q - k * n,
{
    vstd::arithmetic::div_mod::lemma_fundamental_div_mod_converse(q, n, k, q - k * n);
}

/// The raw frames that method 12 rebuilds from a fast read carry, sector by
/// sector, the sector numbers that the read checked: frame `k` carries
/// `lba + k + sn_off`.
pub proof fn lemma_fast12_sector_ids(seg: Seq<DeviceAnswer>, kind: MemdumpKind, lba: u32, sn_off: u32, stream: Seq<u8>, k: int)
    requires
        fast_replies(seg, kind, lba, sn_off, true),
        0 <= k < 16,
    ensures
        head_sector_number(
            fast12_raw(heads_of(seg, 2), tails_of(seg), seg[1].reply, stream).subrange(k * 2064, k * 2064 + 12),
        ) == vstd::wrapping::u32_specs::wrapping_add(vstd::wrapping::u32_specs::wrapping_add(lba, k as u32), sn_off),
{
    let raw = fast12_raw(heads_of(seg, 2), tails_of(seg), seg[1].reply, stream);
    let h = head_at(seg, 2, k).reply;
    assert(fast_step(true) == 2);
    assert(head_read(head_at(seg, 2, k), kind, lba, sn_off, k));
    assert forall|o: int| 0 <= o < 12 implies #[trigger] raw[k * 2064 + o] == h[o] by {
        lemma_in_piece(k * 2064 + o, k, 2064);
    }
    let f = raw.subrange(k * 2064, k * 2064 + 12);
    assert(f[1] == raw[k * 2064 + 1]);
    assert(f[2] == raw[k * 2064 + 2]);
    assert(f[3] == raw[k * 2064 + 3]);
}

/// Reads the block at `lba` the fast way: two streaming READs (the second
/// into `rd`), then for each sector the head of its raw frame, checked to
/// carry the expected sector number (`lba + k + sn_off`), and with `tails`
/// its tail. Returns the heads and tails, or `None` at the first failure.
fn read_fast_replies<D: ScsiDevice>(
    drive: &mut DvdDrive<D>,
    lba: u32,
    sn_off: u32,
    tails: bool,
    rd: &mut [u8; 32768],
) -> (r: Option<(Vec<[u8; 12]>, Vec<[u8; 10]>)>)
    ensures
        same_settings(*final(drive), *old(drive)),
        r matches Some((hs, ts)) ==> {
            let step = fast_step(tails);
            let seg = last_answers(final(drive).answers@, 2 + 16 * step);
            &&& final(drive).answers@.len() >= 2 + 16 * step
            &&& fast_replies(seg, old(drive).memdump_kind, lba, sn_off, tails)
            &&& final(rd)@ == seg[1].reply
            &&& hs@.len() == 16
            &&& forall|k: int| 0 <= k < 16 ==> (#[trigger] hs@[k])@ == head_at(seg, step, k).reply
            &&& tails ==> ts@.len() == 16
            &&& tails ==> forall|k: int| 0 <= k < 16 ==> (#[trigger] ts@[k])@ == tail_at(seg, k).reply
        },
{
    let ghost kind = drive.memdump_kind;
    let ghost step: int = if tails { 2 } else { 1 };
    let ghost s0 = drive.answers@.len() as int;
    if drive.read_sector_streaming_discard(lba).is_err() {
        return None;
    }
    if drive.read_sector_streaming(lba, rd).is_err() {
        return None;
    }
    assert(drive.answers@[s0] == drive.answers@.drop_last()[s0]);
    let mut hs: Vec<[u8; 12]> = Vec::new();
    let mut ts: Vec<[u8; 10]> = Vec::new();
    let mut k: usize = 0;
    while k < 16
        invariant
            k <= 16,
            same_settings(*drive, *old(drive)),
            kind == drive.memdump_kind,
            step == if tails { 2int } else { 1int },
            0 <= s0,
            drive.answers@.len() == s0 + 2 + step * k,
            streamed(drive.answers@[s0], lba),
            streamed(drive.answers@[s0 + 1], lba),
            drive.answers@[s0 + 1].reply == rd@,
            hs@.len() == k,
            tails ==> ts@.len() == k,
            forall|j: int| 0 <= j < k ==> head_read(#[trigger] drive.answers@[s0 + 2 + step * j], kind, lba, sn_off, j),
            forall|j: int| 0 <= j < k ==> (#[trigger] hs@[j])@ == drive.answers@[s0 + 2 + step * j].reply,
            tails ==> forall|j: int| 0 <= j < k ==> tail_read(#[trigger] drive.answers@[s0 + 3 + 2 * j], kind, j),
            tails ==> forall|j: int| 0 <= j < k ==> (#[trigger] ts@[j])@ == drive.answers@[s0 + 3 + 2 * j].reply,
        decreases 16 - k,
    {
        let ghost before = drive.answers@;
        let mut head = [0u8; 12];
        if drive.dump_memory((k * 2064) as u32, &mut head).is_err() {
            return None;
        }
        let sn = sector_number(&head);
        if sn != lba.wrapping_add(k as u32).wrapping_add(sn_off) {
            return None;
        }
        proof {
            let a = drive.answers@;
            assert forall|i: int| 0 <= i < before.len() implies a[i] == before[i] by {
                assert(a.drop_last()[i] == a[i]);
            }
            assert(a[s0 + 2 + step * k] == a.last());
        }
        hs.push(head);
        let ghost mid = drive.answers@;
        if tails {
            let mut tail = [0u8; 10];
            if drive.dump_memory((k * 2064 + 2054) as u32, &mut tail).is_err() {
                return None;
            }
            proof {
                let a = drive.answers@;
                assert forall|i: int| 0 <= i < mid.len() implies a[i] == mid[i] by {
                    assert(a.drop_last()[i] == a[i]);
                }
                assert(a[s0 + 3 + 2 * k] == a.last());
            }
            ts.push(tail);
        }
        proof {
            let a = drive.answers@;
            assert forall|j: int| 0 <= j <= k implies head_read(#[trigger] a[s0 + 2 + step * j], kind, lba, sn_off, j) by {
                if j < k {
                    assert(0 <= step * j < step * k) by (nonlinear_arith)
                        requires
                            0 <= j < k,
                            step >= 1,
                    ;
                    assert(mid[s0 + 2 + step * j] == before[s0 + 2 + step * j]);
                    assert(a[s0 + 2 + step * j] == mid[s0 + 2 + step * j]);
                }
            }
            assert forall|j: int| 0 <= j <= k implies (#[trigger] hs@[j])@ == a[s0 + 2 + step * j].reply by {
                if j < k {
                    assert(0 <= step * j < step * k) by (nonlinear_arith)
                        requires
                            0 <= j < k,
                            step >= 1,
                    ;
                    assert(mid[s0 + 2 + step * j] == before[s0 + 2 + step * j]);
                    assert(a[s0 + 2 + step * j] == mid[s0 + 2 + step * j]);
                }
            }
            if tails {
                assert forall|j: int| 0 <= j <= k implies tail_read(#[trigger] a[s0 + 3 + 2 * j], kind, j) by {
                    if j < k {
                        assert(a[s0 + 3 + 2 * j] == before[s0 + 3 + 2 * j]);
                    }
                }
                assert forall|j: int| 0 <= j <= k implies (#[trigger] ts@[j])@ == a[s0 + 3 + 2 * j].reply by {
                    if j < k {
                        assert(a[s0 + 3 + 2 * j] == before[s0 + 3 + 2 * j]);
                    }
                }
            }
            assert(a[s0] == before[s0]);
            assert(a[s0 + 1] == before[s0 + 1]);
        }
        k = k + 1;
    }
    proof {
        let a = drive.answers@;
        let seg = last_answers(a, 2 + 16 * step);
        assert(seg[0] == a[s0]);
        assert(seg[1] == a[s0 + 1]);
        assert forall|j: int| 0 <= j < 16 implies head_read(#[trigger] head_at(seg, step, j), kind, lba, sn_off, j)
            && hs@[j]@ == head_at(seg, step, j).reply by {
            assert(head_at(seg, step, j) == a[s0 + 2 + step * j]);
        }
        if tails {
            assert forall|j: int| 0 <= j < 16 implies tail_read(#[trigger] tail_at(seg, j), kind, j)
                && ts@[j]@ == tail_at(seg, j).reply by {
                assert(tail_at(seg, j) == a[s0 + 3 + 2 * j]);
            }
        }
    }
    Some((hs, ts))
}

/// A reader of a disc.
pub struct Disc<D: ScsiDevice> {
    /// The drive.
    pub drive: DvdDrive<D>,
    /// The unscrambler.
    pub unscrambler: Unscrambler,
    /// The block cache.
    pub cache: BlockCache,
    /// The type of the disc.
    pub disc_type: DiscType,
    /// The number of sectors.
    pub sectors_no: u32,
    /// The layer break (0 for one layer).
    pub layerbreak: u32,
    /// The read method.
    pub read_method: ReadMethod,
    /// The read loop parameters.
    pub params: ReadParams,
    /// Whether blocks are unscrambled.
    pub unscrambling: bool,
    /// The calibration of the fast methods.
    pub calibration: FastCalibration,
}

/// The calibration of the fast methods: per phase, the method 11
/// corrections and the method 12 drive streams of each layer, and the
/// sector number offset of the second layer.
pub struct FastCalibration {
    fast_ready: bool,
    fast_corr: Vec<Vec<u8>>,
    fast_ready2: bool,
    fast_corr2: Vec<Vec<u8>>,
    fast12_ready: bool,
    drive_cipher12: Vec<Vec<u8>>,
    fast12_ready2: bool,
    drive_cipher12_2: Vec<Vec<u8>>,
    layer_sn_offset2: u32,
    layer2_ready: bool,
}

impl FastCalibration {
    /// Every table has 16 rows of the right length.
    pub closed spec fn wf(&self) -> bool {
        &&& phase_table(self.fast_corr@, 2042)
        &&& phase_table(self.fast_corr2@, 2042)
        &&& phase_table(self.drive_cipher12@, 2048)
        &&& phase_table(self.drive_cipher12_2@, 2048)
        &&& self.fast_ready2 ==> self.layer2_ready
        &&& self.fast12_ready2 ==> self.layer2_ready
    }

    /// The method 11 corrections of the first layer are calibrated.
    pub closed spec fn ready11(&self) -> bool {
        self.fast_ready
    }

    /// The method 11 corrections of the second layer are calibrated.
    pub closed spec fn ready11_layer2(&self) -> bool {
        self.fast_ready2
    }

    /// The method 12 drive streams of the first layer are calibrated.
    pub closed spec fn ready12(&self) -> bool {
        self.fast12_ready
    }

    /// The method 12 drive streams of the second layer are calibrated.
    pub closed spec fn ready12_layer2(&self) -> bool {
        self.fast12_ready2
    }

    /// The sector number offset of the second layer is known.
    pub closed spec fn layer2_known(&self) -> bool {
        self.layer2_ready
    }

    /// The sector number offset of the second layer.
    pub closed spec fn layer2_offset(&self) -> u32 {
        self.layer_sn_offset2
    }

    /// The method 11 correction of phase `m` of the first layer, or of the
    /// second (`layer2`).
    pub closed spec fn corr_row(&self, layer2: bool, m: int) -> Seq<u8> {
        if layer2 {
            self.fast_corr2@[m]@
        } else {
            self.fast_corr@[m]@
        }
    }

    /// The method 12 drive stream of phase `m` of the first layer, or of the
    /// second (`layer2`).
    pub closed spec fn stream_row(&self, layer2: bool, m: int) -> Seq<u8> {
        if layer2 {
            self.drive_cipher12_2@[m]@
        } else {
            self.drive_cipher12@[m]@
        }
    }

    /// No calibration yet.
    pub fn new() -> (c: Self)
        ensures
            c.wf(),
            !c.ready11(),
            !c.ready11_layer2(),
            !c.ready12(),
            !c.ready12_layer2(),
            !c.layer2_known(),
    {
        FastCalibration {
            fast_ready: false,
            fast_corr: zero_table(2042),
            fast_ready2: false,
            fast_corr2: zero_table(2042),
            fast12_ready: false,
            drive_cipher12: zero_table(2048),
            fast12_ready2: false,
            drive_cipher12_2: zero_table(2048),
            layer_sn_offset2: 0,
            layer2_ready: false,
        }
    }
}

/// A table of 16 rows of `n` bytes, one per phase.
pub open spec fn phase_table(t: Seq<Vec<u8>>, n: nat) -> bool {
    &&& t.len() == 16
    &&& forall|m: int| 0 <= m < 16 ==> (#[trigger] t[m])@.len() == n
}

/// The settings of `a` and `b` (all but the device, the seed cache, the block
/// cache and the calibration) are the same.
pub open spec fn same_disc_settings<D: ScsiDevice>(a: Disc<D>, b: Disc<D>) -> bool {
    &&& a.disc_type == b.disc_type
    &&& a.sectors_no == b.sectors_no
    &&& a.layerbreak == b.layerbreak
    &&& a.read_method == b.read_method
    &&& a.params == b.params
    &&& a.unscrambling == b.unscrambling
    &&& a.unscrambler@.disctype == b.unscrambler@.disctype
    &&& a.unscrambler@.bruteforce == b.unscrambler@.bruteforce
    &&& same_settings(a.drive, b.drive)
}

/// The LBA `lba` lies on the second layer of the disc read by `d`.
pub open spec fn on_layer2<D: ScsiDevice>(d: Disc<D>, lba: u32) -> bool {
    d.layerbreak > 0 && d.disc_type == DiscType::WiiDl && lba >= d.layerbreak
}

/// Block `blk` is read raw whatever the method: block 0 and the first block
/// of the second layer.
pub open spec fn read_raw_only<D: ScsiDevice>(d: Disc<D>, blk: u32) -> bool {
    blk == 0 || (on_layer2(d, (blk * 16) as u32) && blk * 16 == (d.layerbreak / 16) * 16)
}

/// The offset between sector numbers and LBAs on a layer of the disc read
/// by `d`.
pub open spec fn sn_offset<D: ScsiDevice>(d: Disc<D>, layer2: bool) -> u32 {
    if layer2 {
        d.calibration.layer2_offset()
    } else {
        SN_OFFSET_LAYER1
    }
}

/// How method 12 obtained the entry `e` of block `blk` when the disc went
/// from `d0` to `d1`: the drive's log ends either with a raw read of the
/// block whose reply is `e.raw`, or (for a block not read raw whatever the
/// method) with a fast read of it whose heads carry the block's sector
/// numbers and from whose replies, with the drive stream of the block's
/// phase, `e.raw` is rebuilt.
pub open spec fn read12_evidence<D: ScsiDevice>(d0: Disc<D>, d1: Disc<D>, blk: u32, e: CacheEntryView) -> bool {
    let a = d1.drive.answers@;
    let lba = (blk * 16) as u32;
    let kind = d0.drive.memdump_kind;
    let l2 = on_layer2(d0, lba);
    let seg = last_answers(a, 34);
    &&& (ends_with_raw_read(a, kind, lba) && e.raw == a.last().reply) || {
        &&& !read_raw_only(d0, blk)
        &&& a.len() >= 34
        &&& fast_replies(seg, kind, lba, sn_offset(d1, l2), true)
        &&& e.raw == fast12_raw(heads_of(seg, 2), tails_of(seg), seg[1].reply, d1.calibration.stream_row(l2, (blk % 16) as int))
    }
    &&& read_raw_only(d0, blk) ==> ends_with_raw_read(a, kind, lba) && e.raw == a.last().reply
}

/// How method 11 obtained the entry `e` of block `blk` when the disc went
/// from `d0` to `d1`: the drive's log ends either with a raw read of the
/// block whose reply unscrambles to `e.data`, or (for a block not read raw
/// whatever the method) with a fast read of it whose heads carry the
/// block's sector numbers and whose replies, with the correction of the
/// block's phase, decode to `e.data`.
pub open spec fn read11_evidence<D: ScsiDevice>(d0: Disc<D>, d1: Disc<D>, blk: u32, e: CacheEntryView) -> bool {
    let a = d1.drive.answers@;
    let lba = (blk * 16) as u32;
    let kind = d0.drive.memdump_kind;
    let l2 = on_layer2(d0, lba);
    let seg = last_answers(a, 18);
    &&& (ends_with_raw_read(a, kind, lba) && block_unscrambles(d0.unscrambler@.disctype, a.last().reply, e.data)) || {
        &&& !read_raw_only(d0, blk)
        &&& a.len() >= 18
        &&& fast_replies(seg, kind, lba, sn_offset(d1, l2), false)
        &&& e.data == fast11_data(heads_of(seg, 1), seg[1].reply, d1.calibration.corr_row(l2, (blk % 16) as int))
    }
    &&& read_raw_only(d0, blk) ==> ends_with_raw_read(a, kind, lba) && block_unscrambles(d0.unscrambler@.disctype, a.last().reply, e.data)
}

/// The offset of the user data in the raw frames rebuilt for a disc type.
pub open spec fn raw_data_offset(t: DiscType) -> int {
    if t == DiscType::Dvd {
        12
    } else {
        6
    }
}

fn zero_table(n: usize) -> (t: Vec<Vec<u8>>)
    ensures
        phase_table(t@, n as nat),
{
    let mut t: Vec<Vec<u8>> = Vec::new();
    let mut m: usize = 0;
    while m < 16
        invariant
            m <= 16,
            t@.len() == m,
            forall|q: int| 0 <= q < m ==> (#[trigger] t@[q])@.len() == n,
        decreases 16 - m,
    {
        t.push(vec![0u8; n]);
        m = m + 1;
    }
    t
}

fn copy_row(v: &Vec<u8>) -> (r: Vec<u8>)
    ensures
        r@ == v@,
{
    let mut r: Vec<u8> = Vec::new();
    let mut i: usize = 0;
    while i < v.len()
        invariant
            i <= v@.len(),
            r@ =~= v@.subrange(0, i as int),
        decreases v@.len() - i,
    {
        r.push(v[i]);
        i = i + 1;
    }
    assert(r@ =~= v@);
    r
}

impl<D: ScsiDevice> Disc<D> {
    /// The cache and the calibration tables are well formed.
    pub open spec fn wf(&self) -> bool {
        &&& self.cache.wf()
        &&& self.calibration.wf()
    }

    /// A reader of the disc in `drive`: GameCube, method 12, unscrambling on,
    /// an empty cache of the default size.
    pub fn new(drive: DvdDrive<D>) -> (r: Result<Self>)
        ensures
            r matches Ok(d) ==> {
                &&& d.wf()
                &&& d.drive == drive
                &&& d.disc_type == DiscType::GameCube
                &&& d.sectors_no == 0
                &&& d.layerbreak == 0
                &&& d.read_method == ReadMethod::M12
                &&& d.params == params_of(16, 16)
                &&& d.unscrambling
                &&& d.unscrambler@.bruteforce
                &&& d.unscrambler@.disctype == DISCTYPE_NINTENDO
                &&& d.cache@.len() == DEFAULT_CACHE_SIZE
                &&& forall|i: int| 0 <= i < DEFAULT_CACHE_SIZE ==> (#[trigger] d.cache@[i]).map is None
            },
            r is Ok,
    {
        let mut unscrambler = Unscrambler::new();
        unscrambler.set_bruteforce(true);
        let cache = match BlockCache::new(DEFAULT_CACHE_SIZE) {
            Ok(c) => c,
            Err(e) => return Err(e),
        };
        proof {
            lemma_extra_reads_le_15(16);
            assert(method_default_sec(ReadMethod::M12) == 16);
            assert(16 * (crate::read::extra_reads(16) + 1) <= 256);
        }
        let params = match compute_params(ReadMethod::M12, None, None) {
            Ok(p) => p,
            Err(e) => return Err(e),
        };
        Ok(Disc {
            drive,
            unscrambler,
            cache,
            disc_type: DiscType::GameCube,
            sectors_no: 0,
            layerbreak: 0,
            read_method: ReadMethod::M12,
            params,
            unscrambling: true,
            calibration: FastCalibration::new(),
        })
    }

    /// Sets the read method and the parameters of its default sector counts.
    pub fn set_read_method(&mut self, method: ReadMethod) -> (r: Result<()>)
        ensures
            r is Ok,
            final(self).read_method == method,
            final(self).params == params_of(method_default_sec(method), method_default_sec(method)),
            final(self).drive == old(self).drive,
            final(self).cache == old(self).cache,
            final(self).unscrambler == old(self).unscrambler,
            final(self).disc_type == old(self).disc_type,
            final(self).layerbreak == old(self).layerbreak,
            final(self).sectors_no == old(self).sectors_no,
            final(self).unscrambling == old(self).unscrambling,
            final(self).calibration == old(self).calibration,
            old(self).wf() ==> final(self).wf(),
    {
        proof {
            let m = method_default_sec(method);
            lemma_extra_reads_le_15(m);
            assert(m == 16 || m == 27);
            assert(m * (crate::read::extra_reads(m) + 1) <= 27 * 16) by (nonlinear_arith)
                requires
                    m <= 27,
                    0 <= crate::read::extra_reads(m) <= 15,
            ;
        }
        self.read_method = method;
        match compute_params(method, None, None) {
            Ok(p) => {
                self.params = p;
                Ok(())
            },
            Err(e) => Err(e),
        }
    }

    /// Turns unscrambling on or off and selects the unscrambler's layout
    /// from the disc type (DVD or Nintendo).
    pub fn set_unscrambling(&mut self, on: bool)
        ensures
            final(self).unscrambling == on,
            final(self).unscrambler@.disctype == if old(self).disc_type == DiscType::Dvd { DISCTYPE_DVD } else { DISCTYPE_NINTENDO },
            final(self).unscrambler@.slots == old(self).unscrambler@.slots,
            final(self).unscrambler@.bruteforce == old(self).unscrambler@.bruteforce,
            final(self).drive == old(self).drive,
            final(self).cache == old(self).cache,
            final(self).disc_type == old(self).disc_type,
            final(self).layerbreak == old(self).layerbreak,
            final(self).sectors_no == old(self).sectors_no,
            final(self).read_method == old(self).read_method,
            final(self).params == old(self).params,
            final(self).calibration == old(self).calibration,
            old(self).wf() ==> final(self).wf(),
    {
        self.unscrambling = on;
        let t = if self.disc_type == DiscType::Dvd {
            DISCTYPE_DVD
        } else {
            DISCTYPE_NINTENDO
        };
        self.unscrambler.set_disctype(t);
    }

    /// Sets up the reader for a disc of the given geometry (type, number of
    /// sectors and layer break; the number of sectors the user gave, if any,
    /// takes the place of the geometry's), turns unscrambling on and selects
    /// the read method (the one asked for if it exists, else the drive's
    /// default, else 12) with its sector counts (those the user gave, else
    /// the method's defaults). Returns the method; an error for sector
    /// counts that `params_for` refuses.
    pub fn configure(
        &mut self,
        geometry: (DiscType, u32, u32),
        sectors: Option<u32>,
        asked: Option<i32>,
        sec_disc: Option<u32>,
        sec_mem: Option<u32>,
    ) -> (r: Result<ReadMethod>)
        requires
            old(self).wf(),
        ensures
            final(self).wf(),
            final(self).drive == old(self).drive,
            final(self).cache == old(self).cache,
            final(self).calibration == old(self).calibration,
            final(self).disc_type == geometry.0,
            final(self).sectors_no == match sectors {
                Some(n) => n,
                None => geometry.1,
            },
            final(self).layerbreak == geometry.2,
            final(self).unscrambling,
            final(self).unscrambler@.disctype == if geometry.0 == DiscType::Dvd { DISCTYPE_DVD } else { DISCTYPE_NINTENDO },
            final(self).unscrambler@.bruteforce == old(self).unscrambler@.bruteforce,
            ({
                let m = crate::read::selected_method(asked, old(self).drive.def_method);
                let d = match sec_disc {
                    Some(v) => v,
                    None => method_default_sec(m),
                };
                let k = match sec_mem {
                    Some(v) => v,
                    None => method_default_sec(m),
                };
                &&& final(self).read_method == m
                &&& (r is Ok <==> k != 0 && k * (crate::read::extra_reads(k) + 1) <= u32::MAX)
                &&& r matches Ok(x) ==> x == m && final(self).params == params_of(d, k)
                &&& r matches Err(e) ==> e is InvalidArgument
            }),
    {
        self.disc_type = geometry.0;
        self.sectors_no = match sectors {
            Some(n) => n,
            None => geometry.1,
        };
        self.layerbreak = geometry.2;
        self.set_unscrambling(true);
        let method = crate::read::select_method(asked, self.drive.def_method);
        match self.set_read_method(method) {
            Ok(()) => {},
            Err(e) => return Err(e),
        }
        if sec_disc.is_some() || sec_mem.is_some() {
            match crate::read::params_for(method, sec_disc, sec_mem) {
                Ok(p) => {
                    self.params = p;
                },
                Err(e) => return Err(e),
            }
        } else {
            proof {
                let m = method_default_sec(method);
                lemma_extra_reads_le_15(m);
                assert(m == 16 || m == 27);
                assert(m * (crate::read::extra_reads(m) + 1) <= 27 * 16) by (nonlinear_arith)
                    requires
                        m <= 27,
                        0 <= crate::read::extra_reads(m) <= 15,
                ;
            }
        }
        Ok(method)
    }

    /// The unscrambled data and raw frames of the block of `sector_no`, if
    /// it was read into the cache.
    pub fn sector(&self, sector_no: u32) -> (r: Option<(&[u8; 32768], &[u8; 33024])>)
        requires
            self.wf(),
        ensures
            match cached(self.cache@, sector_no / 16) {
                Some((d, w)) => r matches Some((rd, rw)) && rd@ == d && rw@ == w,
                None => r is None,
            },
    {
        self.cache.lookup(sector_no / 16)
    }

    /// Whether `lba` lies on the second layer of a dual-layer Wii disc.
    fn is_layer2(&self, lba: u32) -> (r: bool)
        ensures
            r == (self.layerbreak > 0 && self.disc_type == DiscType::WiiDl && lba >= self.layerbreak),
    {
        self.layerbreak > 0 && self.disc_type == DiscType::WiiDl && lba >= self.layerbreak
    }

    /// The LBA of the first block of the second layer.
    fn layer_start_lba(&self) -> (r: u32)
        ensures
            r == (self.layerbreak / 16) * 16,
    {
        (self.layerbreak / 16) * 16
    }

    /// Fetches the host data `rd` and the raw frames `rawbuf` of block `blk`:
    /// two streaming READs then one E7 dump of the block, tried up to five
    /// times.
    fn fetch_raw(&mut self, blk: u32, rd: &mut [u8; 32768], rawbuf: &mut [u8; 33024]) -> (r: Result<()>)
        requires
            blk <= 0x0FFF_FFFF,
        ensures
            same_settings(final(self).drive, old(self).drive),
            r is Ok ==> ends_with_raw_read(final(self).drive.answers@, old(self).drive.memdump_kind, (blk * 16) as u32),
            r is Ok ==> final(self).drive.answers@.last().reply == final(rawbuf)@,
            final(self).unscrambler == old(self).unscrambler,
            final(self).cache == old(self).cache,
            final(self).calibration == old(self).calibration,
            final(self).disc_type == old(self).disc_type,
            final(self).sectors_no == old(self).sectors_no,
            final(self).layerbreak == old(self).layerbreak,
            final(self).read_method == old(self).read_method,
            final(self).params == old(self).params,
            final(self).unscrambling == old(self).unscrambling,
    {
        let lba = blk * 16;
        let mut attempt: u32 = 0;
        while attempt < 5
            invariant
                blk <= 0x0FFF_FFFF,
                lba == blk * 16,
                same_settings(self.drive, old(self).drive),
                self.unscrambler == old(self).unscrambler,
                self.cache == old(self).cache,
                self.calibration == old(self).calibration,
                self.disc_type == old(self).disc_type,
                self.sectors_no == old(self).sectors_no,
                self.layerbreak == old(self).layerbreak,
                self.read_method == old(self).read_method,
                self.params == old(self).params,
                self.unscrambling == old(self).unscrambling,
            decreases 5 - attempt,
        {
            attempt = attempt + 1;
            if self.drive.read_sector_streaming_discard(lba).is_err() {
                continue;
            }
            let ghost a0 = self.drive.answers@;
            if self.drive.read_sector_streaming(lba, rd).is_err() {
                continue;
            }
            assert(self.drive.answers@.drop_last().last() == a0.last());
            let ghost a1 = self.drive.answers@;
            if self.drive.dump_memory(0, rawbuf).is_err() {
                continue;
            }
            proof {
                let a = self.drive.answers@;
                assert(a[a.len() - 2] == a1.last());
                assert(a[a.len() - 3] == a1.drop_last().last());
            }
            return Ok(());
        }
        Err(Error::Other(String::from_str("could not fetch the raw frames of a block")))
    }

    /// Reads block `blk` raw: its host data into `rd`, its raw frames into
    /// `rawout`, and the raw frames unscrambled into `p`.
    fn read_raw_block(
        &mut self,
        blk: u32,
        rd: &mut [u8; 32768],
        rawout: &mut [u8; 33024],
        p: &mut [u8; 32768],
    ) -> (r: Result<()>)
        requires
            blk <= 0x0FFF_FFFF,
        ensures
            same_settings(final(self).drive, old(self).drive),
            final(self).unscrambler@.disctype == old(self).unscrambler@.disctype,
            final(self).unscrambler@.bruteforce == old(self).unscrambler@.bruteforce,
            final(self).cache == old(self).cache,
            final(self).calibration == old(self).calibration,
            final(self).disc_type == old(self).disc_type,
            final(self).sectors_no == old(self).sectors_no,
            final(self).layerbreak == old(self).layerbreak,
            final(self).read_method == old(self).read_method,
            final(self).params == old(self).params,
            final(self).unscrambling == old(self).unscrambling,
            r is Ok ==> block_unscrambles(old(self).unscrambler@.disctype, final(rawout)@, final(p)@),
            r is Ok ==> ends_with_raw_read(final(self).drive.answers@, old(self).drive.memdump_kind, (blk * 16) as u32),
            r is Ok ==> final(self).drive.answers@.last().reply == final(rawout)@,
    {
        let mut rawbuf = [0u8; 33024];
        match self.fetch_raw(blk, rd, &mut rawbuf) {
            Ok(()) => {},
            Err(e) => return Err(e),
        }
        *rawout = rawbuf;
        let lba = blk * 16;
        let ghost c = crate::unscrambler::seed_choice(self.unscrambler@, lba, rawbuf@);
        let ghost d = self.unscrambler@.disctype;
        match self.unscrambler.unscramble_16sectors(lba, &mut rawbuf, p) {
            Ok(_) => {
                proof {
                    let seed = crate::unscrambler::chosen_seed(c)->Some_0;
                    assert(seed_unscrambles(d, rawout@, p@, seed));
                }
                Ok(())
            },
            Err(_) => Err(Error::Other(String::from_str("could not unscramble a raw block"))),
        }
    }

    /// Calibrates the method 11 corrections on the reference blocks 16..32
    /// of the first layer.
    fn calibrate11(&mut self) -> (r: Result<()>)
        requires
            old(self).wf(),
        ensures
            final(self).wf(),
            same_disc_settings(*final(self), *old(self)),
            final(self).cache == old(self).cache,
            final(self).calibration.ready11_layer2() == old(self).calibration.ready11_layer2(),
            final(self).calibration.ready12() == old(self).calibration.ready12(),
            final(self).calibration.ready12_layer2() == old(self).calibration.ready12_layer2(),
            final(self).calibration.layer2_known() == old(self).calibration.layer2_known(),
            old(self).calibration.ready11() ==> r is Ok && final(self).calibration == old(self).calibration,
            r is Ok ==> final(self).calibration.ready11(),
    {
        if self.calibration.fast_ready {
            return Ok(());
        }
        let mut m: usize = 0;
        while m < 16
            invariant
                m <= 16,
                self.wf(),
                same_disc_settings(*self, *old(self)),
                self.calibration.ready11_layer2() == old(self).calibration.ready11_layer2(),
                self.calibration.ready12() == old(self).calibration.ready12(),
                self.calibration.ready12_layer2() == old(self).calibration.ready12_layer2(),
                self.calibration.layer2_known() == old(self).calibration.layer2_known(),
                self.cache == old(self).cache,
                !old(self).calibration.ready11(),
                self.calibration.ready11() == old(self).calibration.ready11(),
            decreases 16 - m,
        {
            let mut rd = [0u8; 32768];
            let mut rawout = [0u8; 33024];
            let mut p = [0u8; 32768];
            if self.read_raw_block(16 + m as u32, &mut rd, &mut rawout, &mut p).is_err() {
                return Err(Error::Other(String::from_str("method 11 calibration failed")));
            }
            let row = calibration_correction(&rd, &p);
            self.calibration.fast_corr.set(m, row);
            m = m + 1;
        }
        self.calibration.fast_ready = true;
        Ok(())
    }

    /// The first block of the second layer, and the offset of its sector
    /// numbers, read from the raw frame of that block.
    fn detect_layer2(&mut self) -> (r: Result<()>)
        requires
            old(self).wf(),
        ensures
            final(self).wf(),
            same_disc_settings(*final(self), *old(self)),
            final(self).cache == old(self).cache,
            final(self).calibration.ready11() == old(self).calibration.ready11(),
            final(self).calibration.ready11_layer2() == old(self).calibration.ready11_layer2(),
            final(self).calibration.ready12() == old(self).calibration.ready12(),
            final(self).calibration.ready12_layer2() == old(self).calibration.ready12_layer2(),
            old(self).calibration.layer2_known() ==> r is Ok && final(self).calibration == old(self).calibration,
            !old(self).calibration.layer2_known() && (old(self).layerbreak / 16) * 16 == 0 ==> r is Err,
            r is Ok ==> final(self).calibration.layer2_known(),
            r is Err ==> final(self).calibration == old(self).calibration,
    {
        if self.calibration.layer2_ready {
            return Ok(());
        }
        let start = self.layer_start_lba();
        if self.layerbreak == 0 || start == 0 {
            return Err(Error::Other(String::from_str("a single-layer disc has no second layer")));
        }
        let mut rd = [0u8; 32768];
        let mut rawbuf = [0u8; 33024];
        match self.fetch_raw(start / 16, &mut rd, &mut rawbuf) {
            Ok(()) => {},
            Err(e) => return Err(e),
        }
        let sn = ((rawbuf[1] as u32) << 16u32) | ((rawbuf[2] as u32) << 8u32) | (rawbuf[3] as u32);
        self.calibration.layer_sn_offset2 = sn.wrapping_sub(start);
        self.calibration.layer2_ready = true;
        Ok(())
    }

    /// The first reference block of the second layer: 16 blocks after its
    /// first block; an error if the second layer starts too high.
    fn layer2_reference(&self) -> (r: Result<u32>)
        ensures
            r matches Ok(b) ==> b == self.layerbreak / 16 + 16 && b <= 0x0FFF_FFEF,
            r is Ok <==> self.layerbreak / 16 + 16 <= 0x0FFF_FFEF,
    {
        let base_blk = self.layer_start_lba() / 16 + 16;
        if base_blk > 0x0FFF_FFEF {
            return Err(Error::Other(String::from_str("the second layer starts beyond the last block")));
        }
        Ok(base_blk)
    }

    /// Calibrates the method 11 corrections on the reference blocks of the
    /// second layer.
    fn calibrate11_layer2(&mut self) -> (r: Result<()>)
        requires
            old(self).wf(),
        ensures
            final(self).wf(),
            same_disc_settings(*final(self), *old(self)),
            final(self).cache == old(self).cache,
            final(self).calibration.ready11() == old(self).calibration.ready11(),
            final(self).calibration.ready12() == old(self).calibration.ready12(),
            final(self).calibration.ready12_layer2() == old(self).calibration.ready12_layer2(),
            old(self).calibration.ready11_layer2() ==> r is Ok && final(self).calibration == old(self).calibration,
            r is Ok ==> final(self).calibration.ready11_layer2() && final(self).calibration.layer2_known(),
            !old(self).calibration.ready11_layer2() && !old(self).calibration.layer2_known() && (old(self).layerbreak / 16) * 16 == 0 ==> r is Err,
            !old(self).calibration.ready11_layer2() && old(self).layerbreak / 16 + 16 > 0x0FFF_FFEF ==> r is Err,
    {
        if self.calibration.fast_ready2 {
            return Ok(());
        }
        match self.detect_layer2() {
            Ok(()) => {},
            Err(e) => return Err(e),
        }
        let base_blk = match self.layer2_reference() {
            Ok(b) => b,
            Err(e) => return Err(e),
        };
        let mut m: usize = 0;
        while m < 16
            invariant
                m <= 16,
                base_blk <= 0x0FFF_FFEF,
                self.wf(),
                same_disc_settings(*self, *old(self)),
                self.calibration.ready11() == old(self).calibration.ready11(),
                self.calibration.ready12() == old(self).calibration.ready12(),
                self.calibration.ready12_layer2() == old(self).calibration.ready12_layer2(),
                self.calibration.layer2_known(),
                self.cache == old(self).cache,
                !old(self).calibration.ready11_layer2(),
                self.calibration.ready11_layer2() == old(self).calibration.ready11_layer2(),
            decreases 16 - m,
        {
            let mut rd = [0u8; 32768];
            let mut rawout = [0u8; 33024];
            let mut p = [0u8; 32768];
            if self.read_raw_block(base_blk + m as u32, &mut rd, &mut rawout, &mut p).is_err() {
                return Err(Error::Other(String::from_str("method 11 calibration of the second layer failed")));
            }
            let row = calibration_correction(&rd, &p);
            self.calibration.fast_corr2.set(m, row);
            m = m + 1;
        }
        self.calibration.fast_ready2 = true;
        Ok(())
    }

    /// Calibrates the method 12 drive streams on the reference blocks 16..32
    /// of the first layer.
    fn calibrate12(&mut self) -> (r: Result<()>)
        requires
            old(self).wf(),
        ensures
            final(self).wf(),
            same_disc_settings(*final(self), *old(self)),
            final(self).cache == old(self).cache,
            final(self).calibration.ready11() == old(self).calibration.ready11(),
            final(self).calibration.ready11_layer2() == old(self).calibration.ready11_layer2(),
            final(self).calibration.ready12_layer2() == old(self).calibration.ready12_layer2(),
            final(self).calibration.layer2_known() == old(self).calibration.layer2_known(),
            old(self).calibration.ready12() ==> r is Ok && final(self).calibration == old(self).calibration,
            r is Ok ==> final(self).calibration.ready12(),
    {
        if self.calibration.fast12_ready {
            return Ok(());
        }
        let mut m: usize = 0;
        while m < 16
            invariant
                m <= 16,
                self.wf(),
                same_disc_settings(*self, *old(self)),
                self.calibration.ready11() == old(self).calibration.ready11(),
                self.calibration.ready11_layer2() == old(self).calibration.ready11_layer2(),
                self.calibration.ready12_layer2() == old(self).calibration.ready12_layer2(),
                self.calibration.layer2_known() == old(self).calibration.layer2_known(),
                self.cache == old(self).cache,
                !old(self).calibration.ready12(),
                self.calibration.ready12() == old(self).calibration.ready12(),
            decreases 16 - m,
        {
            let mut rd = [0u8; 32768];
            let mut rawb = [0u8; 33024];
            let mut p = [0u8; 32768];
            if self.read_raw_block(16 + m as u32, &mut rd, &mut rawb, &mut p).is_err() {
                return Err(Error::Other(String::from_str("method 12 calibration failed")));
            }
            let row = calibration_drive_stream(&rd, &rawb);
            self.calibration.drive_cipher12.set(m, row);
            m = m + 1;
        }
        self.calibration.fast12_ready = true;
        Ok(())
    }

    /// Calibrates the method 12 drive streams on the reference blocks of the
    /// second layer.
    fn calibrate12_layer2(&mut self) -> (r: Result<()>)
        requires
            old(self).wf(),
        ensures
            final(self).wf(),
            same_disc_settings(*final(self), *old(self)),
            final(self).cache == old(self).cache,
            final(self).calibration.ready11() == old(self).calibration.ready11(),
            final(self).calibration.ready11_layer2() == old(self).calibration.ready11_layer2(),
            final(self).calibration.ready12() == old(self).calibration.ready12(),
            old(self).calibration.ready12_layer2() ==> r is Ok && final(self).calibration == old(self).calibration,
            r is Ok ==> final(self).calibration.ready12_layer2() && final(self).calibration.layer2_known(),
            !old(self).calibration.ready12_layer2() && !old(self).calibration.layer2_known() && (old(self).layerbreak / 16) * 16 == 0 ==> r is Err,
            !old(self).calibration.ready12_layer2() && old(self).layerbreak / 16 + 16 > 0x0FFF_FFEF ==> r is Err,
    {
        if self.calibration.fast12_ready2 {
            return Ok(());
        }
        match self.detect_layer2() {
            Ok(()) => {},
            Err(e) => return Err(e),
        }
        let base_blk = match self.layer2_reference() {
            Ok(b) => b,
            Err(e) => return Err(e),
        };
        let mut m: usize = 0;
        while m < 16
            invariant
                m <= 16,
                base_blk <= 0x0FFF_FFEF,
                self.wf(),
                same_disc_settings(*self, *old(self)),
                self.calibration.ready11() == old(self).calibration.ready11(),
                self.calibration.ready11_layer2() == old(self).calibration.ready11_layer2(),
                self.calibration.ready12() == old(self).calibration.ready12(),
                self.calibration.layer2_known(),
                self.cache == old(self).cache,
                !old(self).calibration.ready12_layer2(),
                self.calibration.ready12_layer2() == old(self).calibration.ready12_layer2(),
            decreases 16 - m,
        {
            let mut rd = [0u8; 32768];
            let mut rawb = [0u8; 33024];
            let mut p = [0u8; 32768];
            if self.read_raw_block(base_blk + m as u32, &mut rd, &mut rawb, &mut p).is_err() {
                return Err(Error::Other(String::from_str("method 12 calibration of the second layer failed")));
            }
            let row = calibration_drive_stream(&rd, &rawb);
            self.calibration.drive_cipher12_2.set(m, row);
            m = m + 1;
        }
        self.calibration.fast12_ready2 = true;
        Ok(())
    }

    /// Reads block `blk` with method 11 into the cache. Block 0 and the first
    /// block of the second layer are read raw; any other block is read the
    /// fast way (up to five tries, each checking the sector number of every
    /// frame), and raw if no try succeeds.
    pub fn read_block_11(&mut self, blk: u32) -> (r: Result<()>)
        requires
            old(self).wf(),
            blk <= 0x0FFF_FFFF,
        ensures
            final(self).wf(),
            same_disc_settings(*final(self), *old(self)),
            r is Ok ==> ({
                let sl = slot_of(old(self).cache@.len(), blk);
                let e = final(self).cache@[sl];
                &&& final(self).cache@ == old(self).cache@.update(sl, e)
                &&& e.map == Some(blk)
                &&& e.raw == layout_raw(old(self).cache@[sl].raw, e.data, raw_data_offset(old(self).disc_type))
                &&& read11_evidence(*old(self), *final(self), blk, e)
            }),
            r is Err ==> final(self).cache@ == old(self).cache@,
    {
        let lba = blk * 16;
        let layer2 = self.is_layer2(lba);
        let is_dvd = self.disc_type == DiscType::Dvd;
        let ghost kind = self.drive.memdump_kind;
        let mut out = [0u8; 32768];
        if blk == 0 || (layer2 && lba == self.layer_start_lba()) {
            let mut rd = [0u8; 32768];
            let mut rawout = [0u8; 33024];
            match self.read_raw_block(blk, &mut rd, &mut rawout, &mut out) {
                Ok(()) => {},
                Err(e) => return Err(e),
            }
            self.cache.add_block(blk, &out, is_dvd);
            return Ok(());
        }
        if layer2 {
            match self.calibrate11_layer2() {
                Ok(()) => {},
                Err(e) => return Err(e),
            }
        } else {
            match self.calibrate11() {
                Ok(()) => {},
                Err(e) => return Err(e),
            }
        }
        let m = (blk % 16) as usize;
        let corr = if layer2 {
            copy_row(&self.calibration.fast_corr2[m])
        } else {
            copy_row(&self.calibration.fast_corr[m])
        };
        let sn_off = if layer2 {
            self.calibration.layer_sn_offset2
        } else {
            SN_OFFSET_LAYER1
        };
        let ghost cal = self.calibration;
        assert(corr@ == cal.corr_row(layer2, m as int));
        let mut retry: u32 = 0;
        while retry < 5
            invariant
                self.wf(),
                same_disc_settings(*self, *old(self)),
                self.cache == old(self).cache,
                self.calibration == cal,
                corr@ == cal.corr_row(layer2, m as int),
                corr@.len() == 2042,
                sn_off == sn_offset(*self, layer2),
                layer2 == on_layer2(*old(self), lba),
                kind == self.drive.memdump_kind,
                m == blk % 16,
                !read_raw_only(*old(self), blk),
                is_dvd == (old(self).disc_type == DiscType::Dvd),
                blk <= 0x0FFF_FFFF,
                lba == blk * 16,
            decreases 5 - retry,
        {
            retry = retry + 1;
            let mut rd = [0u8; 32768];
            let (hs, _) = match read_fast_replies(&mut self.drive, lba, sn_off, false, &mut rd) {
                Some(x) => x,
                None => {
                    continue;
                },
            };
            let ghost seg = last_answers(self.drive.answers@, 18);
            let ghost target = fast11_data(heads_of(seg, 1), seg[1].reply, corr@);
            let mut k: usize = 0;
            while k < 16
                invariant
                    k <= 16,
                    hs@.len() == 16,
                    corr@.len() == 2042,
                    rd@ == seg[1].reply,
                    forall|j: int| 0 <= j < 16 ==> (#[trigger] hs@[j])@ == head_at(seg, 1, j).reply,
                    target == fast11_data(heads_of(seg, 1), seg[1].reply, corr@),
                    forall|q: int| 0 <= q < k * 2048 ==> #[trigger] out@[q] == target[q],
                decreases 16 - k,
            {
                let ghost before = out@;
                fast11_sector(&mut out, k, &hs[k], &rd, &corr);
                proof {
                    assert forall|q: int| 0 <= q < (k + 1) * 2048 implies #[trigger] out@[q] == target[q] by {
                        if q >= k * 2048 {
                            lemma_in_piece(q, k as int, 2048);
                            assert(heads_of(seg, 1)[k as int] == hs@[k as int]@);
                        } else {
                            assert(out@[q] == before[q]);
                        }
                    }
                }
                k = k + 1;
            }
            assert(out@ =~= target);
            self.cache.add_block(blk, &out, is_dvd);
            return Ok(());
        }
        let mut rd = [0u8; 32768];
        let mut rawout = [0u8; 33024];
        match self.read_raw_block(blk, &mut rd, &mut rawout, &mut out) {
            Ok(()) => {},
            Err(e) => return Err(e),
        }
        self.cache.add_block(blk, &out, is_dvd);
        Ok(())
    }

    /// Reads block `blk` with method 12 into the cache, with its true raw
    /// frames, after checking the EDC of every sector. Block 0 and the first
    /// block of the second layer are read raw; any other block is read the
    /// fast way (up to five tries, each checking the sector number of every
    /// frame), and raw if no try gives frames that unscramble.
    pub fn read_block_12(&mut self, blk: u32) -> (r: Result<()>)
        requires
            old(self).wf(),
            blk <= 0x0FFF_FFFF,
        ensures
            final(self).wf(),
            same_disc_settings(*final(self), *old(self)),
            r is Ok ==> ({
                let sl = slot_of(old(self).cache@.len(), blk);
                let e = final(self).cache@[sl];
                &&& final(self).cache@ == old(self).cache@.update(sl, e)
                &&& e.map == Some(blk)
                &&& block_unscrambles(old(self).unscrambler@.disctype, e.raw, e.data)
                &&& read12_evidence(*old(self), *final(self), blk, e)
            }),
            r is Err ==> final(self).cache@ == old(self).cache@,
    {
        let lba = blk * 16;
        let layer2 = self.is_layer2(lba);
        let ghost kind = self.drive.memdump_kind;
        let mut out = [0u8; 32768];
        if blk == 0 || (layer2 && lba == self.layer_start_lba()) {
            let mut rd = [0u8; 32768];
            let mut rawtrue = [0u8; 33024];
            match self.read_raw_block(blk, &mut rd, &mut rawtrue, &mut out) {
                Ok(()) => {},
                Err(e) => return Err(e),
            }
            self.cache.add_block_raw(blk, &out, &rawtrue);
            return Ok(());
        }
        if layer2 {
            match self.calibrate12_layer2() {
                Ok(()) => {},
                Err(e) => return Err(e),
            }
        } else {
            match self.calibrate12() {
                Ok(()) => {},
                Err(e) => return Err(e),
            }
        }
        let m = (blk % 16) as usize;
        let stream = if layer2 {
            copy_row(&self.calibration.drive_cipher12_2[m])
        } else {
            copy_row(&self.calibration.drive_cipher12[m])
        };
        let sn_off = if layer2 {
            self.calibration.layer_sn_offset2
        } else {
            SN_OFFSET_LAYER1
        };
        let ghost cal = self.calibration;
        assert(stream@ == cal.stream_row(layer2, m as int));
        let mut retry: u32 = 0;
        while retry < 5
            invariant
                self.wf(),
                same_disc_settings(*self, *old(self)),
                self.cache == old(self).cache,
                self.calibration == cal,
                stream@ == cal.stream_row(layer2, m as int),
                stream@.len() == 2048,
                sn_off == sn_offset(*self, layer2),
                layer2 == on_layer2(*old(self), lba),
                kind == self.drive.memdump_kind,
                m == blk % 16,
                !read_raw_only(*old(self), blk),
                blk <= 0x0FFF_FFFF,
                lba == blk * 16,
            decreases 5 - retry,
        {
            retry = retry + 1;
            let mut rd = [0u8; 32768];
            let (hs, ts) = match read_fast_replies(&mut self.drive, lba, sn_off, true, &mut rd) {
                Some(x) => x,
                None => {
                    continue;
                },
            };
            let ghost seg = last_answers(self.drive.answers@, 34);
            let ghost target = fast12_raw(heads_of(seg, 2), tails_of(seg), seg[1].reply, stream@);
            let mut rawb = [0u8; 33024];
            let mut k: usize = 0;
            while k < 16
                invariant
                    k <= 16,
                    hs@.len() == 16,
                    ts@.len() == 16,
                    stream@.len() == 2048,
                    rd@ == seg[1].reply,
                    forall|j: int| 0 <= j < 16 ==> (#[trigger] hs@[j])@ == head_at(seg, 2, j).reply,
                    forall|j: int| 0 <= j < 16 ==> (#[trigger] ts@[j])@ == tail_at(seg, j).reply,
                    target == fast12_raw(heads_of(seg, 2), tails_of(seg), seg[1].reply, stream@),
                    forall|q: int| 0 <= q < k * 2064 ==> #[trigger] rawb@[q] == target[q],
                decreases 16 - k,
            {
                let ghost before = rawb@;
                fast12_frame(&mut rawb, k, &hs[k], &ts[k], &rd, &stream);
                proof {
                    assert forall|q: int| 0 <= q < (k + 1) * 2064 implies #[trigger] rawb@[q] == target[q] by {
                        if q >= k * 2064 {
                            lemma_in_piece(q, k as int, 2064);
                            assert(heads_of(seg, 2)[k as int] == hs@[k as int]@);
                            assert(tails_of(seg)[k as int] == ts@[k as int]@);
                        } else {
                            assert(rawb@[q] == before[q]);
                        }
                    }
                }
                k = k + 1;
            }
            assert(rawb@ =~= target);
            let rawtrue = rawb;
            let ghost c = crate::unscrambler::seed_choice(self.unscrambler@, lba, rawb@);
            let ghost d = self.unscrambler@.disctype;
            match self.unscrambler.unscramble_16sectors(lba, &mut rawb, &mut out) {
                Ok(_) => {
                    proof {
                        let seed = crate::unscrambler::chosen_seed(c)->Some_0;
                        assert(seed_unscrambles(d, rawtrue@, out@, seed));
                    }
                    self.cache.add_block_raw(blk, &out, &rawtrue);
                    return Ok(());
                },
                Err(_) => {
                    continue;
                },
            }
        }
        let mut rd = [0u8; 32768];
        let mut rawtrue = [0u8; 33024];
        match self.read_raw_block(blk, &mut rd, &mut rawtrue, &mut out) {
            Ok(()) => {},
            Err(e) => return Err(e),
        }
        self.cache.add_block_raw(blk, &out, &rawtrue);
        Ok(())
    }

    /// Reads the block of `sector_no` into the cache (nothing to do if it is
    /// cached already); the data is then obtained with `sector`. Only the
    /// methods 11 and 12 are implemented. Method 12 caches a block only once
    /// the EDC of each of its sectors checked.
    pub fn read_sector(&mut self, sector_no: u32) -> (r: Result<()>)
        requires
            old(self).wf(),
        ensures
            final(self).wf(),
            same_disc_settings(*final(self), *old(self)),
            ({
                let b = sector_no / 16;
                let sl = slot_of(old(self).cache@.len(), b);
                let e = final(self).cache@[sl];
                &&& cached(old(self).cache@, b) is Some ==> r is Ok && final(self).cache@ == old(self).cache@
                    && final(self).drive == old(self).drive
                &&& (cached(old(self).cache@, b) is None && old(self).read_method != ReadMethod::M11
                    && old(self).read_method != ReadMethod::M12) ==> (r matches Err(er) && er is Unsupported)
                    && final(self).drive == old(self).drive && final(self).cache@ == old(self).cache@
                &&& r is Err ==> final(self).cache@ == old(self).cache@
                &&& r is Ok ==> cached(final(self).cache@, b) is Some
                &&& (r is Ok && cached(old(self).cache@, b) is None) ==> {
                    &&& final(self).cache@ == old(self).cache@.update(sl, e)
                    &&& (old(self).read_method == ReadMethod::M11 ==> e.raw == layout_raw(
                        old(self).cache@[sl].raw,
                        e.data,
                        raw_data_offset(old(self).disc_type),
                    ))
                    &&& (old(self).read_method == ReadMethod::M11 ==> read11_evidence(*old(self), *final(self), b, e))
                    &&& (old(self).read_method == ReadMethod::M12 ==> block_unscrambles(
                        old(self).unscrambler@.disctype,
                        e.raw,
                        e.data,
                    ))
                    &&& (old(self).read_method == ReadMethod::M12 ==> read12_evidence(*old(self), *final(self), b, e))
                }
            }),
    {
        let block = sector_no / 16;
        if self.cache.lookup(block).is_some() {
            return Ok(());
        }
        let r = match self.read_method {
            ReadMethod::M11 => self.read_block_11(block),
            ReadMethod::M12 => self.read_block_12(block),
            other => {
                let mut msg = String::from_str("reading with method ");
                crate::text::push_decimal(&mut msg, other.id() as u64);
                msg.append(" is not implemented");
                Err(Error::Unsupported(msg))
            },
        };
        proof {
            if r is Ok {
                vstd::arithmetic::div_mod::lemma_mod_bound(block as int, old(self).cache@.len() as int);
            }
        }
        r
    }
}

/// The outcome of a READ reports an LBA out of range (ILLEGAL REQUEST,
/// additional sense code 0x21).
pub open spec fn out_of_range(o: ScsiOutcome) -> bool {
    o.failed && o.sense.sense_key == 0x05 && o.sense.asc == 0x21
}

/// Whether the outcome `o` reports an LBA out of range.
pub fn is_out_of_range(o: &ScsiOutcome) -> (r: bool)
    ensures
        r == out_of_range(*o),
{
    o.failed && o.sense.sense_key == 0x05 && o.sense.asc == 0x21
}

/// The LBA read to probe for a GameCube disc: just past its end.
pub const GAMECUBE_PROBE_LBA: u32 = 712980;

/// The LBA read to probe for a single-layer Wii disc: just past its end.
pub const WII_PROBE_LBA: u32 = 2295012;

/// The type, number of sectors and layer break of a disc from the outcomes
/// of the READs past the end of a GameCube disc (`gc`) and of a single-layer
/// Wii disc (`wii`, if it was read) and the layer break the drive reported
/// (if any): a READ refused as out of range gives that type; otherwise the
/// disc is a dual-layer Wii disc.
pub open spec fn type_of_reads(gc: ScsiOutcome, wii: Option<ScsiOutcome>, lb: Option<u32>) -> (DiscType, u32, u32) {
    if out_of_range(gc) {
        (DiscType::GameCube, DISC_GAMECUBE_SECTORS_NO, 0u32)
    } else if wii matches Some(w) && out_of_range(w) {
        (DiscType::Wii, DISC_WII_SECTORS_NO_SL, 0u32)
    } else {
        (DiscType::WiiDl, DISC_WII_SECTORS_NO_DL, match lb { Some(v) => v, None => 0u32 })
    }
}

/// The type, number of sectors and layer break of a disc from the READ
/// outcomes and the reported layer break.
pub fn type_from_reads(gc: &ScsiOutcome, wii: Option<&ScsiOutcome>, lb: Option<u32>) -> (r: (DiscType, u32, u32))
    ensures
        r == type_of_reads(*gc, match wii {
            Some(w) => Some(*w),
            None => None,
        }, lb),
{
    if is_out_of_range(gc) {
        return (DiscType::GameCube, DISC_GAMECUBE_SECTORS_NO, 0);
    }
    match wii {
        Some(w) => if is_out_of_range(w) {
            return (DiscType::Wii, DISC_WII_SECTORS_NO_SL, 0);
        },
        None => {},
    }
    let v = match lb {
        Some(v) => v,
        None => 0,
    };
    (DiscType::WiiDl, DISC_WII_SECTORS_NO_DL, v)
}

/// The value of `o`, 0 for none.
pub open spec fn or_zero(o: Option<u32>) -> u32 {
    match o {
        Some(v) => v,
        None => 0,
    }
}

/// `a` answers a READ(12) of 16 sectors at the probe LBA `lba` (with a
/// 64 KiB buffer).
pub open spec fn probed(a: DeviceAnswer, lba: u32) -> bool {
    &&& a.cdb == mmc::read12_dummy_cdb(lba, 16)
    &&& a.buf_len == 65536
}

/// The result `r` of detecting the type of a disc, given the answers `a` of
/// the drive from position `n0` on: the probe at `GAMECUBE_PROBE_LBA`; if it
/// was not refused as out of range, the probe at `WII_PROBE_LBA`; if that
/// was not refused either, READ DVD STRUCTURE. An error of the device ends
/// the detection with that error; otherwise the result is `type_of_reads`
/// of the probes' outcomes and of the layer break decoded from the last
/// answer.
pub open spec fn detect_outcome(a: Seq<DeviceAnswer>, n0: int, r: Result<(DiscType, u32, u32)>) -> bool {
    &&& a.len() > n0
    &&& probed(a[n0], GAMECUBE_PROBE_LBA)
    &&& match a[n0].result {
        Err(e) => r == Err::<(DiscType, u32, u32), Error>(e) && a.len() == n0 + 1,
        Ok(gc) => if out_of_range(gc) {
            r == Ok::<(DiscType, u32, u32), Error>(type_of_reads(gc, None, None)) && a.len() == n0 + 1
        } else {
            &&& a.len() > n0 + 1
            &&& probed(a[n0 + 1], WII_PROBE_LBA)
            &&& match a[n0 + 1].result {
                Err(e) => r == Err::<(DiscType, u32, u32), Error>(e) && a.len() == n0 + 2,
                Ok(wii) => if out_of_range(wii) {
                    r == Ok::<(DiscType, u32, u32), Error>(type_of_reads(gc, Some(wii), None)) && a.len() == n0 + 2
                } else {
                    &&& a.len() == n0 + 3
                    &&& a[n0 + 2].cdb == mmc::read_dvd_structure_cdb()
                    &&& r == Ok::<(DiscType, u32, u32), Error>(type_of_reads(gc, Some(wii), layerbreak_of(a[n0 + 2])))
                },
            }
        },
    }
}

/// Detects the type of the disc from where reading stops: a READ(12) of 16
/// sectors at `GAMECUBE_PROBE_LBA`, then at `WII_PROBE_LBA`, that is refused
/// as out of range gives that type (and no further command is sent);
/// otherwise the disc is a dual-layer Wii disc, with the layer break the
/// drive reports (0 if it reports none). Returns the type, its number of
/// sectors and the layer break.
pub fn detect_type<D: ScsiDevice>(disc: &mut Disc<D>) -> (r: Result<(DiscType, u32, u32)>)
    ensures
        same_disc_settings(*final(disc), *old(disc)),
        final(disc).cache == old(disc).cache,
        final(disc).calibration == old(disc).calibration,
        final(disc).drive.answers@.subrange(0, old(disc).drive.answers@.len() as int) == old(disc).drive.answers@,
        detect_outcome(final(disc).drive.answers@, old(disc).drive.answers@.len() as int, r),
        r matches Ok((t, n, lb)) ==> {
            ||| t == DiscType::GameCube && n == DISC_GAMECUBE_SECTORS_NO && lb == 0
            ||| t == DiscType::Wii && n == DISC_WII_SECTORS_NO_SL && lb == 0
            ||| t == DiscType::WiiDl && n == DISC_WII_SECTORS_NO_DL
        },
{
    let ghost n0 = disc.drive.answers@.len() as int;
    let ghost a0 = disc.drive.answers@;
    let res1 = disc.drive.read_sector_dummy(GAMECUBE_PROBE_LBA, 16);
    let ghost a1 = disc.drive.answers@;
    assert(a1.subrange(0, n0) =~= a0);
    let gc = match res1 {
        Ok(o) => o,
        Err(e) => return Err(e),
    };
    if is_out_of_range(&gc) {
        let x = type_from_reads(&gc, None, None);
        return Ok(x);
    }
    let res2 = disc.drive.read_sector_dummy(WII_PROBE_LBA, 16);
    let ghost a2 = disc.drive.answers@;
    assert(a2[n0] == a1[n0]);
    assert(a2.subrange(0, n0) =~= a0);
    let wii = match res2 {
        Ok(o) => o,
        Err(e) => return Err(e),
    };
    if is_out_of_range(&wii) {
        let x = type_from_reads(&gc, Some(&wii), None);
        return Ok(x);
    }
    let lb = match disc.drive.get_layerbreak() {
        Ok(v) => Some(v),
        Err(_) => None,
    };
    let ghost a3 = disc.drive.answers@;
    assert(a3[n0] == a2[n0]);
    assert(a3[n0 + 1] == a2[n0 + 1]);
    assert(a3.subrange(0, n0) =~= a0);
    let x = type_from_reads(&gc, Some(&wii), lb);
    Ok(x)
}

/// The type, number of sectors and layer break of the disc for the disc
/// type given by the user: 0 GameCube, 1 Wii, 2 dual-layer Wii (with the
/// layer break the drive reports, 0 if it reports none), 3 DVD (with the
/// size and layer break the drive reports, 0 for those it does not);
/// otherwise the type is detected.
pub fn geometry_for_type<D: ScsiDevice>(disc: &mut Disc<D>, disctype: Option<u32>) -> (r: Result<(DiscType, u32, u32)>)
    ensures
        same_disc_settings(*final(disc), *old(disc)),
        final(disc).cache == old(disc).cache,
        final(disc).calibration == old(disc).calibration,
        final(disc).drive.answers@.subrange(0, old(disc).drive.answers@.len() as int) == old(disc).drive.answers@,
        ({
            let a = final(disc).drive.answers@;
            let n0 = old(disc).drive.answers@.len() as int;
            match disctype {
                Some(0u32) => r == Ok::<(DiscType, u32, u32), Error>((DiscType::GameCube, DISC_GAMECUBE_SECTORS_NO, 0u32))
                    && final(disc).drive == old(disc).drive,
                Some(1u32) => r == Ok::<(DiscType, u32, u32), Error>((DiscType::Wii, DISC_WII_SECTORS_NO_SL, 0u32))
                    && final(disc).drive == old(disc).drive,
                Some(2u32) => {
                    &&& a.len() == n0 + 1
                    &&& a[n0].cdb == mmc::read_dvd_structure_cdb()
                    &&& r == Ok::<(DiscType, u32, u32), Error>((DiscType::WiiDl, DISC_WII_SECTORS_NO_DL, or_zero(layerbreak_of(a[n0]))))
                },
                Some(3u32) => {
                    &&& a.len() == n0 + 2
                    &&& a[n0].cdb == mmc::read_capacity_cdb()
                    &&& a[n0 + 1].cdb == mmc::read_dvd_structure_cdb()
                    &&& r == Ok::<(DiscType, u32, u32), Error>((DiscType::Dvd, or_zero(size_of(a[n0])), or_zero(layerbreak_of(a[n0 + 1]))))
                },
                _ => detect_outcome(a, n0, r),
            }
        }),
        r matches Ok((t, n, lb)) ==> {
            ||| t == DiscType::GameCube && n == DISC_GAMECUBE_SECTORS_NO && lb == 0
            ||| t == DiscType::Wii && n == DISC_WII_SECTORS_NO_SL && lb == 0
            ||| t == DiscType::WiiDl && n == DISC_WII_SECTORS_NO_DL
            ||| t == DiscType::Dvd && disctype == Some(3u32)
        },
{
    let ghost n0 = disc.drive.answers@.len() as int;
    let ghost a0 = disc.drive.answers@;
    match disctype {
        Some(0) => {
            assert(disc.drive.answers@.subrange(0, n0) =~= a0);
            Ok((DiscType::GameCube, DISC_GAMECUBE_SECTORS_NO, 0))
        },
        Some(1) => {
            assert(disc.drive.answers@.subrange(0, n0) =~= a0);
            Ok((DiscType::Wii, DISC_WII_SECTORS_NO_SL, 0))
        },
        Some(2) => {
            let lb = match disc.drive.get_layerbreak() {
                Ok(v) => v,
                Err(_) => 0,
            };
            assert(disc.drive.answers@.subrange(0, n0) =~= a0);
            Ok((DiscType::WiiDl, DISC_WII_SECTORS_NO_DL, lb))
        },
        Some(3) => {
            let n = match disc.drive.get_size() {
                Ok(v) => v,
                Err(_) => 0,
            };
            let ghost a1 = disc.drive.answers@;
            let lb = match disc.drive.get_layerbreak() {
                Ok(v) => v,
                Err(_) => 0,
            };
            let ghost a2 = disc.drive.answers@;
            assert(a2[n0] == a1[n0]);
            assert(a2.subrange(0, n0) =~= a0);
            Ok((DiscType::Dvd, n, lb))
        },
        _ => detect_type(disc),
    }
}

} // verus!
