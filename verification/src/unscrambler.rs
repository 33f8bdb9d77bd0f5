//! Unscrambling of GameCube / Wii (and plain DVD) blocks.
//!
//! Every block of 16 raw sectors is scrambled with the stream of one seed.
//! Seeds are found by checking the EDC of the first sector of a block and are
//! kept in a cache of 80 slots: four per phase (block number modulo 16),
//! with slot 64 a terminator. A search that finds no free slot in its phase
//! runs on into the slots of the next phase, as the C implementation does.

use vstd::prelude::*;
use crate::bytes::{be_u32, lemma_record_pos, lemma_record_bounds};
use crate::ecma267::{EdcTable, edc_spec, lfsr_fill, lfsr_stream, lemma_edc_push};
use crate::error::{Error, Result};

verus! {

/// Number of cached seeds per phase.
pub const MAX_SEEDS: usize = 4;

/// Number of phases (block number modulo 16).
pub const PHASES: usize = 16;

/// Number of cache slots (`(MAX_SEEDS + 1) * PHASES`).
pub const SLOT_COUNT: usize = 80;

/// Index of the terminator slot (`MAX_SEEDS * PHASES`).
pub const TERMINATOR_SLOT: usize = 64;

/// Length of the part of a raw sector that the EDC covers.
pub const EDC_LENGTH: usize = 2060;

/// Seeds below this bound are tried by the brute-force search.
pub const SEED_BRUTEFORCE_LIMIT: u16 = 0x7FFF;

/// Disc type selecting the Nintendo layout (user data at offset 6).
pub const DISCTYPE_NINTENDO: u8 = 0;

/// Disc type selecting the DVD layout (user data at offset 12).
pub const DISCTYPE_DVD: u8 = 3;

/// Byte `i` (below 2060) of the raw sector at offset `off` of `raw` with the
/// stream `cipher` removed from its data field (bytes 12..2060).
pub open spec fn descrambled_byte(raw: Seq<u8>, off: int, cipher: Seq<u8>, i: int) -> u8 {
    if 12 <= i {
        raw[off + i] ^ cipher[i - 12]
    } else {
        raw[off + i]
    }
}

/// The first 2060 bytes of the raw sector at `off`, descrambled with `cipher`.
pub open spec fn descrambled_frame(raw: Seq<u8>, off: int, cipher: Seq<u8>) -> Seq<u8> {
    Seq::new(2060, |i: int| descrambled_byte(raw, off, cipher, i))
}

/// The EDC stored at the end of the raw sector at `off`.
pub open spec fn stored_edc(raw: Seq<u8>, off: int) -> u32 {
    be_u32(raw[off + 2060], raw[off + 2061], raw[off + 2062], raw[off + 2063])
}

/// The raw sector at `off` descrambled with `cipher` carries a valid EDC.
pub open spec fn sector_edc_ok(raw: Seq<u8>, off: int, cipher: Seq<u8>) -> bool {
    edc_spec(0, descrambled_frame(raw, off, cipher)) == stored_edc(raw, off)
}

/// `seed` descrambles the first sector of the block `raw` to a valid EDC.
pub open spec fn seed_matches(raw: Seq<u8>, seed: u16) -> bool {
    sector_edc_ok(raw, 0, lfsr_stream(seed, 2048))
}

/// All 16 sectors of `raw` descrambled with `cipher` carry a valid EDC.
pub open spec fn frame_ok(raw: Seq<u8>, cipher: Seq<u8>) -> bool {
    forall|j: int| 0 <= j < 16 ==> #[trigger] sector_edc_ok(raw, j * 2064, cipher)
}

/// Offset inside a raw sector of the 2048 bytes of user data.
pub open spec fn data_offset(disctype: u8) -> int {
    if disctype == DISCTYPE_DVD {
        12
    } else {
        6
    }
}

/// The unscrambled block (16 sectors of 2048 bytes) of the raw block `raw`.
pub open spec fn frame_out(disctype: u8, raw: Seq<u8>, cipher: Seq<u8>) -> Seq<u8> {
    Seq::new(
        32768,
        |k: int| descrambled_byte(raw, (k / 2048) * 2064, cipher, data_offset(disctype) + k % 2048),
    )
}

/// The raw block after unscrambling: with the Nintendo layout the six bytes
/// 2054..2060 of every sector (CPR_MAI) are left descrambled.
pub open spec fn frame_raw_after(disctype: u8, raw: Seq<u8>, cipher: Seq<u8>) -> Seq<u8> {
    Seq::new(
        33024,
        |k: int|
            if disctype != DISCTYPE_DVD && 2054 <= k % 2064 < 2060 {
                raw[k] ^ cipher[k % 2064 - 12]
            } else {
                raw[k]
            },
    )
}

/// The content of one cache slot.
pub enum SlotView {
    /// A free slot.
    Empty,
    /// The terminator: a search stops here.
    Terminator,
    /// A known seed.
    Seed(u16),
}

/// The first slot at or after `idx` where a search for the seed of `raw`
/// stops: a slot that is not a seed, or a seed that matches.
pub open spec fn scan_end(slots: Seq<SlotView>, raw: Seq<u8>, idx: int) -> int
    decreases 80 - idx,
{
    if 0 <= idx < 80 && idx < slots.len() && (slots[idx] matches SlotView::Seed(s) && !seed_matches(raw, s)) {
        scan_end(slots, raw, idx + 1)
    } else {
        idx
    }
}

/// The smallest seed at or above `j` and below the brute-force bound that
/// matches `raw`.
pub open spec fn first_seed_from(raw: Seq<u8>, j: int) -> Option<u16>
    decreases 0x7FFF - j,
{
    if j >= 0x7FFF {
        None
    } else if j >= 0 && seed_matches(raw, j as u16) {
        Some(j as u16)
    } else {
        first_seed_from(raw, j + 1)
    }
}

/// The first slot of the phase of `sector_no`.
pub open spec fn phase_base(sector_no: u32) -> int {
    ((sector_no / 16) % 16) * 4
}

/// The abstract state of an unscrambler.
pub struct UnscramblerView {
    /// The 80 cache slots.
    pub slots: Seq<SlotView>,
    /// Whether unknown seeds are searched by brute force.
    pub bruteforce: bool,
    /// The disc type (layout).
    pub disctype: u8,
}

/// How the seed of a block is obtained.
pub enum SeedChoice {
    /// Found in the cache at the slot.
    Cached(usize, u16),
    /// Found by brute force and stored at the slot.
    Added(usize, u16),
    /// Found by brute force but the search ended on no free slot.
    NoSpace,
    /// No seed was found.
    NotFound,
}

/// How `unscramble_16sectors` obtains the seed of `raw` in state `v`.
pub open spec fn seed_choice(v: UnscramblerView, sector_no: u32, raw: Seq<u8>) -> SeedChoice {
    let e = scan_end(v.slots, raw, phase_base(sector_no));
    if 0 <= e < 80 && e < v.slots.len() && v.slots[e] is Seed {
        SeedChoice::Cached(e as usize, v.slots[e]->Seed_0)
    } else if !v.bruteforce {
        SeedChoice::NotFound
    } else {
        match first_seed_from(raw, 0) {
            None => SeedChoice::NotFound,
            Some(s) => if 0 <= e < 80 && e < v.slots.len() && v.slots[e] is Empty {
                SeedChoice::Added(e as usize, s)
            } else {
                SeedChoice::NoSpace
            },
        }
    }
}

/// The slots after the seed of a block was obtained.
pub open spec fn slots_after(slots: Seq<SlotView>, c: SeedChoice) -> Seq<SlotView> {
    match c {
        SeedChoice::Added(i, s) => slots.update(i as int, SlotView::Seed(s)),
        _ => slots,
    }
}

/// The seed used to descramble, if one was obtained.
pub open spec fn chosen_seed(c: SeedChoice) -> Option<u16> {
    match c {
        SeedChoice::Cached(_, s) => Some(s),
        SeedChoice::Added(_, s) => Some(s),
        _ => None,
    }
}

enum Slot {
    Empty,
    Terminator,
    Seed { seed: u16, cipher: Vec<u8> },
}

impl Slot {
    #[verifier::type_invariant]
    spec fn inv(self) -> bool {
        self matches Slot::Seed { seed, cipher } ==> cipher@ == lfsr_stream(seed, 2048) && seed < SEED_BRUTEFORCE_LIMIT
    }
}

spec fn slot_view(s: Slot) -> SlotView {
    match s {
        Slot::Empty => SlotView::Empty,
        Slot::Terminator => SlotView::Terminator,
        Slot::Seed { seed, .. } => SlotView::Seed(seed),
    }
}

/// The unscrambler: seed cache, brute-force switch and disc layout.
pub struct Unscrambler {
    slots: Vec<Slot>,
    bruteforce_seeds: bool,
    disctype: u8,
    edc: EdcTable,
}

impl View for Unscrambler {
    type V = UnscramblerView;

    closed spec fn view(&self) -> UnscramblerView {
        UnscramblerView {
            slots: self.slots@.map_values(|s: Slot| slot_view(s)),
            bruteforce: self.bruteforce_seeds,
            disctype: self.disctype,
        }
    }
}

/// The initial cache: all slots free but the terminator at slot 64.
pub open spec fn initial_slots() -> Seq<SlotView> {
    Seq::new(80, |i: int| if i == 64 { SlotView::Terminator } else { SlotView::Empty })
}

impl Unscrambler {
    /// A new unscrambler: empty cache, brute force on, Nintendo layout.
    pub fn new() -> (u: Self)
        ensures
            u@.slots == initial_slots(),
            u@.bruteforce,
            u@.disctype == DISCTYPE_NINTENDO,
    {
        let mut slots: Vec<Slot> = Vec::new();
        let mut i: usize = 0;
        while i < SLOT_COUNT
            invariant
                i <= 80,
                slots@.len() == i,
                forall|k: int| 0 <= k < i ==> (k == 64 ==> #[trigger] slots@[k] is Terminator) && (k
                    != 64 ==> slots@[k] is Empty),
            decreases 80 - i,
        {
            if i == TERMINATOR_SLOT {
                slots.push(Slot::Terminator);
            } else {
                slots.push(Slot::Empty);
            }
            i = i + 1;
        }
        let u = Unscrambler {
            slots,
            bruteforce_seeds: true,
            disctype: DISCTYPE_NINTENDO,
            edc: EdcTable::new(),
        };
        assert(u@.slots =~= initial_slots());
        u
    }

    /// Turns the brute-force search for unknown seeds on or off.
    pub fn set_bruteforce(&mut self, b: bool)
        ensures
            final(self)@ == (UnscramblerView { bruteforce: b, ..old(self)@ }),
    {
        self.bruteforce_seeds = b;
    }

    /// Sets the disc type (layout); `DISCTYPE_DVD` selects the DVD layout,
    /// any other value the Nintendo layout.
    pub fn set_disctype(&mut self, disctype: u8)
        ensures
            final(self)@ == (UnscramblerView { disctype: disctype, ..old(self)@ }),
    {
        self.disctype = disctype;
    }

    /// The current disc type.
    pub fn disctype(&self) -> (d: u8)
        ensures
            d == self@.disctype,
    {
        self.disctype
    }

    /// Checks whether `seed` descrambles the first sector of `raw` to a valid EDC.
    fn test_seed(&self, raw: &[u8; 33024], seed: u16) -> (ok: bool)
        ensures
            ok == seed_matches(raw@, seed),
    {
        let cipher = lfsr_fill(seed, 2048);
        self.sector_check(raw, &cipher, 0)
    }

    /// Checks the EDC of sector `j` of `raw` descrambled with `cipher`.
    fn sector_check(&self, raw: &[u8; 33024], cipher: &Vec<u8>, j: usize) -> (ok: bool)
        requires
            j < 16,
            cipher@.len() == 2048,
        ensures
            ok == sector_edc_ok(raw@, j * 2064, cipher@),
    {
        let ro = j * 2064;
        let ghost frame = descrambled_frame(raw@, ro as int, cipher@);
        let mut e: u32 = 0;
        let mut i: usize = 0;
        while i < EDC_LENGTH
            invariant
                i <= 2060,
                j < 16,
                ro == j * 2064,
                cipher@.len() == 2048,
                frame == descrambled_frame(raw@, ro as int, cipher@),
                e == edc_spec(0, frame.subrange(0, i as int)),
            decreases 2060 - i,
        {
            let b = raw[ro + i];
            let d = if i >= 12 {
                b ^ cipher[i - 12]
            } else {
                b
            };
            proof {
                assert(d == frame[i as int]);
                lemma_edc_push(0, frame.subrange(0, i as int), d);
                assert(frame.subrange(0, i as int).push(d) =~= frame.subrange(0, i + 1));
            }
            e = self.edc.step(e, d);
            i = i + 1;
        }
        assert(frame.subrange(0, 2060) =~= frame);
        let correct = ((raw[ro + 2060] as u32) << 24u32) | ((raw[ro + 2061] as u32) << 16u32) | ((
        raw[ro + 2062] as u32) << 8u32) | (raw[ro + 2063] as u32);
        e == correct
    }

    /// Unscrambles sector `j` of `raw` into `out` with `cipher`; with the
    /// Nintendo layout the CPR_MAI bytes of the sector are descrambled in
    /// `raw`. Returns whether the EDC of the sector is valid.
    fn unscramble_sector(
        &self,
        disctype: u8,
        cipher: &Vec<u8>,
        raw: &mut [u8; 33024],
        out: &mut [u8; 32768],
        j: usize,
    ) -> (ok: bool)
        requires
            j < 16,
            cipher@.len() == 2048,
        ensures
            ok == sector_edc_ok(old(raw)@, j * 2064, cipher@),
            forall|k: int|
                0 <= k < 32768 ==> #[trigger] final(out)@[k] == if j * 2048 <= k < j * 2048 + 2048 {
                    descrambled_byte(old(raw)@, j * 2064, cipher@, data_offset(disctype) + (k - j * 2048))
                } else {
                    old(out)@[k]
                },
            forall|k: int|
                0 <= k < 33024 ==> #[trigger] final(raw)@[k] == if disctype != DISCTYPE_DVD && j
                    * 2064 + 2054 <= k < j * 2064 + 2060 {
                    old(raw)@[k] ^ cipher@[k - j * 2064 - 12]
                } else {
                    old(raw)@[k]
                },
    {
        let ghost r0 = raw@;
        let ghost o0 = out@;
        let ro = j * 2064;
        let oo = j * 2048;
        let ghost frame = descrambled_frame(r0, ro as int, cipher@);
        let dvd = disctype == DISCTYPE_DVD;
        let mut e: u32 = 0;
        let mut i: usize = 0;
        while i < EDC_LENGTH
            invariant
                i <= 2060,
                j < 16,
                ro == j * 2064,
                oo == j * 2048,
                dvd == (disctype == DISCTYPE_DVD),
                cipher@.len() == 2048,
                frame == descrambled_frame(r0, ro as int, cipher@),
                e == edc_spec(0, frame.subrange(0, i as int)),
                forall|k: int|
                    0 <= k < 33024 ==> #[trigger] raw@[k] == if !dvd && ro + 2054 <= k < ro + i {
                        r0[k] ^ cipher@[k - ro - 12]
                    } else {
                        r0[k]
                    },
                forall|k: int|
                    0 <= k < 32768 ==> #[trigger] out@[k] == if oo <= k < oo + 2048 && k - oo + data_offset(disctype) < i {
                        descrambled_byte(r0, ro as int, cipher@, data_offset(disctype) + (k - oo))
                    } else {
                        o0[k]
                    },
            decreases 2060 - i,
        {
            let b = raw[ro + i];
            let d = if i >= 12 {
                b ^ cipher[i - 12]
            } else {
                b
            };
            proof {
                assert(b == r0[ro + i]);
                assert(d == frame[i as int]);
                lemma_edc_push(0, frame.subrange(0, i as int), d);
                assert(frame.subrange(0, i as int).push(d) =~= frame.subrange(0, i + 1));
            }
            e = self.edc.step(e, d);
            if dvd {
                if i >= 12 {
                    out[oo + i - 12] = d;
                }
            } else {
                if i >= 6 && i < 2054 {
                    out[oo + i - 6] = d;
                } else if i >= 2054 {
                    raw[ro + i] = d;
                }
            }
            i = i + 1;
        }
        assert(frame.subrange(0, 2060) =~= frame);
        let correct = ((raw[ro + 2060] as u32) << 24u32) | ((raw[ro + 2061] as u32) << 16u32) | ((
        raw[ro + 2062] as u32) << 8u32) | (raw[ro + 2063] as u32);
        e == correct
    }

    /// Unscrambles the 16 sectors of `raw` into `out` with `cipher`.
    /// Returns whether every sector carries a valid EDC.
    fn unscramble_frame(
        &self,
        disctype: u8,
        cipher: &Vec<u8>,
        raw: &mut [u8; 33024],
        out: &mut [u8; 32768],
    ) -> (ok: bool)
        requires
            cipher@.len() == 2048,
        ensures
            ok == frame_ok(old(raw)@, cipher@),
            final(out)@ == frame_out(disctype, old(raw)@, cipher@),
            final(raw)@ == frame_raw_after(disctype, old(raw)@, cipher@),
    {
        let ghost r0 = raw@;
        let ghost o0 = out@;
        let ghost fo = frame_out(disctype, r0, cipher@);
        let ghost fr = frame_raw_after(disctype, r0, cipher@);
        let mut ok = true;
        let mut j: usize = 0;
        while j < 16
            invariant
                j <= 16,
                cipher@.len() == 2048,
                r0.len() == 33024,
                fo == frame_out(disctype, r0, cipher@),
                fr == frame_raw_after(disctype, r0, cipher@),
                ok == (forall|jj: int| 0 <= jj < j ==> #[trigger] sector_edc_ok(r0, jj * 2064, cipher@)),
                forall|k: int| 0 <= k < 32768 ==> #[trigger] out@[k] == if k < j * 2048 { fo[k] } else { o0[k] },
                forall|k: int| 0 <= k < 33024 ==> #[trigger] raw@[k] == if k < j * 2064 { fr[k] } else { r0[k] },
            decreases 16 - j,
        {
            let ghost rc = raw@;
            let ghost oc = out@;
            proof {
                assert(descrambled_frame(rc, j * 2064, cipher@) =~= descrambled_frame(r0, j * 2064, cipher@));
                assert(stored_edc(rc, j * 2064) == stored_edc(r0, j * 2064));
            }
            let s = self.unscramble_sector(disctype, cipher, raw, out, j);
            proof {
                assert forall|k: int| 0 <= k < 32768 implies #[trigger] out@[k] == if k < (j + 1) * 2048 { fo[k] } else { o0[k] } by {
                    if j * 2048 <= k < j * 2048 + 2048 {
                        lemma_record_pos(j as int, k - j * 2048, 2048);
                        assert(rc[j * 2064 + data_offset(disctype) + (k - j * 2048)] == r0[j * 2064 + data_offset(disctype) + (k - j * 2048)]);
                    }
                }
                assert forall|k: int| 0 <= k < 33024 implies #[trigger] raw@[k] == if k < (j + 1) * 2064 { fr[k] } else { r0[k] } by {
                    if j * 2064 <= k < j * 2064 + 2064 {
                        lemma_record_pos(j as int, k - j * 2064, 2064);
                    }
                }
                if !s {
                    assert(!sector_edc_ok(r0, j * 2064, cipher@));
                }
            }
            ok = ok && s;
            j = j + 1;
        }
        proof {
            assert(out@ =~= fo);
            assert(raw@ =~= fr);
        }
        ok
    }

    /// Unscrambles one block of 16 raw sectors starting at `sector_no` into
    /// `out`. The seed is looked up in the cache of the block's phase and, if
    /// unknown, searched by brute force and cached. With the Nintendo layout
    /// the CPR_MAI bytes of every sector of `raw` are left descrambled.
    pub fn unscramble_16sectors(
        &mut self,
        sector_no: u32,
        raw: &mut [u8; 33024],
        out: &mut [u8; 32768],
    ) -> (r: Result<bool>)
        ensures
            ({
                let c = seed_choice(old(self)@, sector_no, old(raw)@);
                let d = old(self)@.disctype;
                &&& final(self)@.bruteforce == old(self)@.bruteforce
                &&& final(self)@.disctype == d
                &&& final(self)@.slots == slots_after(old(self)@.slots, c)
                &&& match chosen_seed(c) {
                    Some(seed) => {
                        &&& seed < SEED_BRUTEFORCE_LIMIT
                        &&& final(out)@ == frame_out(d, old(raw)@, lfsr_stream(seed, 2048))
                        &&& final(raw)@ == frame_raw_after(d, old(raw)@, lfsr_stream(seed, 2048))
                        &&& (r is Ok <==> frame_ok(old(raw)@, lfsr_stream(seed, 2048)))
                        &&& (r matches Ok(b) ==> b)
                        &&& (r is Err ==> r matches Err(Error::Unscramble(_)))
                    },
                    None => {
                        &&& final(out)@ == old(out)@
                        &&& final(raw)@ == old(raw)@
                        &&& (c is NotFound ==> (r matches Err(Error::SeedNotFound(n)) && n == sector_no))
                        &&& (c is NoSpace ==> r matches Err(Error::Unscramble(_)))
                    },
                }
            }),
    {
        let ghost v0 = self@;
        let ghost rw = raw@;
        let x: usize = sector_no as usize;
        let ph: usize = (x / 16) & 0x0F;
        assert((x / 16) & 0x0F == (x / 16) % 16) by (bit_vector);
        let base: usize = ph * MAX_SEEDS;
        assert(base as int == phase_base(sector_no));
        let mut idx = base;
        let mut scanning = true;
        let mut found = false;
        while scanning && idx < SLOT_COUNT && idx < self.slots.len()
            invariant
                base <= idx <= 80,
                base <= 60,
                self@ == v0,
                raw@ == rw,
                v0.slots.len() == self.slots@.len(),
                scanning ==> !found,
                scanning ==> scan_end(v0.slots, rw, base as int) == scan_end(v0.slots, rw, idx as int),
                !scanning ==> scan_end(v0.slots, rw, base as int) == idx && idx < 80 && idx < v0.slots.len(),
                !scanning ==> (found <==> v0.slots[idx as int] is Seed),
            decreases 80 - idx, if scanning { 1int } else { 0int },
        {
            assert(v0.slots[idx as int] == slot_view(self.slots@[idx as int]));
            match &self.slots[idx] {
                Slot::Seed { seed, .. } => {
                    if self.test_seed(raw, *seed) {
                        found = true;
                        scanning = false;
                    } else {
                        idx = idx + 1;
                    }
                },
                _ => {
                    scanning = false;
                },
            }
        }
        proof {
            if scanning {
                assert(scan_end(v0.slots, rw, idx as int) == idx);
            }
        }
        let ghost c = seed_choice(v0, sector_no, rw);
        if !found {
            if !self.bruteforce_seeds {
                return Err(Error::SeedNotFound(sector_no));
            }
            let mut j: u16 = 0;
            let mut hit: Option<u16> = None;
            while hit.is_none() && j < SEED_BRUTEFORCE_LIMIT
                invariant
                    j <= 0x7FFF,
                    raw@ == rw,
                    hit is None ==> first_seed_from(rw, 0) == first_seed_from(rw, j as int),
                    hit matches Some(s) ==> first_seed_from(rw, 0) == Some(s),
                    hit matches Some(s) ==> s < SEED_BRUTEFORCE_LIMIT,
                decreases 0x7FFF - j, if hit is None { 1int } else { 0int },
            {
                if self.test_seed(raw, j) {
                    hit = Some(j);
                } else {
                    j = j + 1;
                }
            }
            match hit {
                None => {
                    return Err(Error::SeedNotFound(sector_no));
                },
                Some(sd) => {
                    let free = idx < SLOT_COUNT && idx < self.slots.len() && match &self.slots[idx] {
                        Slot::Empty => true,
                        _ => false,
                    };
                    if !free {
                        return Err(Error::Unscramble(String::from_str("no free slot in the seed cache")));
                    }
                    let cipher = lfsr_fill(sd, 2048);
                    let slot = Slot::Seed { seed: sd, cipher };
                    self.slots.set(idx, slot);
                    proof {
                        assert(self@.slots =~= v0.slots.update(idx as int, SlotView::Seed(sd)));
                    }
                },
            }
        }
        let disctype = self.disctype;
        let slot_ref = &self.slots[idx];
        proof {
            use_type_invariant(slot_ref);
        }
        let ok = match slot_ref {
            Slot::Seed { cipher, .. } => self.unscramble_frame(disctype, cipher, raw, out),
            _ => {
                proof {
                    assert(false);
                }
                false
            },
        };
        if ok {
            Ok(true)
        } else {
            Err(Error::Unscramble(String::from_str("EDC mismatch while unscrambling a block")))
        }
    }

    /// Unscrambles the block at sector `s` of a raw image file, of which
    /// only the first `filled` bytes could be read (the rest of `block` is
    /// zeroed first). Every failure is reported as an unscrambling error.
    pub fn unscramble_file_block(
        &mut self,
        s: u32,
        block: &mut [u8; 33024],
        filled: usize,
        out: &mut [u8; 32768],
    ) -> (r: Result<()>)
        requires
            filled <= 33024,
        ensures
            ({
                let padded = padded_block(old(block)@, filled as int);
                let c = seed_choice(old(self)@, s, padded);
                let d = old(self)@.disctype;
                &&& final(self)@.bruteforce == old(self)@.bruteforce
                &&& final(self)@.disctype == d
                &&& final(self)@.slots == slots_after(old(self)@.slots, c)
                &&& (r is Err ==> r matches Err(Error::Unscramble(_)))
                &&& match chosen_seed(c) {
                    Some(seed) => {
                        &&& final(out)@ == frame_out(d, padded, lfsr_stream(seed, 2048))
                        &&& (r is Ok <==> frame_ok(padded, lfsr_stream(seed, 2048)))
                    },
                    None => r is Err,
                }
            }),
    {
        let mut k = filled;
        while k < 33024
            invariant
                filled <= k <= 33024,
                forall|m: int| 0 <= m < filled ==> #[trigger] block@[m] == old(block)@[m],
                forall|m: int| filled <= m < k ==> #[trigger] block@[m] == 0,
            decreases 33024 - k,
        {
            block[k] = 0;
            k = k + 1;
        }
        assert(block@ =~= padded_block(old(block)@, filled as int));
        match self.unscramble_16sectors(s, block, out) {
            Ok(_) => Ok(()),
            Err(Error::Unscramble(m)) => Err(Error::Unscramble(m)),
            Err(_) => Err(Error::Unscramble(String::from_str("no seed found for the block"))),
        }
    }
}

/// A block of which the first `filled` bytes were read and the rest are
/// zero.
pub open spec fn padded_block(b: Seq<u8>, filled: int) -> Seq<u8> {
    Seq::new(33024, |k: int| if k < filled { b[k] } else { 0u8 })
}

/// The number of whole sectors in a raw image file of `filesize` bytes (as
/// a `u32`, wrapping).
pub fn sectors_in_file(filesize: u64) -> (n: u32)
    ensures
        n == (filesize / 2064) as u32,
{
    #[verifier::truncate]
    let n = (filesize / 2064) as u32;
    n
}

/// Whether the progress of unscrambling a file is reported after `s`
/// sectors of `total`.
pub fn file_progress_due(s: u32, total: u32) -> (r: bool)
    ensures
        r == (s % 320 == 0 || s == total),
{
    s % 320 == 0 || s == total
}

/// Byte `i` (below 2060) of the plain frame of sector `j`: the twelve bytes
/// `hdr[12 j ..]` around the 2048 bytes of user data `iso[2048 j ..]` placed at
/// the data offset of the layout.
pub open spec fn plain_byte(disctype: u8, iso: Seq<u8>, hdr: Seq<u8>, j: int, i: int) -> u8 {
    let d = data_offset(disctype);
    if i < d {
        hdr[j * 12 + i]
    } else if i < d + 2048 {
        iso[j * 2048 + i - d]
    } else {
        hdr[j * 12 + i - 2048]
    }
}

/// The first 2060 bytes of the plain frame of sector `j`.
pub open spec fn plain_frame(disctype: u8, iso: Seq<u8>, hdr: Seq<u8>, j: int) -> Seq<u8> {
    Seq::new(2060, |i: int| plain_byte(disctype, iso, hdr, j, i))
}

/// The raw block that carries the user data `iso` (16 sectors of 2048 bytes)
/// and the header bytes `hdr` (12 per sector), scrambled with `cipher` and
/// closed by the EDC of every plain frame.
pub open spec fn scrambled_block(disctype: u8, iso: Seq<u8>, hdr: Seq<u8>, cipher: Seq<u8>) -> Seq<u8> {
    Seq::new(
        33024,
        |k: int|
            {
                let j = k / 2064;
                let o = k % 2064;
                if o < 12 {
                    plain_byte(disctype, iso, hdr, j, o)
                } else if o < 2060 {
                    plain_byte(disctype, iso, hdr, j, o) ^ cipher[o - 12]
                } else {
                    crate::bytes::be32_bytes(edc_spec(0, plain_frame(disctype, iso, hdr, j)))[o - 2060]
                }
            },
    )
}

/// Unscrambling undoes scrambling: a block scrambled with the stream of
/// `seed` passes the EDC check of every sector with that stream and
/// unscrambles to the user data it was made from.
pub proof fn lemma_scramble_roundtrip(disctype: u8, iso: Seq<u8>, hdr: Seq<u8>, seed: u16)
    requires
        iso.len() == 32768,
        hdr.len() == 192,
    ensures
        frame_ok(scrambled_block(disctype, iso, hdr, lfsr_stream(seed, 2048)), lfsr_stream(seed, 2048)),
        frame_out(disctype, scrambled_block(disctype, iso, hdr, lfsr_stream(seed, 2048)), lfsr_stream(seed, 2048)) == iso,
{
    let c = lfsr_stream(seed, 2048);
    let raw = scrambled_block(disctype, iso, hdr, c);
    assert forall|j: int, i: int| 0 <= j < 16 && 0 <= i < 2060 implies #[trigger] descrambled_byte(raw, j * 2064, c, i) == plain_byte(disctype, iso, hdr, j, i) by {
        lemma_record_pos(j, i, 2064);
        let p = plain_byte(disctype, iso, hdr, j, i);
        if 12 <= i {
            let cb = c[i - 12];
            assert((p ^ cb) ^ cb == p) by (bit_vector);
        }
    }
    assert forall|j: int| 0 <= j < 16 implies #[trigger] sector_edc_ok(raw, j * 2064, c) by {
        assert(descrambled_frame(raw, j * 2064, c) =~= plain_frame(disctype, iso, hdr, j));
        let e = edc_spec(0, plain_frame(disctype, iso, hdr, j));
        lemma_record_pos(j, 2060, 2064);
        lemma_record_pos(j, 2061, 2064);
        lemma_record_pos(j, 2062, 2064);
        lemma_record_pos(j, 2063, 2064);
        crate::bytes::lemma_be32_roundtrip(e);
    }
    assert forall|k: int| 0 <= k < 32768 implies #[trigger] frame_out(disctype, raw, c)[k] == iso[k] by {
        lemma_record_bounds(k, 2048, 16);
        let j = k / 2048;
        let t = k % 2048;
        assert(descrambled_byte(raw, j * 2064, c, data_offset(disctype) + t) == plain_byte(disctype, iso, hdr, j, data_offset(disctype) + t));
    }
    assert(frame_out(disctype, raw, c) =~= iso);
}

/// The seed found by brute force matches the block.
proof fn lemma_first_seed_matches(raw: Seq<u8>, j: int)
    requires
        first_seed_from(raw, j) matches Some(s),
    ensures
        first_seed_from(raw, j) matches Some(s) && seed_matches(raw, s),
    decreases 0x7FFF - j,
{
    if j < 0x7FFF && !(j >= 0 && seed_matches(raw, j as u16)) {
        lemma_first_seed_matches(raw, j + 1);
    }
}

/// Storing a matching seed at the slot where a search stopped makes the
/// search stop there again.
proof fn lemma_scan_end_after_store(slots: Seq<SlotView>, raw: Seq<u8>, idx: int, e: int, s: u16)
    requires
        0 <= idx <= e,
        e < 80,
        e < slots.len(),
        scan_end(slots, raw, idx) == e,
        seed_matches(raw, s),
    ensures
        scan_end(slots.update(e, SlotView::Seed(s)), raw, idx) == e,
    decreases e - idx,
{
    if idx < e {
        lemma_scan_end_after_store(slots, raw, idx + 1, e, s);
    }
}

/// Unscrambling the same block again takes its seed from the cache: once a
/// seed was obtained for a raw block (from the cache or by brute force),
/// the next unscrambling of that block at the same sector finds the same
/// seed in the cache and leaves the cache as it is.
pub proof fn lemma_seed_reused(v: UnscramblerView, sector_no: u32, raw: Seq<u8>)
    requires
        chosen_seed(seed_choice(v, sector_no, raw)) is Some,
    ensures
        ({
            let c = seed_choice(v, sector_no, raw);
            let v2 = UnscramblerView { slots: slots_after(v.slots, c), ..v };
            let c2 = seed_choice(v2, sector_no, raw);
            &&& c2 is Cached
            &&& chosen_seed(c2) == chosen_seed(c)
            &&& slots_after(v2.slots, c2) == v2.slots
        }),
{
    let c = seed_choice(v, sector_no, raw);
    let base = phase_base(sector_no);
    let e = scan_end(v.slots, raw, base);
    match c {
        SeedChoice::Added(i, sd) => {
            lemma_first_seed_matches(raw, 0);
            assert(0 <= base <= 60) by {
                assert((sector_no / 16) % 16 < 16);
            }
            lemma_scan_end_bounds(v.slots, raw, base);
            lemma_scan_end_after_store(v.slots, raw, base, e, sd);
        },
        _ => {},
    }
}

/// A search stops at or after where it starts.
proof fn lemma_scan_end_bounds(slots: Seq<SlotView>, raw: Seq<u8>, idx: int)
    requires
        0 <= idx,
    ensures
        idx <= scan_end(slots, raw, idx),
    decreases 80 - idx,
{
    if 0 <= idx < 80 && idx < slots.len() && (slots[idx] matches SlotView::Seed(s) && !seed_matches(raw, s)) {
        lemma_scan_end_bounds(slots, raw, idx + 1);
    }
}

impl Default for Unscrambler {
    /// An unscrambler as made by `new`.
    fn default() -> (u: Self)
        ensures
            u@ == (UnscramblerView { slots: initial_slots(), bruteforce: true, disctype: DISCTYPE_NINTENDO }),
    {
        Unscrambler::new()
    }
}

/// The sector number of block `n` of a raw image file: sixteen sectors a
/// block, counted in a `u32` that wraps.
pub open spec fn block_sector(n: nat) -> u32
    decreases n,
{
    if n == 0 {
        0
    } else {
        vstd::wrapping::u32_specs::wrapping_add(block_sector((n - 1) as nat), 16)
    }
}

/// Where unscrambling a raw image file stands after some of its blocks.
pub struct FileRunView {
    /// The state of the unscrambler.
    pub state: UnscramblerView,
    /// The bytes of the ISO image written so far.
    pub out: Seq<u8>,
    /// The number of blocks unscrambled.
    pub ok_blocks: nat,
    /// Whether the last block failed (which ends the run).
    pub failed: bool,
}

/// Unscrambling the padded raw blocks `blocks` of a file, in order, from the
/// unscrambler state `u0`: block `b` is unscrambled as sector
/// `block_sector(b)` in the state left by the blocks before it, and its
/// 32768 bytes follow theirs in the output; the first block that does not
/// unscramble ends the run, with nothing written for it.
pub open spec fn file_run(u0: UnscramblerView, blocks: Seq<Seq<u8>>) -> FileRunView
    decreases blocks.len(),
{
    if blocks.len() == 0 {
        FileRunView { state: u0, out: Seq::empty(), ok_blocks: 0, failed: false }
    } else {
        let prev = file_run(u0, blocks.drop_last());
        if prev.failed {
            prev
        } else {
            let b = blocks.last();
            let c = seed_choice(prev.state, block_sector(prev.ok_blocks), b);
            let st = UnscramblerView {
                slots: slots_after(prev.state.slots, c),
                bruteforce: prev.state.bruteforce,
                disctype: prev.state.disctype,
            };
            if chosen_seed(c) is Some && frame_ok(b, lfsr_stream(chosen_seed(c)->0, 2048)) {
                FileRunView {
                    state: st,
                    out: prev.out + frame_out(prev.state.disctype, b, lfsr_stream(chosen_seed(c)->0, 2048)),
                    ok_blocks: prev.ok_blocks + 1,
                    failed: false,
                }
            } else {
                FileRunView { state: st, out: prev.out, ok_blocks: prev.ok_blocks, failed: true }
            }
        }
    }
}

/// Unscrambling a file writes 32768 bytes per unscrambled block, and what
/// was written for its first `n` blocks is never changed by the blocks after
/// them: it is the start of what is written for the whole file.
pub proof fn lemma_file_run_prefix(u0: UnscramblerView, blocks: Seq<Seq<u8>>, n: int)
    requires
        0 <= n <= blocks.len(),
    ensures
        file_run(u0, blocks).out.len() == 32768 * file_run(u0, blocks).ok_blocks,
        file_run(u0, blocks.take(n)).ok_blocks <= file_run(u0, blocks).ok_blocks,
        file_run(u0, blocks).out.take(file_run(u0, blocks.take(n)).out.len() as int) == file_run(u0, blocks.take(n)).out,
    decreases blocks.len(),
{
    if blocks.len() == 0 {
        assert(blocks.take(n) =~= blocks);
    } else if n == blocks.len() {
        assert(blocks.take(n) =~= blocks);
        lemma_file_run_prefix(u0, blocks.drop_last(), 0);
    } else {
        lemma_file_run_prefix(u0, blocks.drop_last(), n);
        assert(blocks.drop_last().take(n) =~= blocks.take(n));
        lemma_file_run_prefix(u0, blocks.take(n), n);
        assert(blocks.take(n).take(n) =~= blocks.take(n));
        let prev = file_run(u0, blocks.drop_last());
        let cur = file_run(u0, blocks);
        let pre = file_run(u0, blocks.take(n));
        assert(cur.out.take(prev.out.len() as int) =~= prev.out);
        assert(cur.out.take(pre.out.len() as int) =~= prev.out.take(pre.out.len() as int));
    }
}

/// A run in which no block failed unscrambled every block.
proof fn lemma_file_run_all_ok(u0: UnscramblerView, blocks: Seq<Seq<u8>>)
    ensures
        !file_run(u0, blocks).failed ==> file_run(u0, blocks).ok_blocks == blocks.len(),
    decreases blocks.len(),
{
    if blocks.len() > 0 {
        lemma_file_run_all_ok(u0, blocks.drop_last());
    }
}

/// Once a block failed, the blocks after it change nothing.
proof fn lemma_file_run_failed_final(u0: UnscramblerView, blocks: Seq<Seq<u8>>, n: int)
    requires
        0 <= n <= blocks.len(),
        file_run(u0, blocks.take(n)).failed,
    ensures
        file_run(u0, blocks) == file_run(u0, blocks.take(n)),
    decreases blocks.len(),
{
    if n == blocks.len() {
        assert(blocks.take(n) =~= blocks);
    } else {
        assert(blocks.drop_last().take(n) =~= blocks.take(n));
        lemma_file_run_failed_final(u0, blocks.drop_last(), n);
    }
}

/// Unscrambling a raw image file, block by block: when the blocks before
/// block `b` were unscrambled, block `b` is unscrambled as sector
/// `block_sector(b)` in the state they left. If it unscrambles, its 32768
/// bytes of output stand in the file's output right after theirs, whatever
/// the blocks after it do; if not, the run fails there and the output is
/// what the blocks before it wrote.
pub proof fn lemma_file_run_blocks(u0: UnscramblerView, blocks: Seq<Seq<u8>>, b: int)
    requires
        0 <= b < blocks.len(),
        !file_run(u0, blocks.take(b)).failed,
    ensures
        ({
            let prev = file_run(u0, blocks.take(b));
            let c = seed_choice(prev.state, block_sector(b as nat), blocks[b]);
            let all = file_run(u0, blocks);
            &&& prev.ok_blocks == b
            &&& prev.out.len() == 32768 * b
            &&& all.out.take(32768 * b) == prev.out
            &&& if chosen_seed(c) is Some && frame_ok(blocks[b], lfsr_stream(chosen_seed(c)->0, 2048)) {
                all.out.subrange(32768 * b, 32768 * b + 32768)
                    == frame_out(prev.state.disctype, blocks[b], lfsr_stream(chosen_seed(c)->0, 2048))
            } else {
                all.failed && all.out == prev.out
            }
        }),
{
    let prev = file_run(u0, blocks.take(b));
    let next = file_run(u0, blocks.take(b + 1));
    lemma_file_run_all_ok(u0, blocks.take(b));
    lemma_file_run_prefix(u0, blocks.take(b), 0);
    assert(blocks.take(b + 1).drop_last() =~= blocks.take(b));
    assert(blocks.take(b + 1).last() == blocks[b]);
    lemma_file_run_prefix(u0, blocks, b);
    lemma_file_run_prefix(u0, blocks, b + 1);
    let c = seed_choice(prev.state, block_sector(b as nat), blocks[b]);
    let all = file_run(u0, blocks);
    if chosen_seed(c) is Some && frame_ok(blocks[b], lfsr_stream(chosen_seed(c)->0, 2048)) {
        let fo = frame_out(prev.state.disctype, blocks[b], lfsr_stream(chosen_seed(c)->0, 2048));
        assert(next.out == prev.out + fo);
        assert(all.out.take(next.out.len() as int) == next.out);
        assert(all.out.subrange(32768 * b, 32768 * b + 32768) =~= next.out.subrange(32768 * b, 32768 * b + 32768));
        assert(next.out.subrange(32768 * b, 32768 * b + 32768) =~= fo);
    } else {
        lemma_file_run_failed_final(u0, blocks, b + 1);
    }
}

/// The progress reports of unscrambling a file of `total` sectors after `n`
/// blocks: `(true, 0, total)` first, then `(false, s, total)` after each
/// block that ends at sector `s` where `s` is a multiple of 320 or `total`.
pub open spec fn file_reports(total: u32, n: nat) -> Seq<(bool, u32, u32)>
    decreases n,
{
    if n == 0 {
        seq![(true, 0u32, total)]
    } else {
        let prev = file_reports(total, (n - 1) as nat);
        let s = block_sector(n);
        if s % 320 == 0 || s == total {
            prev.push((false, s, total))
        } else {
            prev
        }
    }
}

/// A raw image file being unscrambled block by block: the unscrambler, the
/// sectors done and the sectors of the file, with the blocks handed in so
/// far and the progress reports made.
pub struct FileUnscramble {
    unscrambler: Unscrambler,
    done: u32,
    total: u32,
    failed: bool,
    start: Ghost<UnscramblerView>,
    blocks: Ghost<Seq<Seq<u8>>>,
    reports: Ghost<Seq<(bool, u32, u32)>>,
}

/// The abstract state of a `FileUnscramble`.
pub struct FileUnscrambleView {
    /// The unscrambler's state when the run began.
    pub start: UnscramblerView,
    /// The padded raw blocks handed in so far, in order.
    pub blocks: Seq<Seq<u8>>,
    /// The number of sectors of the file.
    pub total: u32,
    /// The progress reports made so far, in order.
    pub reports: Seq<(bool, u32, u32)>,
}

impl View for FileUnscramble {
    type V = FileUnscrambleView;

    closed spec fn view(&self) -> FileUnscrambleView {
        FileUnscrambleView {
            start: self.start@,
            blocks: self.blocks@,
            total: self.total,
            reports: self.reports@,
        }
    }
}

impl FileUnscramble {
    /// The unscrambler, the sector count and the reports are those of the
    /// blocks handed in so far.
    pub closed spec fn wf(self) -> bool {
        let f = file_run(self.start@, self.blocks@);
        &&& self.unscrambler@ == f.state
        &&& self.done == block_sector(f.ok_blocks)
        &&& self.failed == f.failed
        &&& self.reports@ == file_reports(self.total, f.ok_blocks)
    }

    /// Begins unscrambling a raw image file of `filesize` bytes with
    /// `unscrambler`; returns the run and its first progress report.
    pub fn new(unscrambler: Unscrambler, filesize: u64) -> (r: (FileUnscramble, (bool, u32, u32)))
        ensures
            r.0.wf(),
            r.0@.start == unscrambler@,
            r.0@.blocks.len() == 0,
            r.0@.total == (filesize / 2064) as u32,
            r.0@.reports == seq![r.1],
            r.1 == (true, 0u32, r.0@.total),
    {
        let total = sectors_in_file(filesize);
        let ghost u0 = unscrambler@;
        let ghost first: Seq<(bool, u32, u32)> = seq![(true, 0u32, total)];
        let run = FileUnscramble {
            unscrambler,
            done: 0,
            total,
            failed: false,
            start: Ghost(u0),
            blocks: Ghost(Seq::empty()),
            reports: Ghost(first),
        };
        (run, (true, 0u32, total))
    }

    /// Unscrambles the next block of the file, of which the first `filled`
    /// bytes were read (the rest of `block` is zeroed), into `out`. On `Ok`,
    /// `out` is to be written after what was written before, and the
    /// progress report due after the block (if any) is returned; an error
    /// names the sector of the block and ends the run.
    pub fn next_block(&mut self, block: &mut [u8; 33024], filled: usize, out: &mut [u8; 32768]) -> (r: Result<Option<(bool, u32, u32)>>)
        requires
            old(self).wf(),
            filled <= 33024,
        ensures
            final(self).wf(),
            ({
                let f0 = file_run(old(self)@.start, old(self)@.blocks);
                let f1 = file_run(final(self)@.start, final(self)@.blocks);
                &&& final(self)@.start == old(self)@.start
                &&& final(self)@.total == old(self)@.total
                &&& f0.failed ==> (r matches Err(e) && e is Unscramble) && final(self)@ == old(self)@
                &&& !f0.failed ==> final(self)@.blocks == old(self)@.blocks.push(padded_block(old(block)@, filled as int))
                &&& (r is Ok <==> !f1.failed)
                &&& r matches Err(e) ==> e is Unscramble
                &&& r is Ok ==> f1.out == f0.out + final(out)@
                &&& r is Err ==> f1.out == f0.out
                &&& final(self)@.reports == file_reports(final(self)@.total, f1.ok_blocks)
                &&& r matches Ok(p) ==> final(self)@.reports == old(self)@.reports + match p {
                    Some(x) => seq![x],
                    None => Seq::empty(),
                }
                &&& r is Err ==> final(self)@.reports == old(self)@.reports
            }),
    {
        if self.failed {
            return Err(Error::Unscramble(String::from_str("the image could not be unscrambled")));
        }
        let s = self.done;
        let ghost padded = padded_block(block@, filled as int);
        let res = self.unscrambler.unscramble_file_block(s, block, filled, out);
        self.blocks = Ghost(self.blocks@.push(padded));
        assert(self.blocks@.drop_last() =~= old(self).blocks@);
        match res {
            Ok(()) => {},
            Err(e) => {
                self.failed = true;
                let mut msg = String::from_str("near sector ");
                crate::text::push_decimal(&mut msg, s as u64);
                msg.append(": ");
                match e {
                    Error::Unscramble(m) => msg.append(m.as_str()),
                    _ => {},
                }
                return Err(Error::Unscramble(msg));
            },
        }
        self.done = self.done.wrapping_add(16);
        let due = file_progress_due(self.done, self.total);
        if due {
            self.reports = Ghost(self.reports@.push((false, self.done, self.total)));
            Ok(Some((false, self.done, self.total)))
        } else {
            Ok(None)
        }
    }
}

} // verus!
