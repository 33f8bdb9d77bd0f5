//! The decisions of a dump: where it starts (from existing output files,
//! a forced start sector and a resume journal), where it stops, when the
//! progress is reported and the journal written, the journal's text, the
//! sector copied out of the cache, and the digests of what was written.
//! The files themselves are handled by the caller.

use vstd::prelude::*;
use crate::cache::cached;
use crate::disc::{same_disc_settings, Disc};
use crate::drive::device::ScsiDevice;
use crate::error::{Error, Result};
use crate::hasher::{digests_of, Digests, MultiHash};
use crate::cli::char_from;
use crate::text::{
    chars_match_at, chars_of, decimal, lemma_decimal_digits, parse_int_spec, parse_u32,
    is_digit, push_char, push_decimal, sub_chars, trim_chars, trim_ws,
};

verus! {

/// Sectors between two writes of the journal.
pub const JOURNAL_INTERVAL: u32 = 8192;

/// Sectors between two progress reports (and flushes of the outputs).
pub const PROGRESS_INTERVAL: u32 = 320;

/// The first sector to dump into an output file that holds `len` bytes of
/// sectors of `sector_size` bytes: the whole blocks it holds.
pub open spec fn resume_sector(len: u64, sector_size: u64) -> u32 {
    (((len / sector_size) / 16) * 16) as u32
}

/// The first sector to dump into an output file, from its length
/// (`None` if it does not exist). An existing file may only be continued
/// when resuming; its whole blocks are kept.
pub fn pending_start(existing_len: Option<u64>, sector_size: u64, resume: bool) -> (r: Result<u32>)
    requires
        sector_size > 0,
    ensures
        match existing_len {
            None => r == Ok::<u32, Error>(0),
            Some(len) => if !resume {
                r matches Err(e) && e is InvalidArgument
            } else {
                r == Ok::<u32, Error>(resume_sector(len, sector_size))
            },
        },
{
    match existing_len {
        None => Ok(0),
        Some(len) => {
            if !resume {
                Err(Error::InvalidArgument(String::from_str("the output file exists (resume not requested)")))
            } else {
                let sectors = len / sector_size;
                let blocks = sectors / 16;
                assert(blocks * 16 <= sectors) by (nonlinear_arith)
                    requires
                        blocks == sectors / 16,
                ;
                #[verifier::truncate]
                let start = (blocks * 16) as u32;
                Ok(start)
            }
        },
    }
}

/// The start of a dump: the least of the starts of the outputs, or the
/// forced start (the outputs then being written from their beginning);
/// `None` without any output. Returns the sector to
/// read from and the sector the outputs continue at.
pub open spec fn planned_start(raw_start: Option<u32>, iso_start: Option<u32>, forced_start: Option<u32>) -> Option<(u32, u32)> {
    let start: Option<u32> = match (raw_start, iso_start) {
        (Some(r), Some(i)) => Some(if r <= i { r } else { i }),
        (Some(r), None) => Some(r),
        (None, Some(i)) => Some(i),
        (None, None) => None,
    };
    match start {
        None => None,
        Some(s) => match forced_start {
            Some(fs) => Some((fs, 0u32)),
            None => Some((s, s)),
        },
    }
}

/// Without a forced start, a dump starts (and writes) at the earliest point
/// any output needs: never after the start of an output, and at the start
/// of one of them; with a single output, at its start; with a forced start,
/// at that sector with the outputs written from their beginning.
pub proof fn lemma_plan_earliest(raw_start: Option<u32>, iso_start: Option<u32>, forced: Option<u32>)
    ensures
        (raw_start is Some || iso_start is Some) <==> planned_start(raw_start, iso_start, forced) is Some,
        planned_start(raw_start, iso_start, None) matches Some((s, w)) ==> {
            &&& w == s
            &&& (raw_start matches Some(r) ==> s <= r)
            &&& (iso_start matches Some(i) ==> s <= i)
            &&& (raw_start == Some(s) || iso_start == Some(s))
        },
        forced matches Some(f) ==> (planned_start(raw_start, iso_start, forced) matches Some((s, w)) ==> s == f && w == 0),
{
}

/// The sector a resumed dump starts at, given the next sector `journal`
/// recorded in the journal: a recorded sector before `start` (and not 0)
/// moves the start back to its block.
pub open spec fn journal_start(start: u32, journal: Option<u32>) -> u32 {
    match journal {
        Some(j) => if 0 < j < start {
            (j / 16 * 16) as u32
        } else {
            start
        },
        None => start,
    }
}

/// The last sector dumped on a disc of `sectors_no` sectors: the one before
/// the forced end sector when that lies on the disc (none when the forced
/// end is sector 0, the end itself never being dumped), else the disc's
/// last; `None` for a disc of unknown size (0 sectors).
pub open spec fn last_sector_of(sectors_no: u32, forced_end: Option<u32>) -> Option<Option<u32>> {
    if sectors_no == 0 {
        None
    } else {
        match forced_end {
            Some(e) => if e <= sectors_no {
                Some(if e == 0 { None } else { Some((e - 1) as u32) })
            } else {
                Some(Some((sectors_no - 1) as u32))
            },
            None => Some(Some((sectors_no - 1) as u32)),
        }
    }
}

/// The progress is reported (and the outputs flushed) after sector `i`.
pub open spec fn progress_point(i: u32, last: u32) -> bool {
    i % PROGRESS_INTERVAL == 0 || i == last
}

/// The journal is written after sector `i`.
pub open spec fn journal_point(i: u32, last: u32) -> bool {
    (i + 1) % JOURNAL_INTERVAL as int == 0 || i == last
}

/// Whether the progress is reported (and the outputs flushed) after sector
/// `i` of a dump ending at `last`.
pub fn progress_due(i: u32, last: u32) -> (r: bool)
    ensures
        r == progress_point(i, last),
{
    i % PROGRESS_INTERVAL == 0 || i == last
}

/// Whether the journal is written after sector `i` of a dump ending at
/// `last`.
pub fn journal_due(i: u32, last: u32) -> (r: bool)
    ensures
        r == journal_point(i, last),
{
    let next: u64 = i as u64 + 1;
    next % (JOURNAL_INTERVAL as u64) == 0 || i == last
}

/// The text of the journal recording `next` as the next sector to dump.
pub open spec fn journal_text_of(next: u32) -> Seq<char> {
    "next="@ + decimal(next as nat) + seq!['\n']
}

/// The next sector recorded in the journal text `s` from position `i`: the
/// first line that starts with `next=`, the rest of it trimmed and read as
/// a `u32` (`None` if it is not one, or if no line starts so).
pub open spec fn journal_from(s: Seq<char>, i: int) -> Option<u32>
    decreases s.len() - i,
{
    if i < 0 || i >= s.len() {
        None
    } else {
        let e = char_from(s, i, '\n');
        let line = s.subrange(i, e);
        let tag = "next="@;
        if line.len() >= tag.len() && line.subrange(0, tag.len() as int) == tag {
            match parse_int_spec(trim_ws(line.subrange(tag.len() as int, line.len() as int)), false, 0, u32::MAX as int) {
                Some(v) => Some(v as u32),
                None => None,
            }
        } else if e < s.len() {
            proof {
                crate::cli::lemma_char_from_bounds(s, i, '\n');
            }
            journal_from(s, e + 1)
        } else {
            None
        }
    }
}

/// The next sector recorded in the journal text `s`.
pub open spec fn journal_value(s: Seq<char>) -> Option<u32> {
    journal_from(s, 0)
}

/// The text of the journal recording `next`.
pub fn journal_text(next: u32) -> (s: String)
    ensures
        s@ == journal_text_of(next),
{
    let mut s = String::from_str("next=");
    push_decimal(&mut s, next as u64);
    push_char(&mut s, '\n');
    s
}

/// The next sector recorded in the journal text `text`.
pub fn parse_journal(text: &str) -> (r: Option<u32>)
    ensures
        r == journal_value(text@),
{
    let v = chars_of(text);
    let tag = chars_of("next=");
    let n = v.len();
    let mut i: usize = 0;
    while i < n
        invariant
            i <= n == v@.len(),
            v@ == text@,
            tag@ == "next="@,
            journal_from(v@, i as int) == journal_from(v@, 0),
        decreases n - i,
    {
        let e = crate::cli::find_char(v.as_slice(), i, '\n');
        let line = sub_chars(v.as_slice(), i, e);
        if line.len() >= tag.len() && chars_match_at(line.as_slice(), tag.as_slice(), 0) {
            let rest = sub_chars(line.as_slice(), tag.len(), line.len());
            let t = trim_chars(rest.as_slice());
            let r = parse_u32(t.as_slice());
            assert(r == journal_from(v@, i as int));
            return r;
        }
        if e >= n {
            assert(journal_from(v@, i as int) is None);
            return None;
        }
        assert(journal_from(v@, i as int) == journal_from(v@, e + 1));
        i = e + 1;
    }
    None
}

/// A journal read back gives the sector it records.
pub proof fn lemma_journal_roundtrip(next: u32)
    ensures
        journal_value(journal_text_of(next)) == Some(next),
{
    reveal_strlit("next=");
    let t = journal_text_of(next);
    let d = decimal(next as nat);
    lemma_decimal_digits(next as nat);
    let tag = "next="@;
    assert(tag.len() == 5);
    let e: int = 5 + d.len() as int;
    assert forall|k: int| 0 <= k < e implies #[trigger] t[k] != '\n' by {
        if k >= 5 {
            assert(t[k] == d[k - 5]);
        }
    }
    assert(t[e] == '\n');
    assert forall|k: int| 0 <= k <= e implies char_from(t, k, '\n') == e by {
        lemma_char_from_tail(t, k, e);
    }
    let line = t.subrange(0, e);
    assert(line.subrange(0, 5) =~= tag);
    assert(line.subrange(5, line.len() as int) =~= d);
    assert(is_digit(d[0]));
    assert(parse_int_spec(d, false, 0, u32::MAX as int) == Some(next as int));
}

proof fn lemma_char_from_tail(t: Seq<char>, k: int, e: int)
    requires
        0 <= k <= e < t.len(),
        t[e] == '\n',
        forall|m: int| 0 <= m < e ==> #[trigger] t[m] != '\n',
    ensures
        char_from(t, k, '\n') == e,
    decreases e - k,
{
    if k < e {
        lemma_char_from_tail(t, k + 1, e);
    }
}

/// Truncating a multiple of 16 to 32 bits keeps it a multiple of 16.
proof fn lemma_truncate_block(x: u64)
    requires
        x % 16 == 0,
    ensures
        (x as u32) % 16 == 0,
{
    assert(x & 15 == 0) by (bit_vector)
        requires
            x % 16 == 0,
    ;
    assert(((x as u32) & 15u32) == 0u32) by (bit_vector)
        requires
            x & 15 == 0,
    ;
    assert(((x as u32) & 15u32) == (x as u32) % 16) by (bit_vector);
}

/// Without a forced start, a dump starts on a block boundary and writes
/// where it reads: the start of an output that is continued is a whole
/// number of blocks, and a sector recorded in the journal moves the start
/// back to the beginning of its block.
pub proof fn lemma_start_on_block(
    raw_len: Option<u64>,
    iso_len: Option<u64>,
    journal: Option<u32>,
)
    ensures
        ({
            let rs: Option<u32> = match raw_len {
                Some(l) => Some(resume_sector(l, 2064)),
                None => None,
            };
            let is: Option<u32> = match iso_len {
                Some(l) => Some(resume_sector(l, 2048)),
                None => None,
            };
            planned_start(rs, is, None) matches Some((s, w)) ==> s == w && s % 16 == 0 && journal_start(s, journal) % 16 == 0
        }),
{
    assert forall|l: u64, z: u64| z > 0 implies #[trigger] resume_sector(l, z) % 16 == 0 by {
        let b = (l / z) / 16;
        assert(b * 16 <= l / z) by (nonlinear_arith)
            requires
                b == (l / z) / 16,
        ;
        let x: u64 = (b * 16) as u64;
        assert(x % 16 == 0);
        lemma_truncate_block(x);
    }
}

/// A resumed dump restarts at the smaller of the two positions it knows:
/// never after the start given by the files, and never after the sector
/// recorded in the journal (when one is recorded).
pub proof fn lemma_resume_takes_smaller(start: u32, journal: Option<u32>)
    ensures
        journal_start(start, journal) <= start,
        (journal matches Some(j) && j > 0) ==> journal_start(start, journal) <= journal->0,
{
}

/// The hashes of one output and the number of bytes they absorbed.
struct Tally {
    hash: MultiHash,
    fed: u64,
}

impl Tally {
    spec fn wf(&self) -> bool {
        &&& self.hash.wf()
        &&& self.hash@.len() == self.fed
    }

    fn new() -> (t: Self)
        ensures
            t.wf(),
            t.hash@ == Seq::<u8>::empty(),
    {
        Tally { hash: MultiHash::new(), fed: 0 }
    }

    /// Absorbs `data`; fails (absorbing nothing) past 2^64 - 1 bytes.
    fn absorb(&mut self, data: &[u8]) -> (r: Result<()>)
        requires
            old(self).wf(),
        ensures
            final(self).wf(),
            r is Ok ==> final(self).hash@ == old(self).hash@ + data@,
            r is Err ==> final(self).hash@ == old(self).hash@,
            r is Ok <==> old(self).hash@.len() + data@.len() <= u64::MAX,
    {
        let len = data.len() as u64;
        if len > u64::MAX - self.fed {
            return Err(Error::Other(String::from_str("too many bytes to hash")));
        }
        self.hash.update(data);
        self.fed = self.fed + len;
        Ok(())
    }
}

/// The settings and the state of a dump: hashing and flushing, the forced
/// start and end sectors, where the dump starts and where the outputs
/// continue, and the hashes of the two outputs.
pub struct Dumper {
    hashing: bool,
    flushing: bool,
    forced_start: Option<u32>,
    forced_end: Option<u32>,
    start_sector: u32,
    write_start_sector: u32,
    hash_raw: Option<Tally>,
    hash_iso: Option<Tally>,
    hash_raw_done: Option<Digests>,
    hash_iso_done: Option<Digests>,
}

/// The state of a dump.
pub struct DumperView {
    /// Whether the digests of the outputs are computed.
    pub hashing: bool,
    /// Whether the outputs are flushed at each progress report.
    pub flushing: bool,
    /// The start sector forced by the user.
    pub forced_start: Option<u32>,
    /// The end sector forced by the user (the sector itself is not dumped).
    pub forced_end: Option<u32>,
    /// The sector the dump reads from.
    pub start_sector: u32,
    /// The sector the outputs continue at.
    pub write_start_sector: u32,
    /// The bytes of the raw output hashed so far, while it is hashed.
    pub raw_fed: Option<Seq<u8>>,
    /// The bytes of the ISO output hashed so far, while it is hashed.
    pub iso_fed: Option<Seq<u8>>,
    /// The digests of the raw output, once the dump is finished.
    pub raw_done: Option<Digests>,
    /// The digests of the ISO output, once the dump is finished.
    pub iso_done: Option<Digests>,
}

/// What a tally absorbed, if there is one.
spec fn fed_of(t: Option<Tally>) -> Option<Seq<u8>> {
    match t {
        Some(x) => Some(x.hash@),
        None => None,
    }
}

spec fn tally_wf(t: Option<Tally>) -> bool {
    match t {
        Some(x) => x.wf(),
        None => true,
    }
}

impl View for Dumper {
    type V = DumperView;

    closed spec fn view(&self) -> DumperView {
        DumperView {
            hashing: self.hashing,
            flushing: self.flushing,
            forced_start: self.forced_start,
            forced_end: self.forced_end,
            start_sector: self.start_sector,
            write_start_sector: self.write_start_sector,
            raw_fed: fed_of(self.hash_raw),
            iso_fed: fed_of(self.hash_iso),
            raw_done: self.hash_raw_done,
            iso_done: self.hash_iso_done,
        }
    }
}

impl Dumper {
    /// The hashes of the outputs are consistent.
    pub closed spec fn wf(&self) -> bool {
        tally_wf(self.hash_raw) && tally_wf(self.hash_iso)
    }

    /// A dump with hashing and flushing on and no forced sectors.
    pub fn new() -> (d: Self)
        ensures
            d.wf(),
            d@ == (DumperView {
                hashing: true,
                flushing: true,
                forced_start: None,
                forced_end: None,
                start_sector: 0,
                write_start_sector: 0,
                raw_fed: None,
                iso_fed: None,
                raw_done: None,
                iso_done: None,
            }),
    {
        Dumper {
            hashing: true,
            flushing: true,
            forced_start: None,
            forced_end: None,
            start_sector: 0,
            write_start_sector: 0,
            hash_raw: None,
            hash_iso: None,
            hash_raw_done: None,
            hash_iso_done: None,
        }
    }

    /// Whether the digests of the outputs are computed.
    pub fn hashing(&self) -> (r: bool)
        ensures
            r == self@.hashing,
    {
        self.hashing
    }

    /// Whether the outputs are flushed at each progress report.
    pub fn flushing(&self) -> (r: bool)
        ensures
            r == self@.flushing,
    {
        self.flushing
    }

    /// The sector the dump reads from.
    pub fn start_sector(&self) -> (r: u32)
        ensures
            r == self@.start_sector,
    {
        self.start_sector
    }

    /// The sector the outputs continue at.
    pub fn write_start_sector(&self) -> (r: u32)
        ensures
            r == self@.write_start_sector,
    {
        self.write_start_sector
    }

    /// Turns hashing on or off.
    pub fn set_hashing(&mut self, on: bool)
        requires
            old(self).wf(),
        ensures
            final(self).wf(),
            final(self)@ == (DumperView { hashing: on, ..old(self)@ }),
    {
        self.hashing = on;
    }

    /// Turns flushing on or off.
    pub fn set_flushing(&mut self, on: bool)
        requires
            old(self).wf(),
        ensures
            final(self).wf(),
            final(self)@ == (DumperView { flushing: on, ..old(self)@ }),
    {
        self.flushing = on;
    }

    /// Forces the start sector.
    pub fn set_start_sector(&mut self, s: u32)
        requires
            old(self).wf(),
        ensures
            final(self).wf(),
            final(self)@ == (DumperView { forced_start: Some(s), ..old(self)@ }),
    {
        self.forced_start = Some(s);
    }

    /// Forces the end sector (not dumped itself).
    pub fn set_end_sector(&mut self, e: u32)
        requires
            old(self).wf(),
        ensures
            final(self).wf(),
            final(self)@ == (DumperView { forced_end: Some(e), ..old(self)@ }),
    {
        self.forced_end = Some(e);
    }

    /// Sets where the dump starts from the starts of the outputs (`None` for
    /// an output that is not written); an error without any output.
    pub fn plan(&mut self, raw_start: Option<u32>, iso_start: Option<u32>) -> (r: Result<()>)
        requires
            old(self).wf(),
        ensures
            final(self).wf(),
            match planned_start(raw_start, iso_start, old(self)@.forced_start) {
                Some((s, w)) => r is Ok && final(self)@ == (DumperView { start_sector: s, write_start_sector: w, ..old(self)@ }),
                None => (r matches Err(e) && e is InvalidArgument) && final(self)@ == old(self)@,
            },
    {
        let start = match (raw_start, iso_start) {
            (Some(a), Some(b)) => if a <= b {
                a
            } else {
                b
            },
            (Some(a), None) => a,
            (None, Some(b)) => b,
            (None, None) => {
                return Err(Error::InvalidArgument(String::from_str("no output file")));
            },
        };
        match self.forced_start {
            Some(fs) => {
                self.start_sector = fs;
                self.write_start_sector = 0;
            },
            None => {
                self.start_sector = start;
                self.write_start_sector = start;
            },
        }
        Ok(())
    }

    /// Moves the start back to the sector recorded in the journal of a
    /// resumed dump; without a forced start the outputs are cut back to it
    /// too (the write start follows).
    pub fn apply_journal(&mut self, journal: Option<u32>)
        requires
            old(self).wf(),
        ensures
            final(self).wf(),
            ({
                let s = journal_start(old(self)@.start_sector, journal);
                final(self)@ == (DumperView {
                    start_sector: s,
                    write_start_sector: if old(self)@.forced_start is None && s != old(self)@.start_sector {
                        s
                    } else {
                        old(self)@.write_start_sector
                    },
                    ..old(self)@
                })
            }),
    {
        match journal {
            Some(j) => {
                if j > 0 && j < self.start_sector {
                    self.start_sector = j / 16 * 16;
                    if self.forced_start.is_none() {
                        self.write_start_sector = self.start_sector;
                    }
                }
            },
            None => {},
        }
    }

    /// Starts the hashes of both outputs (if hashing is on).
    pub fn begin_hashing(&mut self)
        requires
            old(self).wf(),
        ensures
            final(self).wf(),
            old(self)@.hashing ==> final(self)@ == (DumperView {
                raw_fed: Some(Seq::<u8>::empty()),
                iso_fed: Some(Seq::<u8>::empty()),
                ..old(self)@
            }),
            !old(self)@.hashing ==> final(self)@ == old(self)@,
    {
        if self.hashing {
            self.hash_raw = Some(Tally::new());
            self.hash_iso = Some(Tally::new());
        }
    }

    /// Whether the sectors already in the outputs are hashed before a
    /// resumed dump goes on: hashing is on, the start is not forced and the
    /// dump does not start at sector 0.
    pub fn rehashes_existing(&self, resume: bool) -> (r: bool)
        ensures
            r == (self@.hashing && self@.forced_start is None && resume && self@.start_sector > 0),
    {
        self.hashing && self.forced_start.is_none() && resume && self.start_sector > 0
    }

    /// Adds bytes written to (or already in) the raw output to its hash.
    pub fn absorb_raw(&mut self, data: &[u8]) -> (r: Result<()>)
        requires
            old(self).wf(),
        ensures
            final(self).wf(),
            match old(self)@.raw_fed {
                Some(f) => if f.len() + data@.len() <= u64::MAX {
                    r is Ok && final(self)@ == (DumperView { raw_fed: Some(f + data@), ..old(self)@ })
                } else {
                    r is Err && final(self)@ == old(self)@
                },
                None => r is Ok && final(self)@ == old(self)@,
            },
    {
        match &mut self.hash_raw {
            Some(t) => t.absorb(data),
            None => Ok(()),
        }
    }

    /// Adds bytes written to (or already in) the ISO output to its hash.
    pub fn absorb_iso(&mut self, data: &[u8]) -> (r: Result<()>)
        requires
            old(self).wf(),
        ensures
            final(self).wf(),
            match old(self)@.iso_fed {
                Some(f) => if f.len() + data@.len() <= u64::MAX {
                    r is Ok && final(self)@ == (DumperView { iso_fed: Some(f + data@), ..old(self)@ })
                } else {
                    r is Err && final(self)@ == old(self)@
                },
                None => r is Ok && final(self)@ == old(self)@,
            },
    {
        match &mut self.hash_iso {
            Some(t) => t.absorb(data),
            None => Ok(()),
        }
    }

    /// The last sector to dump on a disc of `sectors_no` sectors (`None`
    /// when there is none to dump); an error for a disc of unknown size.
    pub fn last_sector(&self, sectors_no: u32) -> (r: Result<Option<u32>>)
        ensures
            match last_sector_of(sectors_no, self@.forced_end) {
                Some(l) => r == Ok::<Option<u32>, Error>(l),
                None => r matches Err(e) && e is Other,
            },
    {
        if sectors_no == 0 {
            return Err(Error::Other(String::from_str("the number of sectors is unknown")));
        }
        match self.forced_end {
            Some(e) => if e <= sectors_no {
                if e == 0 {
                    Ok(None)
                } else {
                    Ok(Some(e - 1))
                }
            } else {
                Ok(Some(sectors_no - 1))
            },
            None => Ok(Some(sectors_no - 1)),
        }
    }

    /// Ends the hashes: the digests of each hashed output become available.
    pub fn finish(&mut self)
        requires
            old(self).wf(),
        ensures
            final(self).wf(),
            final(self)@.raw_fed is None,
            final(self)@.iso_fed is None,
            final(self)@.hashing == old(self)@.hashing,
            final(self)@.flushing == old(self)@.flushing,
            final(self)@.forced_start == old(self)@.forced_start,
            final(self)@.forced_end == old(self)@.forced_end,
            final(self)@.start_sector == old(self)@.start_sector,
            final(self)@.write_start_sector == old(self)@.write_start_sector,
            match old(self)@.raw_fed {
                Some(f) => final(self)@.raw_done matches Some(d) && digests_of(d, f),
                None => final(self)@.raw_done == old(self)@.raw_done,
            },
            match old(self)@.iso_fed {
                Some(f) => final(self)@.iso_done matches Some(d) && digests_of(d, f),
                None => final(self)@.iso_done == old(self)@.iso_done,
            },
    {
        let raw = self.hash_raw.take();
        match raw {
            Some(t) => {
                self.hash_raw_done = Some(t.hash.finish());
            },
            None => {},
        }
        let iso = self.hash_iso.take();
        match iso {
            Some(t) => {
                self.hash_iso_done = Some(t.hash.finish());
            },
            None => {},
        }
    }

    /// The digests of the raw output, once the dump is finished.
    pub fn raw_digests(&self) -> (r: Option<&Digests>)
        ensures
            match self@.raw_done {
                Some(d) => r matches Some(x) && *x == d,
                None => r is None,
            },
    {
        self.hash_raw_done.as_ref()
    }

    /// The digests of the ISO output, once the dump is finished.
    pub fn iso_digests(&self) -> (r: Option<&Digests>)
        ensures
            match self@.iso_done {
                Some(d) => r matches Some(x) && *x == d,
                None => r is None,
            },
    {
        self.hash_iso_done.as_ref()
    }
}

/// The bytes of `frames` one after the other.
pub open spec fn frames_concat(frames: Seq<Seq<u8>>) -> Seq<u8>
    decreases frames.len(),
{
    if frames.len() == 0 {
        Seq::empty()
    } else {
        frames_concat(frames.drop_last()) + frames.last()
    }
}

/// Frames of `n` bytes each make `n` bytes per frame.
proof fn lemma_concat_len(frames: Seq<Seq<u8>>, n: nat)
    requires
        forall|k: int| 0 <= k < frames.len() ==> (#[trigger] frames[k]).len() == n,
    ensures
        frames_concat(frames).len() == n * frames.len(),
    decreases frames.len(),
{
    if frames.len() > 0 {
        lemma_concat_len(frames.drop_last(), n);
        assert(frames.last() == frames[frames.len() - 1]);
        assert(n * (frames.len() - 1) + n == n * frames.len()) by (nonlinear_arith);
    }
}

/// What a hash that had absorbed `f0` (if it runs) has absorbed once
/// `bytes` were written to its output (`on`) or not.
pub open spec fn fed_after(f0: Option<Seq<u8>>, on: bool, bytes: Seq<u8>) -> Option<Seq<u8>> {
    match f0 {
        Some(f) => Some(if on { f + bytes } else { f }),
        None => None,
    }
}

/// What the caller does after a sector of a dump: write the raw frame and
/// the ISO sector to the outputs that exist, flush them, report the
/// progress and write the journal.
pub struct SectorStep {
    /// The raw frame is written to the raw output.
    pub write_raw: bool,
    /// The ISO sector is written to the ISO output.
    pub write_iso: bool,
    /// The outputs are flushed.
    pub flush: bool,
    /// The progress report `(start, sectors_done, total_sectors)`, if one
    /// is due.
    pub progress: Option<(bool, u32, u32)>,
    /// The sector to record in the journal, if it is written.
    pub journal: Option<u32>,
}

/// The step of a dump after sector `i` of a dump that ends at `last` on a
/// disc of `sectors_no` sectors.
pub open spec fn sector_step(i: u32, last: u32, sectors_no: u32, raw_out: bool, iso_out: bool, flushing: bool) -> SectorStep {
    SectorStep {
        write_raw: raw_out,
        write_iso: iso_out,
        flush: progress_point(i, last) && flushing,
        progress: if progress_point(i, last) {
            Some((false, (i + 1) as u32, sectors_no))
        } else {
            None
        },
        journal: if journal_point(i, last) {
            Some((i + 1) as u32)
        } else {
            None
        },
    }
}

/// A dump in progress: the sectors from the start sector to the last one
/// are read in order, each raw frame and ISO sector hashed for the outputs
/// that are written.
pub struct DumpRun {
    dumper: Dumper,
    sectors_no: u32,
    last: u32,
    next: u32,
    active: bool,
    failed: bool,
    raw_out: bool,
    iso_out: bool,
    settings: Ghost<DumperView>,
    first: Ghost<u32>,
    raw_frames: Ghost<Seq<Seq<u8>>>,
    iso_frames: Ghost<Seq<Seq<u8>>>,
}

/// The state of a dump in progress.
pub struct DumpRunView {
    /// The dumper's state when the dump began.
    pub settings: DumperView,
    /// The number of sectors of the disc.
    pub sectors_no: u32,
    /// The last sector to dump.
    pub last: u32,
    /// The first sector dumped.
    pub first: u32,
    /// The next sector to dump.
    pub next: u32,
    /// Whether a sector is left to dump.
    pub active: bool,
    /// Whether a sector failed (which ends the dump).
    pub failed: bool,
    /// Whether the raw output is written.
    pub raw_out: bool,
    /// Whether the ISO output is written.
    pub iso_out: bool,
    /// The raw frames of the sectors dumped so far, in order.
    pub raw_frames: Seq<Seq<u8>>,
    /// The ISO sectors of the sectors dumped so far, in order.
    pub iso_frames: Seq<Seq<u8>>,
}

impl View for DumpRun {
    type V = DumpRunView;

    closed spec fn view(&self) -> DumpRunView {
        DumpRunView {
            settings: self.settings@,
            sectors_no: self.sectors_no,
            last: self.last,
            first: self.first@,
            next: self.next,
            active: self.active,
            failed: self.failed,
            raw_out: self.raw_out,
            iso_out: self.iso_out,
            raw_frames: self.raw_frames@,
            iso_frames: self.iso_frames@,
        }
    }
}

impl DumpRun {
    /// The sectors dumped so far are those from the first one on, in order;
    /// unless a sector failed, the hashes have absorbed exactly what was
    /// written to the outputs after what they held when the dump began.
    pub closed spec fn wf(&self) -> bool {
        &&& self.dumper.wf()
        &&& self.first@ <= self.next
        &&& self.raw_frames@.len() == self.next - self.first@
        &&& self.iso_frames@.len() == self.next - self.first@
        &&& self.last < 0xFFFF_FFFF
        &&& self.active ==> self.next <= self.last && !self.failed
        &&& (!self.active && !self.failed && self.raw_frames@.len() > 0) ==> self.next == self.last + 1
        &&& forall|k: int| 0 <= k < self.raw_frames@.len() ==> (#[trigger] self.raw_frames@[k]).len() == 2064
        &&& forall|k: int| 0 <= k < self.iso_frames@.len() ==> (#[trigger] self.iso_frames@[k]).len() == 2048
        &&& self.dumper@ == (DumperView {
            raw_fed: self.dumper@.raw_fed,
            iso_fed: self.dumper@.iso_fed,
            ..self.settings@
        })
        &&& !self.failed ==> self.dumper@.raw_fed == fed_after(self.settings@.raw_fed, self.raw_out, frames_concat(self.raw_frames@))
        &&& !self.failed ==> self.dumper@.iso_fed == fed_after(self.settings@.iso_fed, self.iso_out, frames_concat(self.iso_frames@))
    }

    /// A dump holds one raw frame of 2064 bytes and one ISO sector of 2048
    /// bytes for each sector from the first one up to the next one, in
    /// order; once it ended without a failure after some sector, that
    /// sector was the last one.
    pub proof fn lemma_frames(&self)
        requires
            self.wf(),
        ensures
            self@.first <= self@.next,
            self@.raw_frames.len() == self@.next - self@.first,
            self@.iso_frames.len() == self@.next - self@.first,
            frames_concat(self@.raw_frames).len() == 2064 * self@.raw_frames.len(),
            frames_concat(self@.iso_frames).len() == 2048 * self@.iso_frames.len(),
            (!self@.active && !self@.failed && self@.raw_frames.len() > 0) ==> self@.next == self@.last + 1,
    {
        lemma_concat_len(self@.raw_frames, 2064);
        lemma_concat_len(self@.iso_frames, 2048);
    }

    /// Begins the dump of a disc of `sectors_no` sectors with `dumper`,
    /// writing the raw output (`raw_out`) and the ISO output (`iso_out`);
    /// returns the run and its first progress report. An error for a disc
    /// of unknown size.
    pub fn new(dumper: Dumper, sectors_no: u32, raw_out: bool, iso_out: bool) -> (r: Result<(DumpRun, (bool, u32, u32))>)
        requires
            dumper.wf(),
        ensures
            match last_sector_of(sectors_no, dumper@.forced_end) {
                Some(l) => r matches Ok((run, p)) && {
                    &&& run.wf()
                    &&& run@.settings == dumper@
                    &&& run@.sectors_no == sectors_no
                    &&& run@.first == dumper@.start_sector
                    &&& run@.next == dumper@.start_sector
                    &&& run@.active == (l matches Some(x) && dumper@.start_sector <= x)
                    &&& (l matches Some(x) ==> run@.last == x)
                    &&& !run@.failed
                    &&& run@.raw_out == raw_out
                    &&& run@.iso_out == iso_out
                    &&& run@.raw_frames.len() == 0
                    &&& run@.iso_frames.len() == 0
                    &&& p == (true, dumper@.start_sector, sectors_no)
                },
                None => r matches Err(e) && e is Other,
            },
    {
        let last = match dumper.last_sector(sectors_no) {
            Ok(l) => l,
            Err(e) => return Err(e),
        };
        let start = dumper.start_sector();
        let (l, active) = match last {
            Some(x) => (x, start <= x),
            None => (0u32, false),
        };
        let ghost settings = dumper@;
        let ghost empty: Seq<Seq<u8>> = Seq::empty();
        assert(frames_concat(empty) =~= Seq::<u8>::empty());
        assert(settings.raw_fed == fed_after(settings.raw_fed, raw_out, Seq::<u8>::empty()));
        assert(settings.iso_fed == fed_after(settings.iso_fed, iso_out, Seq::<u8>::empty()));
        let run = DumpRun {
            dumper,
            sectors_no,
            last: l,
            next: start,
            active,
            failed: false,
            raw_out,
            iso_out,
            settings: Ghost(settings),
            first: Ghost(start),
            raw_frames: Ghost(empty),
            iso_frames: Ghost(empty),
        };
        Ok((run, (true, start, sectors_no)))
    }

    /// The next sector to dump (the one that failed, after a failure).
    pub fn next_sector_no(&self) -> (r: u32)
        ensures
            r == self@.next,
    {
        self.next
    }

    /// Dumps the next sector: reads it (through the block cache of `disc`)
    /// into `iso` and `raw` and hashes them for the outputs that are
    /// written; returns what the caller does next, or `None` once every
    /// sector was dumped. An error (of the read, or of a hash past 2^64 - 1
    /// bytes) ends the dump.
    pub fn next_step<D: ScsiDevice>(&mut self, disc: &mut Disc<D>, iso: &mut [u8; 2048], raw: &mut [u8; 2064]) -> (r: Result<Option<SectorStep>>)
        requires
            old(self).wf(),
            old(disc).wf(),
        ensures
            final(self).wf(),
            final(disc).wf(),
            same_disc_settings(*final(disc), *old(disc)),
            final(self)@.settings == old(self)@.settings,
            final(self)@.sectors_no == old(self)@.sectors_no,
            final(self)@.last == old(self)@.last,
            final(self)@.first == old(self)@.first,
            final(self)@.raw_out == old(self)@.raw_out,
            final(self)@.iso_out == old(self)@.iso_out,
            !old(self)@.active ==> (r matches Ok(None) && final(self)@ == old(self)@ && *final(disc) == *old(disc)),
            old(self)@.active ==> ({
                let i = old(self)@.next;
                let v = old(self)@;
                &&& r matches Err(_) ==> {
                    &&& final(self)@.failed
                    &&& !final(self)@.active
                    &&& final(self)@.next == i
                    &&& final(self)@.raw_frames == v.raw_frames
                    &&& final(self)@.iso_frames == v.iso_frames
                }
                &&& r matches Ok(p) ==> {
                    &&& p == Some(sector_step(i, v.last, v.sectors_no, v.raw_out, v.iso_out, v.settings.flushing))
                    &&& cached(final(disc).cache@, i / 16) matches Some((d, w)) && {
                        let k = (i % 16) as int;
                        &&& final(iso)@ == d.subrange(k * 2048, k * 2048 + 2048)
                        &&& final(raw)@ == w.subrange(k * 2064, k * 2064 + 2064)
                    }
                    &&& final(self)@.raw_frames == v.raw_frames.push(final(raw)@)
                    &&& final(self)@.iso_frames == v.iso_frames.push(final(iso)@)
                    &&& final(self)@.next == i + 1
                    &&& final(self)@.active == (i < v.last)
                    &&& !final(self)@.failed
                }
            }),
    {
        if !self.active {
            return Ok(None);
        }
        let i = self.next;
        match fetch_sector(disc, i, iso, raw) {
            Ok(()) => {},
            Err(e) => {
                self.active = false;
                self.failed = true;
                return Err(e);
            },
        }
        if self.raw_out {
            match self.dumper.absorb_raw(raw) {
                Ok(()) => {},
                Err(e) => {
                    self.active = false;
                    self.failed = true;
                    return Err(e);
                },
            }
        }
        if self.iso_out {
            match self.dumper.absorb_iso(iso) {
                Ok(()) => {},
                Err(e) => {
                    self.active = false;
                    self.failed = true;
                    return Err(e);
                },
            }
        }
        proof {
            let rf = self.raw_frames@.push(raw@);
            let isf = self.iso_frames@.push(iso@);
            assert(rf.drop_last() =~= self.raw_frames@);
            assert(isf.drop_last() =~= self.iso_frames@);
            assert(frames_concat(rf) == frames_concat(self.raw_frames@) + raw@);
            assert(frames_concat(isf) == frames_concat(self.iso_frames@) + iso@);
            match self.settings@.raw_fed {
                Some(f) => {
                    assert(f + frames_concat(rf) =~= f + frames_concat(self.raw_frames@) + raw@);
                },
                None => {},
            }
            match self.settings@.iso_fed {
                Some(f) => {
                    assert(f + frames_concat(isf) =~= f + frames_concat(self.iso_frames@) + iso@);
                },
                None => {},
            }
        }
        self.raw_frames = Ghost(self.raw_frames@.push(raw@));
        self.iso_frames = Ghost(self.iso_frames@.push(iso@));
        self.next = i + 1;
        self.active = i < self.last;
        let progress = progress_due(i, self.last);
        let step = SectorStep {
            write_raw: self.raw_out,
            write_iso: self.iso_out,
            flush: progress && self.dumper.flushing(),
            progress: if progress {
                Some((false, i + 1, self.sectors_no))
            } else {
                None
            },
            journal: if journal_due(i, self.last) {
                Some(i + 1)
            } else {
                None
            },
        };
        Ok(Some(step))
    }

    /// Ends the dump: the digests of each hashed output become available
    /// in the dumper that is handed back. Unless a sector failed, they are
    /// the digests of what the output held when the dump began followed by
    /// what the dump wrote to it.
    pub fn finish(self) -> (d: Dumper)
        requires
            self.wf(),
        ensures
            d.wf(),
            d@.raw_fed is None,
            d@.iso_fed is None,
            d@.hashing == self@.settings.hashing,
            d@.flushing == self@.settings.flushing,
            d@.forced_start == self@.settings.forced_start,
            d@.forced_end == self@.settings.forced_end,
            d@.start_sector == self@.settings.start_sector,
            d@.write_start_sector == self@.settings.write_start_sector,
            !self@.failed ==> match fed_after(self@.settings.raw_fed, self@.raw_out, frames_concat(self@.raw_frames)) {
                Some(f) => (d@.raw_done matches Some(x) && digests_of(x, f)),
                None => d@.raw_done == self@.settings.raw_done,
            },
            !self@.failed ==> match fed_after(self@.settings.iso_fed, self@.iso_out, frames_concat(self@.iso_frames)) {
                Some(f) => (d@.iso_done matches Some(x) && digests_of(x, f)),
                None => d@.iso_done == self@.settings.iso_done,
            },
    {
        let mut d = self.dumper;
        d.finish();
        d
    }
}

/// Reads sector `i` (through the block cache) and copies its 2048 bytes of
/// data to `iso` and its 2064-byte raw frame to `raw`.
pub fn fetch_sector<D: ScsiDevice>(disc: &mut Disc<D>, i: u32, iso: &mut [u8; 2048], raw: &mut [u8; 2064]) -> (r: Result<()>)
    requires
        old(disc).wf(),
    ensures
        final(disc).wf(),
        same_disc_settings(*final(disc), *old(disc)),
        cached(old(disc).cache@, i / 16) is Some ==> r is Ok,
        r is Ok ==> (cached(final(disc).cache@, i / 16) matches Some((d, w)) && {
            let k = (i % 16) as int;
            &&& final(iso)@ == d.subrange(k * 2048, k * 2048 + 2048)
            &&& final(raw)@ == w.subrange(k * 2064, k * 2064 + 2064)
        }),
{
    match disc.read_sector(i) {
        Ok(()) => {},
        Err(e) => {
            return Err(e);
        },
    }
    let w = (i % 16) as usize;
    match disc.sector(i) {
        Some((d, r)) => {
            let mut k: usize = 0;
            while k < 2048
                invariant
                    k <= 2048,
                    w < 16,
                    d@.len() == 32768,
                    forall|m: int| 0 <= m < k ==> #[trigger] iso@[m] == d@[w * 2048 + m],
                decreases 2048 - k,
            {
                iso[k] = d[w * 2048 + k];
                k = k + 1;
            }
            let mut k: usize = 0;
            while k < 2064
                invariant
                    k <= 2064,
                    w < 16,
                    r@.len() == 33024,
                    forall|m: int| 0 <= m < k ==> #[trigger] raw@[m] == r@[w * 2064 + m],
                decreases 2064 - k,
            {
                raw[k] = r[w * 2064 + k];
                k = k + 1;
            }
            assert(iso@ =~= d@.subrange(w * 2048, w * 2048 + 2048));
            assert(raw@ =~= r@.subrange(w * 2064, w * 2064 + 2064));
            Ok(())
        },
        None => Err(Error::Other(String::from_str("the sector is not in the cache"))),
    }
}

} // verus!
