//! The DVD drive: issues commands to a `ScsiDevice`, identifies the model by
//! INQUIRY and assigns its characteristics (memory dump, E7 base, default
//! read method).

use vstd::prelude::*;
use crate::bytes::be_u32;
use crate::drive::device::{ScsiDevice, ScsiOutcome};
use crate::drive::mmc;
use crate::drive::profile::{first_profile, lookup, profile_table, MemdumpKind, ReadFamily};
use crate::error::{Error, Result};
use crate::text::{push_char, string_of, trim_ws, trim_chars};

verus! {

/// E7 base address of the Hitachi MN103S drives (GCC-4160N/4240N).
pub const MN103S_MEM_BASE: u32 = 0xA13000;

/// E7 base address of the older Hitachi MN103 drives.
pub const HITACHI_MEM_BASE: u32 = 0x80000000;

/// A DVD drive.
pub struct DvdDrive<D: ScsiDevice> {
    /// The device that executes the commands.
    pub device: D,
    /// INQUIRY vendor.
    pub vendor: String,
    /// INQUIRY product ID.
    pub prod_id: String,
    /// INQUIRY product revision.
    pub prod_rev: String,
    /// `vendor/prod_id/prod_rev`, for display.
    pub model: String,
    /// Memory dump kind.
    pub memdump_kind: MemdumpKind,
    /// E7 base address.
    pub mem_base: u32,
    /// Read family.
    pub family: ReadFamily,
    /// Default read method.
    pub def_method: u32,
    /// Memory dump command forced by the user (-1 if none).
    pub command: i64,
    /// Whether the drive is a known model.
    pub supported: bool,
    /// The command blocks handed to the device so far, in order.
    pub sent: Ghost<Seq<Seq<u8>>>,
    /// What the device returned for each of those commands, in order.
    pub answers: Ghost<Seq<DeviceAnswer>>,
}

/// What the device returned for one command: the command block, the length
/// of the data buffer it was handed, its result and the content of the
/// buffer afterwards.
pub struct DeviceAnswer {
    pub cdb: Seq<u8>,
    pub buf_len: nat,
    pub result: Result<ScsiOutcome>,
    pub reply: Seq<u8>,
}

/// The result of a command that only hands on the device's answer: `Ok`
/// whenever the device returned an outcome (failed or not), its error
/// otherwise.
pub open spec fn passed_on(a: DeviceAnswer) -> Result<()> {
    match a.result {
        Ok(_) => Ok(()),
        Err(e) => Err(e),
    }
}

/// `d1` is `d0` after one more command: its answer, with the command block
/// last sent, was added at the end.
pub open spec fn one_more_answer<D: ScsiDevice>(d0: DvdDrive<D>, d1: DvdDrive<D>) -> bool {
    &&& d1.answers@.len() == d0.answers@.len() + 1
    &&& d1.answers@.drop_last() == d0.answers@
    &&& d1.answers@.last().cdb == d1.sent@.last()
}

/// The result of READ DVD STRUCTURE given the raw end sector of layer 0,
/// `v`: 0 for one layer, else the count of sectors of layer 0; an end
/// sector below 0x30000 cannot be one and is an `Other` error.
pub open spec fn layerbreak_result(v: u32, r: Result<u32>) -> bool {
    &&& (0 < v < 0x30000) ==> (r matches Err(e) && e is Other)
    &&& v == 0 ==> r == Ok::<u32, Error>(0)
    &&& v >= 0x30000 ==> r == Ok::<u32, Error>((v - 0x30000 + 1) as u32)
}

/// The layer break decoded from the answer `a` to READ DVD STRUCTURE, as
/// `get_layerbreak` returns it: none for an error of the device or an end
/// sector of layer 0 that cannot be one.
pub open spec fn layerbreak_of(a: DeviceAnswer) -> Option<u32> {
    match a.result {
        Err(_) => None,
        Ok(_) => {
            let v = mmc::raw_layerbreak(a.reply);
            if v == 0 {
                Some(0u32)
            } else if v >= 0x30000 {
                Some((v - 0x30000 + 1) as u32)
            } else {
                None
            }
        },
    }
}

/// The number of sectors in the answer `a` to READ CAPACITY, as `get_size`
/// returns it: none for an error of the device.
pub open spec fn size_of(a: DeviceAnswer) -> Option<u32> {
    match a.result {
        Err(_) => None,
        Ok(_) => Some(be_u32(a.reply[0x18], a.reply[0x19], a.reply[0x1A], a.reply[0x1B])),
    }
}

/// The command block of block `i` of a memory dump of `block_size`-byte
/// blocks at `offset`: E7 (`e7`) at address `base + offset + i * block_size`,
/// otherwise READ BUFFER at `offset + i * block_size` (32-bit wrapping).
pub open spec fn memdump_cdb(e7: bool, base: u32, offset: u32, i: u32, block_size: u32) -> Seq<u8> {
    let step = vstd::wrapping::u32_specs::wrapping_mul(i, block_size);
    if e7 {
        mmc::e7_memdump_cdb(
            vstd::wrapping::u32_specs::wrapping_add(vstd::wrapping::u32_specs::wrapping_add(base, offset), step),
            block_size as u16,
        )
    } else {
        mmc::read_buffer_vanilla2064_cdb(vstd::wrapping::u32_specs::wrapping_add(offset, step), block_size)
    }
}

/// The command blocks of the first `n` blocks of a memory dump.
pub open spec fn memdump_cdbs(e7: bool, base: u32, offset: u32, n: int, block_size: u32) -> Seq<Seq<u8>> {
    Seq::new(n as nat, |i: int| memdump_cdb(e7, base, offset, i as u32, block_size))
}

/// The command that dumps `n` bytes of the drive's memory at `offset` with
/// the dump of `kind` (none for the kinds that cannot dump).
pub open spec fn dump_cdb(kind: MemdumpKind, offset: u32, n: u32) -> Seq<u8> {
    match kind {
        MemdumpKind::HitachiMn103s => memdump_cdb(true, MN103S_MEM_BASE, offset, 0, n),
        MemdumpKind::Hitachi => memdump_cdb(true, HITACHI_MEM_BASE, offset, 0, n),
        MemdumpKind::Vanilla2064 => memdump_cdb(false, 0, offset, 0, n),
        _ => Seq::empty(),
    }
}

/// `a` answers the command `cdb` with a buffer of `n` bytes, which the device
/// filled, reporting no failure.
pub open spec fn answered(a: DeviceAnswer, cdb: Seq<u8>, n: nat) -> bool {
    &&& a.cdb == cdb
    &&& a.buf_len == n
    &&& a.reply.len() == n
    &&& a.result matches Ok(o) && !o.failed
}

/// The memory dump kind after applying the forced command `command`.
pub open spec fn memdump_for_command(command: i64, k: MemdumpKind) -> MemdumpKind {
    if command == 0 {
        MemdumpKind::Vanilla2064
    } else if command == 1 {
        MemdumpKind::Vanilla2384
    } else if command == 2 {
        MemdumpKind::Hitachi
    } else if command == 3 {
        MemdumpKind::LiteOn
    } else if command == 4 {
        MemdumpKind::Renesas
    } else {
        k
    }
}

/// The characteristics assigned to a drive: those of its profile, or the
/// defaults of an unknown drive; a forced command overrides the memory dump.
pub open spec fn assigned<D: ScsiDevice>(d: DvdDrive<D>, vendor: Seq<char>, prod_id: Seq<char>) -> bool {
    match first_profile(profile_table(), vendor, prod_id) {
        Some(p) => {
            &&& d.memdump_kind == memdump_for_command(d.command, p.memdump)
            &&& d.mem_base == p.mem_base
            &&& d.family == p.family
            &&& d.def_method == p.def_method
            &&& d.supported
        },
        None => {
            &&& d.memdump_kind == memdump_for_command(d.command, MemdumpKind::Vanilla2064)
            &&& d.mem_base == 0
            &&& d.family == ReadFamily::Default
            &&& d.def_method == 0
            &&& !d.supported
        },
    }
}

/// The characters of INQUIRY bytes: printable ASCII is kept, anything else
/// becomes a space.
pub open spec fn printable_chars(b: Seq<u8>) -> Seq<char> {
    b.map_values(|x: u8| if 0x20 <= x < 0x7f { x as char } else { ' ' })
}

/// The INQUIRY field of bytes `lo..hi`, trimmed.
pub open spec fn inquiry_field(b: Seq<u8>, lo: int, hi: int) -> Seq<char> {
    trim_ws(printable_chars(b.subrange(lo, hi)))
}

/// The identification of `d` comes from the INQUIRY answer `b`.
pub open spec fn identified<D: ScsiDevice>(d: DvdDrive<D>, b: Seq<u8>) -> bool {
    &&& d.vendor@ == inquiry_field(b, 8, 16)
    &&& d.prod_id@ == inquiry_field(b, 16, 32)
    &&& d.prod_rev@ == inquiry_field(b, 32, 36)
    &&& d.model@ == d.vendor@ + seq!['/'] + d.prod_id@ + seq!['/'] + d.prod_rev@
    &&& assigned(d, d.vendor@, d.prod_id@)
}

/// The settings of `a` and `b` other than the device are the same.
pub open spec fn same_settings<D: ScsiDevice>(a: DvdDrive<D>, b: DvdDrive<D>) -> bool {
    &&& a.vendor@ == b.vendor@
    &&& a.prod_id@ == b.prod_id@
    &&& a.prod_rev@ == b.prod_rev@
    &&& a.model@ == b.model@
    &&& a.memdump_kind == b.memdump_kind
    &&& a.mem_base == b.mem_base
    &&& a.family == b.family
    &&& a.def_method == b.def_method
    &&& a.command == b.command
    &&& a.supported == b.supported
}

/// The INQUIRY bytes `lo..hi` turned into a trimmed string.
fn trim_ascii(b: &[u8; 36], lo: usize, hi: usize) -> (s: String)
    requires
        lo <= hi <= 36,
    ensures
        s@ == inquiry_field(b@, lo as int, hi as int),
{
    let mut v: Vec<char> = Vec::new();
    let mut i: usize = lo;
    while i < hi
        invariant
            lo <= i <= hi <= 36,
            v@ =~= printable_chars(b@.subrange(lo as int, i as int)),
        decreases hi - i,
    {
        let x = b[i];
        let c: char = if x >= 0x20 && x < 0x7f {
            x as char
        } else {
            ' '
        };
        v.push(c);
        i = i + 1;
    }
    let t = trim_chars(v.as_slice());
    string_of(t.as_slice())
}

/// Appends the characters of `t` to `s`.
fn push_str(s: &mut String, t: &String)
    ensures
        final(s)@ == old(s)@ + t@,
{
    s.append(t.as_str());
}

impl<D: ScsiDevice> DvdDrive<D> {
    /// A drive on `device`, not yet identified, with the forced memory dump
    /// command `command` (-1 for none).
    pub fn new(device: D, command: i64) -> (d: Self)
        ensures
            d.device == device,
            d.vendor@.len() == 0,
            d.prod_id@.len() == 0,
            d.prod_rev@.len() == 0,
            d.model@.len() == 0,
            d.memdump_kind == MemdumpKind::Vanilla2064,
            d.mem_base == 0,
            d.family == ReadFamily::Default,
            d.def_method == 0,
            d.command == command,
            !d.supported,
            d.sent@ == Seq::<Seq<u8>>::empty(),
            d.answers@ == Seq::<DeviceAnswer>::empty(),
    {
        DvdDrive {
            device,
            vendor: String::new(),
            prod_id: String::new(),
            prod_rev: String::new(),
            model: String::new(),
            memdump_kind: MemdumpKind::Vanilla2064,
            mem_base: 0,
            family: ReadFamily::Default,
            def_method: 0,
            command,
            supported: false,
            sent: Ghost(Seq::empty()),
            answers: Ghost(Seq::empty()),
        }
    }

    /// Hands `cmd` to the device with the buffer `data`, recording the
    /// command block and what the device returned.
    fn run(&mut self, cmd: &mmc::Command, data: &mut [u8]) -> (r: Result<ScsiOutcome>)
        ensures
            same_settings(*final(self), *old(self)),
            final(self).sent@ == old(self).sent@.push(cmd.cdb@),
            final(self).answers@ == old(self).answers@.push(DeviceAnswer {
                cdb: cmd.cdb@,
                buf_len: old(data)@.len(),
                result: r,
                reply: final(data)@,
            }),
    {
        let ghost len = data@.len();
        self.sent = Ghost(self.sent@.push(cmd.cdb@));
        let r = self.device.execute(cmd, data);
        self.answers = Ghost(self.answers@.push(DeviceAnswer { cdb: cmd.cdb@, buf_len: len, result: r, reply: data@ }));
        r
    }

    /// Issues INQUIRY, keeps the vendor, product ID and revision and assigns
    /// the characteristics of the model.
    pub fn inquiry(&mut self) -> (r: Result<()>)
        ensures
            final(self).command == old(self).command,
            final(self).sent@ == old(self).sent@.push(mmc::inquiry_cdb(36)),
            one_more_answer(*old(self), *final(self)),
            ({
                let a = final(self).answers@.last();
                &&& a.buf_len == 36
                &&& a.reply.len() == 36
                &&& a.result matches Err(e) ==> r == Err::<(), Error>(e) && same_settings(*final(self), *old(self))
                &&& (a.result matches Ok(o) && o.failed) ==> (r matches Err(e) && e is Other) && same_settings(*final(self), *old(self))
                &&& (a.result matches Ok(o) && !o.failed) ==> r is Ok && identified(*final(self), a.reply)
            }),
    {
        let cmd = mmc::inquiry(36);
        let mut buf = [0u8; 36];
        let res = self.run(&cmd, &mut buf);
        assert(self.answers@.drop_last() =~= old(self).answers@);
        let r = self.inquiry_result(res, &buf);
        r
    }

    /// The end of INQUIRY given what the device returned, `outcome`, and its
    /// reply `reply`: an error of the device is passed on; a command that
    /// failed is an error and changes nothing; otherwise the drive is
    /// identified from the reply.
    pub fn inquiry_result(&mut self, outcome: Result<ScsiOutcome>, reply: &[u8; 36]) -> (r: Result<()>)
        ensures
            outcome matches Err(e) ==> r == Err::<(), Error>(e) && *final(self) == *old(self),
            (outcome matches Ok(o) && o.failed) ==> (r matches Err(e) && e is Other) && *final(self) == *old(self),
            (outcome matches Ok(o) && !o.failed) ==> {
                &&& r is Ok
                &&& identified(*final(self), reply@)
                &&& final(self).command == old(self).command
                &&& final(self).device == old(self).device
                &&& final(self).sent == old(self).sent
                &&& final(self).answers == old(self).answers
            },
    {
        let out = match outcome {
            Ok(o) => o,
            Err(e) => return Err(e),
        };
        if out.failed {
            return Err(Error::Other(String::from_str("INQUIRY failed")));
        }
        self.identify(reply);
        Ok(())
    }

    /// Takes the identification of the drive from the INQUIRY answer
    /// `answer` (vendor, product ID and revision, trimmed, and the model
    /// string) and assigns the characteristics of the model.
    pub fn identify(&mut self, answer: &[u8; 36])
        ensures
            identified(*final(self), answer@),
            final(self).command == old(self).command,
            final(self).device == old(self).device,
            final(self).sent == old(self).sent,
            final(self).answers == old(self).answers,
    {
        self.vendor = trim_ascii(answer, 8, 16);
        self.prod_id = trim_ascii(answer, 16, 32);
        self.prod_rev = trim_ascii(answer, 32, 36);
        let mut model = String::new();
        push_str(&mut model, &self.vendor);
        push_char(&mut model, '/');
        push_str(&mut model, &self.prod_id);
        push_char(&mut model, '/');
        push_str(&mut model, &self.prod_rev);
        assert(model@ =~= self.vendor@ + seq!['/'] + self.prod_id@ + seq!['/'] + self.prod_rev@);
        self.model = model;
        self.assign_functions();
    }

    /// Assigns the characteristics of the model named by `vendor` and
    /// `prod_id`.
    fn assign_functions(&mut self)
        ensures
            final(self).vendor@ == old(self).vendor@,
            final(self).prod_id@ == old(self).prod_id@,
            final(self).prod_rev@ == old(self).prod_rev@,
            final(self).model@ == old(self).model@,
            final(self).command == old(self).command,
            final(self).device == old(self).device,
            final(self).sent == old(self).sent,
            final(self).answers == old(self).answers,
            assigned(*final(self), old(self).vendor@, old(self).prod_id@),
    {
        self.def_method = 0;
        self.mem_base = 0;
        self.family = ReadFamily::Default;
        self.memdump_kind = MemdumpKind::Vanilla2064;
        self.supported = false;
        let matched = lookup(self.vendor.as_str(), self.prod_id.as_str());
        match matched {
            Some(p) => {
                self.memdump_kind = p.memdump;
                self.mem_base = p.mem_base;
                self.family = p.family;
                self.def_method = p.def_method;
                self.supported = true;
            },
            None => {},
        }
        if self.command != -1 {
            self.memdump_kind = match self.command {
                0 => MemdumpKind::Vanilla2064,
                1 => MemdumpKind::Vanilla2384,
                2 => MemdumpKind::Hitachi,
                3 => MemdumpKind::LiteOn,
                4 => MemdumpKind::Renesas,
                _ => self.memdump_kind,
            };
        }
    }

    /// READ(12) of `sectors` sectors at `sector` with the FUA bit, into a
    /// 64 KiB buffer; returns the outcome with its sense data.
    pub fn read_sector_dummy(&mut self, sector: u32, sectors: u32) -> (r: Result<ScsiOutcome>)
        ensures
            same_settings(*final(self), *old(self)),
            final(self).sent@ == old(self).sent@.push(mmc::read12_dummy_cdb(sector, sectors)),
            one_more_answer(*old(self), *final(self)),
            final(self).answers@.last().buf_len == 65536,
            r == final(self).answers@.last().result,
    {
        let cmd = mmc::read12_dummy(sector, sectors);
        let mut buf: Vec<u8> = vec![0u8; 65536];
        let r = self.run(&cmd, buf.as_mut_slice());
        assert(self.answers@.drop_last() =~= old(self).answers@);
        r
    }

    /// Streaming READ(12) of the 16 sectors at `sector` into `buf`. A failed
    /// command is not an error (a desynchronised drive is detected by the
    /// sector numbers of the raw frames); a transfer error is.
    pub fn read_sector_streaming(&mut self, sector: u32, buf: &mut [u8]) -> (r: Result<()>)
        ensures
            same_settings(*final(self), *old(self)),
            final(self).sent@ == old(self).sent@.push(mmc::read12_streaming_cdb(sector)),
            one_more_answer(*old(self), *final(self)),
            final(self).answers@.last().buf_len == old(buf)@.len(),
            final(self).answers@.last().reply == final(buf)@,
            r == passed_on(final(self).answers@.last()),
    {
        let cmd = mmc::read12_streaming(sector);
        let res = self.run(&cmd, buf);
        assert(self.answers@.drop_last() =~= old(self).answers@);
        match res {
            Ok(_) => Ok(()),
            Err(e) => Err(e),
        }
    }

    /// Streaming READ(12) of the 16 sectors at `sector`, discarding the data.
    pub fn read_sector_streaming_discard(&mut self, sector: u32) -> (r: Result<()>)
        ensures
            same_settings(*final(self), *old(self)),
            final(self).sent@ == old(self).sent@.push(mmc::read12_streaming_cdb(sector)),
            one_more_answer(*old(self), *final(self)),
            final(self).answers@.last().buf_len == 32768,
            r == passed_on(final(self).answers@.last()),
    {
        let mut buf = [0u8; 32768];
        self.read_sector_streaming(sector, &mut buf)
    }

    /// Streaming READ(12) of `sectors` sectors at `sector` into `buf`.
    pub fn read_streaming(&mut self, sector: u32, sectors: u32, buf: &mut [u8]) -> (r: Result<()>)
        ensures
            same_settings(*final(self), *old(self)),
            final(self).sent@ == old(self).sent@.push(mmc::read12_streaming_n_cdb(sector, sectors)),
            one_more_answer(*old(self), *final(self)),
            final(self).answers@.last().buf_len == old(buf)@.len(),
            final(self).answers@.last().reply == final(buf)@,
            r == passed_on(final(self).answers@.last()),
    {
        let cmd = mmc::read12_streaming_n(sector, sectors, buf.len());
        let res = self.run(&cmd, buf);
        assert(self.answers@.drop_last() =~= old(self).answers@);
        match res {
            Ok(_) => Ok(()),
            Err(e) => Err(e),
        }
    }

    fn execute_no_data(&mut self, cmd: &mmc::Command) -> (r: Result<()>)
        ensures
            same_settings(*final(self), *old(self)),
            final(self).sent@ == old(self).sent@.push(cmd.cdb@),
            one_more_answer(*old(self), *final(self)),
            final(self).answers@.last().buf_len == 0,
            r == passed_on(final(self).answers@.last()),
    {
        let mut empty: [u8; 0] = [];
        let res = self.run(cmd, &mut empty);
        assert(self.answers@.drop_last() =~= old(self).answers@);
        match res {
            Ok(_) => Ok(()),
            Err(e) => Err(e),
        }
    }

    /// Flushes the drive's cache with a READ(12) of no sector at `sector`.
    pub fn flush_cache_read12(&mut self, sector: u32) -> (r: Result<()>)
        ensures
            same_settings(*final(self), *old(self)),
            final(self).sent@ == old(self).sent@.push(mmc::flush_cache_cdb(sector)),
            one_more_answer(*old(self), *final(self)),
            final(self).answers@.last().buf_len == 0,
            r == passed_on(final(self).answers@.last()),
    {
        let cmd = mmc::flush_cache_read12(sector);
        self.execute_no_data(&cmd)
    }

    /// Spins the disc up (`start`) or down.
    pub fn stop_unit(&mut self, start: bool) -> (r: Result<()>)
        ensures
            same_settings(*final(self), *old(self)),
            final(self).sent@ == old(self).sent@.push(mmc::stop_unit_cdb(start)),
            one_more_answer(*old(self), *final(self)),
            final(self).answers@.last().buf_len == 0,
            r == passed_on(final(self).answers@.last()),
    {
        let cmd = mmc::stop_unit(start);
        self.execute_no_data(&cmd)
    }

    /// Sets the read speed.
    pub fn set_speed(&mut self, speed: u32) -> (r: Result<()>)
        ensures
            same_settings(*final(self), *old(self)),
            final(self).sent@ == old(self).sent@.push(mmc::set_speed_cdb(speed)),
            one_more_answer(*old(self), *final(self)),
            final(self).answers@.last().buf_len == 0,
            r == passed_on(final(self).answers@.last()),
    {
        let cmd = mmc::set_speed(speed);
        self.execute_no_data(&cmd)
    }

    /// Sets the streaming speed.
    pub fn set_streaming(&mut self, speed: u32) -> (r: Result<()>)
        ensures
            same_settings(*final(self), *old(self)),
            final(self).sent@ == old(self).sent@.push(mmc::set_streaming_cdb()),
            one_more_answer(*old(self), *final(self)),
            final(self).answers@.last().buf_len == 0,
            r == passed_on(final(self).answers@.last()),
    {
        let cmd = mmc::set_streaming(speed);
        self.execute_no_data(&cmd)
    }

    /// The number of sectors of the disc (READ CAPACITY).
    pub fn get_size(&mut self) -> (r: Result<u32>)
        ensures
            same_settings(*final(self), *old(self)),
            final(self).sent@ == old(self).sent@.push(mmc::read_capacity_cdb()),
            one_more_answer(*old(self), *final(self)),
            ({
                let a = final(self).answers@.last();
                &&& a.buf_len == 0x22
                &&& a.reply.len() == 0x22
                &&& a.result matches Err(e) ==> r == Err::<u32, Error>(e)
                &&& a.result is Ok ==> r == Ok::<u32, Error>(be_u32(a.reply[0x18], a.reply[0x19], a.reply[0x1A], a.reply[0x1B]))
            }),
            match size_of(final(self).answers@.last()) {
                Some(v) => r == Ok::<u32, Error>(v),
                None => r is Err,
            },
    {
        let cmd = mmc::read_capacity();
        let mut buf = [0u8; 0x22];
        let res = self.run(&cmd, &mut buf);
        assert(self.answers@.drop_last() =~= old(self).answers@);
        match res {
            Ok(_) => Ok(mmc::parse_read_capacity(&buf)),
            Err(e) => Err(e),
        }
    }

    /// The layer break of the disc (READ DVD STRUCTURE), 0 for one layer.
    /// An end sector of layer 0 below 0x30000 cannot be turned into a count
    /// of sectors and is an error.
    pub fn get_layerbreak(&mut self) -> (r: Result<u32>)
        ensures
            same_settings(*final(self), *old(self)),
            final(self).sent@ == old(self).sent@.push(mmc::read_dvd_structure_cdb()),
            one_more_answer(*old(self), *final(self)),
            ({
                let a = final(self).answers@.last();
                &&& a.buf_len == 2052
                &&& a.reply.len() == 2052
                &&& a.result matches Err(e) ==> r == Err::<u32, Error>(e)
                &&& a.result is Ok ==> layerbreak_result(mmc::raw_layerbreak(a.reply), r)
            }),
            match layerbreak_of(final(self).answers@.last()) {
                Some(v) => r == Ok::<u32, Error>(v),
                None => r is Err,
            },
            r matches Ok(lb) ==> lb <= 0xFD0000,
    {
        let cmd = mmc::read_dvd_structure();
        let mut buf = [0u8; 2052];
        let res = self.run(&cmd, &mut buf);
        assert(self.answers@.drop_last() =~= old(self).answers@);
        match res {
            Ok(_) => {},
            Err(e) => return Err(e),
        }
        layerbreak_of_answer(&buf)
    }

    /// Dumps `block_len` blocks of `block_size` bytes of the drive's memory at
    /// `offset` into `buf`, with the dump of the drive's kind. The 2384-byte,
    /// Lite-On and Renesas dumps are not supported.
    pub fn memdump(&mut self, offset: u32, block_len: u32, block_size: u32, buf: &mut [u8]) -> (r: Result<()>)
        ensures
            same_settings(*final(self), *old(self)),
            final(buf)@.len() == old(buf)@.len(),
            (old(self).memdump_kind == MemdumpKind::Vanilla2384 || old(self).memdump_kind == MemdumpKind::LiteOn
                || old(self).memdump_kind == MemdumpKind::Renesas) ==> (r matches Err(e) && e is Unsupported && final(buf)@ == old(buf)@ && *final(self) == *old(self)),
            old(self).memdump_kind == MemdumpKind::HitachiMn103s ==> memdump_run(*old(self), *final(self), true, MN103S_MEM_BASE, offset, block_len, block_size, old(buf)@, final(buf)@, r),
            old(self).memdump_kind == MemdumpKind::Hitachi ==> memdump_run(*old(self), *final(self), true, HITACHI_MEM_BASE, offset, block_len, block_size, old(buf)@, final(buf)@, r),
            old(self).memdump_kind == MemdumpKind::Vanilla2064 ==> memdump_run(*old(self), *final(self), false, 0, offset, block_len, block_size, old(buf)@, final(buf)@, r),
    {
        match self.memdump_kind {
            MemdumpKind::HitachiMn103s => self.block_loop(true, MN103S_MEM_BASE, offset, block_len, block_size, buf),
            MemdumpKind::Hitachi => self.block_loop(true, HITACHI_MEM_BASE, offset, block_len, block_size, buf),
            MemdumpKind::Vanilla2064 => self.block_loop(false, 0, offset, block_len, block_size, buf),
            MemdumpKind::Vanilla2384 => Err(Error::Unsupported(String::from_str("memory dump of 2384-byte drives"))),
            MemdumpKind::LiteOn => Err(Error::Unsupported(String::from_str("memory dump of Lite-On drives"))),
            MemdumpKind::Renesas => Err(Error::Unsupported(String::from_str("memory dump of Renesas drives"))),
        }
    }

    /// Dumps `buf.len()` bytes of the drive's memory at `offset` into `buf`
    /// as one block of a memory dump; on `Ok` the device answered that one
    /// command with the bytes now in `buf`.
    pub fn dump_memory(&mut self, offset: u32, buf: &mut [u8]) -> (r: Result<()>)
        requires
            0 < old(buf)@.len() <= 0xFFFF,
        ensures
            same_settings(*final(self), *old(self)),
            final(buf)@.len() == old(buf)@.len(),
            r is Ok ==> {
                &&& one_more_answer(*old(self), *final(self))
                &&& answered(final(self).answers@.last(), dump_cdb(old(self).memdump_kind, offset, old(buf)@.len() as u32), old(buf)@.len())
                &&& final(self).answers@.last().reply == final(buf)@
            },
    {
        let n = buf.len() as u32;
        let r = self.memdump(offset, 1, n, buf);
        proof {
            if r is Ok {
                let a0 = old(self).answers@.len() as int;
                assert(block_sent(self.answers@, a0, 0, n as nat, n as nat,
                    self.memdump_kind != MemdumpKind::Vanilla2064,
                    if self.memdump_kind == MemdumpKind::HitachiMn103s { MN103S_MEM_BASE } else if self.memdump_kind == MemdumpKind::Hitachi { HITACHI_MEM_BASE } else { 0 },
                    offset));
                assert(self.answers@.drop_last() =~= self.answers@.subrange(0, a0));
                assert(buf@ =~= buf@.subrange(0, n as int));
            }
        }
        r
    }

    /// Dumps block `i` for `i` in `0..block_len`: with E7 (`e7`) at address
    /// `base + offset + i * block_size`, otherwise with READ BUFFER at
    /// `offset + i * block_size`, into bytes `i * block_size ..` of `buf`.
    /// Before each block, a block that does not fit in `buf` is an error;
    /// after it, `memdump_block_result` decides whether the dump goes on.
    fn block_loop(
        &mut self,
        e7: bool,
        base: u32,
        offset: u32,
        block_len: u32,
        block_size: u32,
        buf: &mut [u8],
    ) -> (r: Result<()>)
        ensures
            same_settings(*final(self), *old(self)),
            final(buf)@.len() == old(buf)@.len(),
            memdump_run(*old(self), *final(self), e7, base, offset, block_len, block_size, old(buf)@, final(buf)@, r),
    {
        let ghost b0 = buf@;
        let ghost s0 = self.sent@.len();
        let ghost a0 = self.answers@.len();
        assert(old(self).sent@ + memdump_cdbs(e7, base, offset, 0, block_size) =~= old(self).sent@);
        let n: usize = buf.len();
        let bs: usize = block_size as usize;
        let mut i: u32 = 0;
        assert(self.answers@.subrange(0, a0 as int) =~= old(self).answers@);
        while i < block_len
            invariant
                i <= block_len,
                forall|j: int| 0 <= j < i ==> #[trigger] block_sent(self.answers@, a0 as int, j, block_size as nat, n as nat, e7, base, offset),
                b0 == old(buf)@,
                n == b0.len(),
                bs == block_size,
                buf@.len() == n,
                s0 == old(self).sent@.len(),
                a0 == old(self).answers@.len(),
                same_settings(*self, *old(self)),
                i > 0 ==> i * block_size <= n,
                forall|k: int| i * block_size <= k < n ==> #[trigger] buf@[k] == b0[k],
                self.sent@ == old(self).sent@ + memdump_cdbs(e7, base, offset, i as int, block_size),
                self.answers@.len() == a0 + i,
                self.answers@.subrange(0, a0 as int) == old(self).answers@,
                forall|j: int| 0 <= j < i ==> #[trigger] blocks_done_at(self.answers@, a0 as int, j, block_size as nat, buf@),
            decreases block_len - i,
        {
            proof {
                assert(i * block_size <= block_len * block_size) by (nonlinear_arith)
                    requires
                        i <= block_len,
                ;
                assert((i as u64) * (block_size as u64) <= 0xFFFF_FFFE_0000_0001u64) by (nonlinear_arith)
                    requires
                        i <= 0xFFFF_FFFFu64,
                        block_size <= 0xFFFF_FFFFu64,
                ;
                assert((i + 1) * block_size == i * block_size + block_size) by (nonlinear_arith);
            }
            let start64: u64 = (i as u64) * (block_size as u64);
            let end64: u64 = start64 + (block_size as u64);
            if end64 > n as u64 {
                proof {
                    if i > 0 {
                        assert(blocks_done_at(self.answers@, a0 as int, i - 1, block_size as nat, buf@));
                        assert((i - 1 + 1) * block_size == i * block_size);
                    }
                }
                return Err(Error::InvalidArgument(String::from_str("memory dump buffer too short")));
            }
            let start: usize = start64 as usize;
            let end: usize = end64 as usize;
            let cmd = if e7 {
                let addr = base.wrapping_add(offset).wrapping_add(i.wrapping_mul(block_size));
                mmc::e7_memdump(addr, #[verifier::truncate] (block_size as u16))
            } else {
                let off = offset.wrapping_add(i.wrapping_mul(block_size));
                mmc::read_buffer_vanilla2064(off, block_size)
            };
            let mut chunk: Vec<u8> = Vec::new();
            let mut k: usize = start;
            while k < end
                invariant
                    start <= k <= end <= n,
                    buf@.len() == n,
                    chunk@.len() == k - start,
                decreases end - k,
            {
                chunk.push(buf[k]);
                k = k + 1;
            }
            assert(cmd.cdb@ == memdump_cdb(e7, base, offset, i, block_size));
            let ghost before = self.answers@;
            let res = self.run(&cmd, chunk.as_mut_slice());
            assert(memdump_cdbs(e7, base, offset, i + 1, block_size) =~= memdump_cdbs(e7, base, offset, i as int, block_size).push(cmd.cdb@));
            assert(self.answers@.subrange(0, a0 as int) =~= old(self).answers@);
            let ghost ans = self.answers@[a0 + i];
            assert(ans.reply == chunk@ && ans.buf_len == bs && ans.result == res);
            assert forall|j: int| 0 <= j < i implies #[trigger] blocks_done_at(self.answers@, a0 as int, j, block_size as nat, buf@) by {
                assert(blocks_done_at(before, a0 as int, j, block_size as nat, buf@));
                assert(self.answers@[a0 + j] == before[a0 + j]);
            }
            assert forall|j: int| 0 <= j <= i implies #[trigger] block_sent(self.answers@, a0 as int, j, block_size as nat, n as nat, e7, base, offset) by {
                if j < i {
                    assert(block_sent(before, a0 as int, j, block_size as nat, n as nat, e7, base, offset));
                    assert(self.answers@[a0 + j] == before[a0 + j]);
                } else {
                    assert((i + 1) * block_size == end);
                }
            }
            let same_len = chunk.len() == end - start;
            if same_len {
                let ghost bb = buf@;
                let mut k: usize = start;
                while k < end
                    invariant
                        start <= k <= end <= n,
                        buf@.len() == n,
                        bb.len() == n,
                        chunk@.len() == end - start,
                        end == start + bs,
                        forall|q: int| 0 <= q < start ==> #[trigger] buf@[q] == bb[q],
                        forall|q: int| end <= q < n ==> #[trigger] buf@[q] == bb[q],
                        forall|q: int| start <= q < k ==> #[trigger] buf@[q] == chunk@[q - start],
                    decreases end - k,
                {
                    buf[k] = chunk[k - start];
                    k = k + 1;
                }
                proof {
                    assert(buf@.subrange(start as int, end as int) =~= chunk@);
                    assert forall|j: int| 0 <= j < i implies #[trigger] blocks_done_at(self.answers@, a0 as int, j, block_size as nat, buf@) by {
                        assert(blocks_done_at(self.answers@, a0 as int, j, block_size as nat, bb));
                        assert(j * block_size + block_size <= i * block_size) by (nonlinear_arith)
                            requires
                                j < i,
                        ;
                        assert(buf@.subrange(j * block_size, j * block_size + block_size) =~= bb.subrange(j * block_size, j * block_size + block_size));
                    }
                }
            }
            let step = memdump_block_result(res, chunk.len(), end - start);
            match step {
                Ok(()) => {},
                Err(e) => {
                    proof {
                        assert((i + 1) * block_size == end);
                        if same_len {
                            assert(buf@.subrange(i * block_size, i * block_size + block_size) == chunk@);
                        }
                    }
                    return Err(e);
                },
            }
            proof {
                assert(buf@.subrange(i * block_size, i * block_size + block_size) == chunk@);
                assert(blocks_done_at(self.answers@, a0 as int, i as int, block_size as nat, buf@));
                assert((i + 1) * block_size == end);
            }
            i = i + 1;
        }
        proof {
            if block_len == 0 {
                assert(buf@ =~= b0);
            } else {
                assert(blocks_done_at(self.answers@, a0 as int, block_len - 1, block_size as nat, buf@));
                assert((block_len - 1 + 1) * block_size == block_len * block_size);
            }
        }
        Ok(())
    }
}

/// One block of a memory dump succeeded: the reply has the block's length
/// and the device reported no failure.
pub open spec fn block_ok(result: Result<ScsiOutcome>, reply_len: nat, bs: nat) -> bool {
    reply_len == bs && (result matches Ok(o) && !o.failed)
}

/// `r` is the error that ends a memory dump at a block that did not
/// succeed: a reply of another length is an `Other` error; otherwise the
/// device's error is passed on, and a failed command is an `Other` error.
pub open spec fn block_error(result: Result<ScsiOutcome>, reply_len: nat, bs: nat, r: Result<()>) -> bool {
    if reply_len != bs {
        r matches Err(e) && e is Other
    } else {
        match result {
            Err(e) => r == Err::<(), Error>(e),
            Ok(_) => r matches Err(e) && e is Other,
        }
    }
}

/// The result of one block of a memory dump from what the device returned
/// for it (`outcome`, and a reply of `reply_len` bytes for a block of
/// `block_size` bytes).
pub fn memdump_block_result(outcome: Result<ScsiOutcome>, reply_len: usize, block_size: usize) -> (r: Result<()>)
    ensures
        block_ok(outcome, reply_len as nat, block_size as nat) ==> r is Ok,
        !block_ok(outcome, reply_len as nat, block_size as nat) ==> block_error(outcome, reply_len as nat, block_size as nat, r),
{
    if reply_len != block_size {
        return Err(Error::Other(String::from_str("memory dump transfer changed the buffer length")));
    }
    let out = match outcome {
        Ok(o) => o,
        Err(e) => return Err(e),
    };
    if out.failed {
        return Err(Error::Other(String::from_str("memory dump command failed")));
    }
    Ok(())
}

/// Block `j` of a memory dump whose answers start at `a0` in `answers` fit
/// in the buffer of `len` bytes and was handed to the device, with its
/// command, with a buffer of `bs` bytes.
pub open spec fn block_sent(answers: Seq<DeviceAnswer>, a0: int, j: int, bs: nat, len: nat, e7: bool, base: u32, offset: u32) -> bool {
    &&& answers[a0 + j].cdb == memdump_cdb(e7, base, offset, j as u32, bs as u32)
    &&& answers[a0 + j].buf_len == bs
    &&& (j + 1) * bs <= len
}

/// Block `j` of a memory dump whose answers start at `a0` in `answers`
/// succeeded, and its reply is bytes `j * bs ..` of `buf`.
pub open spec fn blocks_done_at(answers: Seq<DeviceAnswer>, a0: int, j: int, bs: nat, buf: Seq<u8>) -> bool {
    let a = answers[a0 + j];
    &&& a.buf_len == bs
    &&& block_ok(a.result, a.reply.len(), bs)
    &&& buf.subrange(j * bs, j * bs + bs) == a.reply
}

/// A memory dump of `block_len` blocks of `bs` bytes from drive state `d0`
/// to `d1`, buffer `b0` to `b1`, with result `r`. The blocks are handled in
/// order; `k` of them were handed to the device (with their commands), each
/// with a buffer of `bs` bytes, and every one before the last succeeded with
/// its reply placed in `b1`. The dump stops at the first block that does not
/// fit in the buffer (`InvalidArgument`) or that does not succeed (the error
/// of `block_error`); it is `Ok` when all blocks succeeded. Bytes from block
/// `k` on are left as they were.
pub open spec fn memdump_run<D: ScsiDevice>(
    d0: DvdDrive<D>,
    d1: DvdDrive<D>,
    e7: bool,
    base: u32,
    offset: u32,
    block_len: u32,
    bs: u32,
    b0: Seq<u8>,
    b1: Seq<u8>,
    r: Result<()>,
) -> bool {
    let a0 = d0.answers@.len() as int;
    let k = d1.answers@.len() - a0;
    let last = d1.answers@[a0 + k - 1];
    &&& 0 <= k <= block_len
    &&& d1.answers@.subrange(0, a0) == d0.answers@
    &&& d1.sent@ == d0.sent@ + memdump_cdbs(e7, base, offset, k, bs)
    &&& forall|j: int| 0 <= j < k ==> #[trigger] block_sent(d1.answers@, a0, j, bs as nat, b0.len(), e7, base, offset)
    &&& forall|j: int| 0 <= j < k - 1 ==> #[trigger] blocks_done_at(d1.answers@, a0, j, bs as nat, b1)
    &&& forall|q: int| k * bs <= q < b0.len() ==> #[trigger] b1[q] == b0[q]
    &&& (k > 0 && last.reply.len() == bs) ==> b1.subrange((k - 1) * bs, (k - 1) * bs + bs) == last.reply
    &&& (r is Ok <==> (k == block_len && (k == 0 || block_ok(last.result, last.reply.len(), bs as nat))))
    &&& (k > 0 && !block_ok(last.result, last.reply.len(), bs as nat)) ==> block_error(last.result, last.reply.len(), bs as nat, r)
    &&& ((k == 0 || block_ok(last.result, last.reply.len(), bs as nat)) && k < block_len) ==> (r matches Err(e) && e is InvalidArgument) && (k + 1) * bs > b0.len()
}

/// The layer break in a READ DVD STRUCTURE answer: 0 for one layer, else
/// the count of sectors of layer 0; an end sector below 0x30000 cannot be
/// one and is an error.
pub fn layerbreak_of_answer(buf: &[u8; 2052]) -> (r: Result<u32>)
    ensures
        layerbreak_result(mmc::raw_layerbreak(buf@), r),
        r matches Ok(lb) ==> lb <= 0xFD0000,
{
    let b0 = buf[0x11];
    let b1 = buf[0x12];
    let b2 = buf[0x13];
    let v: u32 = ((b0 as u32) << 16u32) | ((b1 as u32) << 8u32) | (b2 as u32);
    assert(v < 0x1000000) by (bit_vector)
        requires
            v == ((b0 as u32) << 16u32) | ((b1 as u32) << 8u32) | (b2 as u32),
    ;
    if v > 0 && v < 0x30000 {
        return Err(Error::Other(String::from_str("invalid layer break")));
    }
    Ok(mmc::parse_layerbreak(buf))
}

/// The speed in kB/s handed to the drive for a speed of `x` times a
/// single-speed DVD (177 kB/s); `None` if it does not fit in a `u32`.
pub fn speed_value(x: u32) -> (r: Option<u32>)
    ensures
        match r {
            Some(v) => v == x * 177,
            None => x * 177 > u32::MAX,
        },
{
    x.checked_mul(177)
}

} // verus!
