//! Command descriptor blocks (CDBs) of the MMC and vendor commands, and the
//! parsing of their answers.

use vstd::prelude::*;
use crate::bytes::{be32_bytes, be_u32, be_u24};

verus! {

/// Opcode of READ(12).
pub const MMC_READ_12: u8 = 0xA8;
/// Opcode of INQUIRY.
pub const SPC_INQUIRY: u8 = 0x12;
/// Opcode of READ BUFFER.
pub const MMC_READ_BUFFER: u8 = 0x3C;
/// Opcode of the vendor memory dump (0xE7).
pub const MMC_VENDOR_E7: u8 = 0xE7;

/// Direction of the data transfer.
#[derive(Debug, Clone, Copy, PartialEq, Eq, Structural)]
pub enum Direction {
    /// From the device to the host.
    FromDevice,
    /// From the host to the device.
    ToDevice,
}

/// A command with its data.
#[derive(Debug, Clone)]
pub struct Command {
    /// The 12-byte CDB.
    pub cdb: [u8; 12],
    /// The direction of the transfer.
    pub direction: Direction,
    /// The length of the data buffer (to receive, or of `data` to send).
    pub length: usize,
    /// The data to send (`ToDevice` only).
    pub data: Vec<u8>,
}

/// A command with no data to send.
pub open spec fn plain_command(c: Command, cdb: Seq<u8>, direction: Direction, length: int) -> bool {
    &&& c.cdb@ == cdb
    &&& c.direction == direction
    &&& c.length == length
    &&& c.data@.len() == 0
}

/// The command block of INQUIRY.
pub open spec fn inquiry_cdb(alloc_len: u8) -> Seq<u8> {
    seq![SPC_INQUIRY, 0, 0, 0, alloc_len, 0, 0, 0, 0, 0, 0, 0]
}

/// The command block of READ(12) with the FUA bit.
pub open spec fn read12_dummy_cdb(sector: u32, sectors: u32) -> Seq<u8> {
    seq![MMC_READ_12, 0x08] + be32_bytes(sector) + be32_bytes(sectors) + seq![0u8, 0u8]
}

/// The command block of streaming READ(12) of 16 sectors.
pub open spec fn read12_streaming_cdb(sector: u32) -> Seq<u8> {
    seq![MMC_READ_12, 0] + be32_bytes(sector) + seq![0u8, 0u8, 0u8, 0x10u8, 0x80u8, 0u8]
}

/// The command block of streaming READ(12).
pub open spec fn read12_streaming_n_cdb(sector: u32, sectors: u32) -> Seq<u8> {
    seq![MMC_READ_12, 0] + be32_bytes(sector) + be32_bytes(sectors) + seq![0x80u8, 0u8]
}

/// The command block of READ(12) of no sector with the FUA bit.
pub open spec fn flush_cache_cdb(sector: u32) -> Seq<u8> {
    seq![MMC_READ_12, 0x08] + be32_bytes(sector) + seq![0u8, 0u8, 0u8, 0u8, 0u8, 0u8]
}

/// The command block of START STOP UNIT.
pub open spec fn stop_unit_cdb(start: bool) -> Seq<u8> {
    seq![0x1Bu8, 0, 0, 0, if start { 1u8 } else { 0u8 }, 0, 0, 0, 0, 0, 0, 0]
}

/// The command block of SET CD SPEED.
pub open spec fn set_speed_cdb(speed: u32) -> Seq<u8> {
    seq![0xBBu8, 0, ((speed >> 8u32) & 0xFFu32) as u8, (speed & 0xFFu32) as u8, 0, 0, 0, 0, 0, 0, 0, 0]
}

/// The command block of READ CAPACITY.
pub open spec fn read_capacity_cdb() -> Seq<u8> {
    seq![0x52u8, 0x01, 0, 0, 0, 0x01, 0, 0, 0x22, 0, 0, 0]
}

/// The command block of READ DVD STRUCTURE.
pub open spec fn read_dvd_structure_cdb() -> Seq<u8> {
    seq![0xADu8, 0, 0, 0, 0, 0, 0, 0, 0x08, 0x04, 0, 0]
}

/// The command block of SET STREAMING.
pub open spec fn set_streaming_cdb() -> Seq<u8> {
    seq![0xB6u8, 0, 0, 0, 0, 0, 0, 0, 0, 0, 28, 0]
}

/// The command block of E7 memory dump.
pub open spec fn e7_memdump_cdb(offset: u32, block_size: u16) -> Seq<u8> {
    seq![MMC_VENDOR_E7, 0x48, 0x49, 0x54, 0x01, 0] + be32_bytes(offset) + seq![(block_size >> 8u16) as u8, (block_size & 0xFFu16) as u8]
}

/// The command block of READ BUFFER of 2064-byte drives.
pub open spec fn read_buffer_vanilla2064_cdb(offset: u32, block_size: u32) -> Seq<u8> {
    seq![MMC_READ_BUFFER, 0x02, 0x00] + be24_bytes(offset) + be24_bytes(block_size) + seq![0u8, 0u8, 0u8]
}

impl Command {
    fn new(cdb: [u8; 12], direction: Direction, length: usize) -> (c: Self)
        ensures
            plain_command(c, cdb@, direction, length as int),
    {
        Command { cdb, direction, length, data: Vec::new() }
    }
}

/// INQUIRY with an allocation length of `alloc_len` bytes.
pub fn inquiry(alloc_len: u8) -> (c: Command)
    ensures
        plain_command(c, inquiry_cdb(alloc_len), Direction::FromDevice, alloc_len as int),
{
    let cdb: [u8; 12] = [SPC_INQUIRY, 0, 0, 0, alloc_len, 0, 0, 0, 0, 0, 0, 0];
    Command::new(cdb, Direction::FromDevice, alloc_len as usize)
}

/// READ(12) of `sectors` sectors at `sector` with the FUA bit; the answer is
/// not used.
pub fn read12_dummy(sector: u32, sectors: u32) -> (c: Command)
    ensures
        plain_command(c, read12_dummy_cdb(sector, sectors), Direction::FromDevice, 0),
{
    let cdb: [u8; 12] = [
        MMC_READ_12,
        0x08,
        (sector >> 24u32) as u8,
        (sector >> 16u32) as u8,
        (sector >> 8u32) as u8,
        sector as u8,
        (sectors >> 24u32) as u8,
        (sectors >> 16u32) as u8,
        (sectors >> 8u32) as u8,
        sectors as u8,
        0,
        0,
    ];
    let c = Command::new(cdb, Direction::FromDevice, 0);
    assert(c.cdb@ =~= seq![MMC_READ_12, 0x08] + be32_bytes(sector) + be32_bytes(sectors) + seq![0u8, 0u8]);
    c
}

/// READ(12) of 16 sectors at `sector` with the streaming bit.
pub fn read12_streaming(sector: u32) -> (c: Command)
    ensures
        plain_command(c, read12_streaming_cdb(sector), Direction::FromDevice, 0),
{
    let cdb: [u8; 12] = [
        MMC_READ_12,
        0,
        (sector >> 24u32) as u8,
        (sector >> 16u32) as u8,
        (sector >> 8u32) as u8,
        sector as u8,
        0,
        0,
        0,
        0x10,
        0x80,
        0,
    ];
    let c = Command::new(cdb, Direction::FromDevice, 0);
    assert(c.cdb@ =~= seq![MMC_READ_12, 0] + be32_bytes(sector) + seq![0u8, 0u8, 0u8, 0x10u8, 0x80u8, 0u8]);
    c
}

/// READ(12) of `sectors` sectors at `sector` with the streaming bit, into a
/// buffer of `buf_len` bytes.
pub fn read12_streaming_n(sector: u32, sectors: u32, buf_len: usize) -> (c: Command)
    ensures
        plain_command(c, read12_streaming_n_cdb(sector, sectors), Direction::FromDevice, buf_len as int),
{
    let cdb: [u8; 12] = [
        MMC_READ_12,
        0,
        (sector >> 24u32) as u8,
        (sector >> 16u32) as u8,
        (sector >> 8u32) as u8,
        sector as u8,
        (sectors >> 24u32) as u8,
        (sectors >> 16u32) as u8,
        (sectors >> 8u32) as u8,
        sectors as u8,
        0x80,
        0,
    ];
    let c = Command::new(cdb, Direction::FromDevice, buf_len);
    assert(c.cdb@ =~= seq![MMC_READ_12, 0] + be32_bytes(sector) + be32_bytes(sectors) + seq![0x80u8, 0u8]);
    c
}

/// READ(12) of no sector at `sector` with the FUA bit, which flushes the
/// drive's cache.
pub fn flush_cache_read12(sector: u32) -> (c: Command)
    ensures
        plain_command(c, flush_cache_cdb(sector), Direction::FromDevice, 0),
{
    let cdb: [u8; 12] = [
        MMC_READ_12,
        0x08,
        (sector >> 24u32) as u8,
        (sector >> 16u32) as u8,
        (sector >> 8u32) as u8,
        sector as u8,
        0,
        0,
        0,
        0,
        0,
        0,
    ];
    let c = Command::new(cdb, Direction::FromDevice, 0);
    assert(c.cdb@ =~= seq![MMC_READ_12, 0x08] + be32_bytes(sector) + seq![0u8, 0u8, 0u8, 0u8, 0u8, 0u8]);
    c
}

/// START STOP UNIT: `start` spins the disc up, otherwise down.
pub fn stop_unit(start: bool) -> (c: Command)
    ensures
        plain_command(c, stop_unit_cdb(start), Direction::FromDevice, 0),
{
    let s: u8 = if start { 1 } else { 0 };
    let cdb: [u8; 12] = [0x1B, 0, 0, 0, s, 0, 0, 0, 0, 0, 0, 0];
    Command::new(cdb, Direction::FromDevice, 0)
}

/// SET CD SPEED with the low 16 bits of `speed` as read speed.
pub fn set_speed(speed: u32) -> (c: Command)
    ensures
        plain_command(c, set_speed_cdb(speed), Direction::FromDevice, 0),
{
    let cdb: [u8; 12] = [0xBB, 0, ((speed >> 8u32) & 0xFFu32) as u8, (speed & 0xFFu32) as u8, 0, 0, 0, 0, 0, 0, 0, 0];
    Command::new(cdb, Direction::FromDevice, 0)
}

/// READ CAPACITY (0x52); the answer is parsed by `parse_read_capacity`.
pub fn read_capacity() -> (c: Command)
    ensures
        plain_command(c, read_capacity_cdb(), Direction::FromDevice, 0x22),
{
    let cdb: [u8; 12] = [0x52, 0x01, 0, 0, 0, 0x01, 0, 0, 0x22, 0, 0, 0];
    Command::new(cdb, Direction::FromDevice, 0x22)
}

/// READ DVD STRUCTURE (0xAD); the answer is parsed by `parse_layerbreak`.
pub fn read_dvd_structure() -> (c: Command)
    ensures
        plain_command(c, read_dvd_structure_cdb(), Direction::FromDevice, 2052),
{
    let cdb: [u8; 12] = [0xAD, 0, 0, 0, 0, 0, 0, 0, 0x08, 0x04, 0, 0];
    Command::new(cdb, Direction::FromDevice, 2052)
}

/// The 28 bytes of the performance descriptor of SET STREAMING.
pub open spec fn streaming_payload(speed: u32) -> Seq<u8> {
    seq![0u8, 0, 0, 0, 0, 0, 0, 0, 0xFF, 0xFF, 0xFF, 0xFF] + be32_bytes(speed) + be32_bytes(1000) + be32_bytes(speed) + be32_bytes(1000)
}

/// SET STREAMING (0xB6) with read and write speed `speed` (per 1000 ms).
pub fn set_streaming(speed: u32) -> (c: Command)
    ensures
        c.cdb@ == set_streaming_cdb(),
        c.direction == Direction::ToDevice,
        c.length == 28,
        c.data@ == streaming_payload(speed),
{
    let cdb: [u8; 12] = [0xB6, 0, 0, 0, 0, 0, 0, 0, 0, 0, 28, 0];
    let s0 = (speed >> 24u32) as u8;
    let s1 = (speed >> 16u32) as u8;
    let s2 = (speed >> 8u32) as u8;
    let s3 = speed as u8;
    let data: Vec<u8> = vec![
        0, 0, 0, 0, 0, 0, 0, 0, 0xFF, 0xFF, 0xFF, 0xFF,
        s0, s1, s2, s3,
        0, 0, 0x03, 0xE8,
        s0, s1, s2, s3,
        0, 0, 0x03, 0xE8,
    ];
    assert((1000u32 >> 24u32) as u8 == 0u8 && (1000u32 >> 16u32) as u8 == 0u8 && (1000u32 >> 8u32) as u8 == 0x03u8 && 1000u32 as u8 == 0xE8u8) by (bit_vector);
    assert(be32_bytes(1000) =~= seq![0u8, 0u8, 0x03u8, 0xE8u8]);
    assert(data@ =~= streaming_payload(speed));
    Command { cdb, direction: Direction::ToDevice, length: 28, data }
}

/// Hitachi vendor memory dump (0xE7, "HIT" 0x01) of `block_size` bytes at
/// address `offset`.
pub fn e7_memdump(offset: u32, block_size: u16) -> (c: Command)
    ensures
        plain_command(c, e7_memdump_cdb(offset, block_size), Direction::FromDevice, block_size as int),
{
    let cdb: [u8; 12] = [
        MMC_VENDOR_E7,
        0x48,
        0x49,
        0x54,
        0x01,
        0,
        (offset >> 24u32) as u8,
        (offset >> 16u32) as u8,
        (offset >> 8u32) as u8,
        offset as u8,
        (block_size >> 8u16) as u8,
        (block_size & 0xFFu16) as u8,
    ];
    let c = Command::new(cdb, Direction::FromDevice, block_size as usize);
    assert(c.cdb@ =~= seq![MMC_VENDOR_E7, 0x48, 0x49, 0x54, 0x01, 0] + be32_bytes(offset) + seq![(block_size >> 8u16) as u8, (block_size & 0xFFu16) as u8]);
    c
}

/// The three big-endian bytes of the low 24 bits of a value.
pub open spec fn be24_bytes(x: u32) -> Seq<u8> {
    seq![((x >> 16u32) & 0xFFu32) as u8, ((x >> 8u32) & 0xFFu32) as u8, (x & 0xFFu32) as u8]
}

/// READ BUFFER (0x3C) of `block_size` bytes at `offset`, 2064-byte layout.
pub fn read_buffer_vanilla2064(offset: u32, block_size: u32) -> (c: Command)
    ensures
        plain_command(c, read_buffer_vanilla2064_cdb(offset, block_size), Direction::FromDevice, block_size as int),
{
    let cdb: [u8; 12] = [
        MMC_READ_BUFFER,
        0x02,
        0x00,
        ((offset >> 16u32) & 0xFFu32) as u8,
        ((offset >> 8u32) & 0xFFu32) as u8,
        (offset & 0xFFu32) as u8,
        ((block_size >> 16u32) & 0xFFu32) as u8,
        ((block_size >> 8u32) & 0xFFu32) as u8,
        (block_size & 0xFFu32) as u8,
        0,
        0,
        0,
    ];
    let c = Command::new(cdb, Direction::FromDevice, block_size as usize);
    assert(c.cdb@ =~= seq![MMC_READ_BUFFER, 0x02, 0x00] + be24_bytes(offset) + be24_bytes(block_size) + seq![0u8, 0u8, 0u8]);
    c
}

/// READ BUFFER (0x3C) for drives with a 2384-byte layout (Lite-On with its
/// own subcommand): the 2064-byte address and length are scaled to 0x950
/// bytes per sector.
pub fn read_buffer_2384(offset: u32, block_size: u32, liteon: bool) -> (c: Command)
    requires
        (block_size / 2064) * 0x950 <= u32::MAX,
        (offset / 2064) * 0x950 <= u32::MAX,
    ensures
        ({
            let rb = ((block_size / 2064) * 0x950) as u32;
            let ro = ((offset / 2064) * 0x950) as u32;
            plain_command(
                c,
                seq![MMC_READ_BUFFER, if liteon { 0x01u8 } else { 0x02u8 }, if liteon { 0x01u8 } else { 0x00u8 }] + be24_bytes(ro) + be24_bytes(rb) + seq![0u8, 0u8, 0u8],
                Direction::FromDevice,
                rb as int,
            )
        }),
{
    let raw_block_size: u32 = (block_size / 2064) * 0x950;
    let raw_offset: u32 = (offset / 2064) * 0x950;
    let b1: u8 = if liteon { 0x01 } else { 0x02 };
    let b2: u8 = if liteon { 0x01 } else { 0x00 };
    let cdb: [u8; 12] = [
        MMC_READ_BUFFER,
        b1,
        b2,
        ((raw_offset >> 16u32) & 0xFFu32) as u8,
        ((raw_offset >> 8u32) & 0xFFu32) as u8,
        (raw_offset & 0xFFu32) as u8,
        ((raw_block_size >> 16u32) & 0xFFu32) as u8,
        ((raw_block_size >> 8u32) & 0xFFu32) as u8,
        (raw_block_size & 0xFFu32) as u8,
        0,
        0,
        0,
    ];
    let c = Command::new(cdb, Direction::FromDevice, raw_block_size as usize);
    assert(c.cdb@ =~= seq![MMC_READ_BUFFER, b1, b2] + be24_bytes(raw_offset) + be24_bytes(raw_block_size) + seq![0u8, 0u8, 0u8]);
    c
}

/// The number of sectors in a READ CAPACITY answer: the big-endian value of
/// bytes 0x18..0x1C.
pub fn parse_read_capacity(buf: &[u8]) -> (n: u32)
    requires
        buf@.len() >= 0x1C,
    ensures
        n == be_u32(buf@[0x18], buf@[0x19], buf@[0x1A], buf@[0x1B]),
{
    ((buf[0x18] as u32) << 24u32) | ((buf[0x19] as u32) << 16u32) | ((buf[0x1A] as u32) << 8u32) | (buf[0x1B] as u32)
}

/// The raw layer break value of a READ DVD STRUCTURE answer: the big-endian
/// value of bytes 0x11..0x14.
pub open spec fn raw_layerbreak(buf: Seq<u8>) -> u32 {
    be_u24(buf[0x11], buf[0x12], buf[0x13])
}

/// The layer break of a READ DVD STRUCTURE answer: the end sector of layer 0
/// (bytes 0x11..0x14, a physical sector number) turned into a count of
/// sectors, or 0 if the disc has one layer.
pub fn parse_layerbreak(buf: &[u8]) -> (lb: u32)
    requires
        buf@.len() >= 0x14,
        raw_layerbreak(buf@) == 0 || raw_layerbreak(buf@) >= 0x30000,
    ensures
        lb == if raw_layerbreak(buf@) > 0 { raw_layerbreak(buf@) - 0x30000 + 1 } else { 0 },
{
    let b0 = buf[0x11];
    let b1 = buf[0x12];
    let b2 = buf[0x13];
    let v: u32 = ((b0 as u32) << 16u32) | ((b1 as u32) << 8u32) | (b2 as u32);
    assert(v < 0x1000000) by (bit_vector)
        requires
            v == ((b0 as u32) << 16u32) | ((b1 as u32) << 8u32) | (b2 as u32),
    ;
    if v > 0 {
        v - 0x30000 + 1
    } else {
        v
    }
}

} // verus!
