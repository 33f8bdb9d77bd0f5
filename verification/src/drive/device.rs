//! The SCSI device abstraction.

use vstd::prelude::*;
use crate::drive::mmc::{Command, Direction};
use crate::error::Result;

verus! {

/// Sense data of a command.
#[derive(Debug, Clone, Copy, Default, PartialEq, Eq)]
pub struct Sense {
    /// Sense key.
    pub sense_key: u8,
    /// Additional sense code.
    pub asc: u8,
    /// Additional sense code qualifier.
    pub ascq: u8,
}

/// Outcome of a command: whether it failed (status, host or driver error)
/// and its sense data.
#[derive(Debug, Clone, Copy, Default)]
pub struct ScsiOutcome {
    /// Whether the command failed.
    pub failed: bool,
    /// The sense data.
    pub sense: Sense,
}

impl ScsiOutcome {
    /// Whether the command succeeded.
    pub fn is_ok(&self) -> (r: bool)
        ensures
            r == !self.failed,
    {
        !self.failed
    }
}

/// A device that executes command blocks.
///
/// For `Direction::FromDevice` the received data is written to `data`; for
/// `Direction::ToDevice` the bytes of `command.data` are sent; without data
/// nothing is transferred.
pub trait ScsiDevice {
    /// Executes `command`.
    fn execute(&mut self, command: &Command, data: &mut [u8]) -> Result<ScsiOutcome>;
}

/// The data phase of a command on the wire.
#[derive(Debug, Clone, Copy, PartialEq, Eq, Structural)]
pub enum Transfer {
    /// Data is received into the caller's buffer.
    FromDevice,
    /// The command's own data is sent.
    ToDevice,
    /// Nothing is transferred.
    NoData,
}

/// The data phase of a command with direction `direction`, `data_len` bytes
/// of its own data and a receive buffer of `buf_len` bytes: receiving needs
/// a buffer, sending needs data.
pub fn transfer_of(direction: Direction, data_len: usize, buf_len: usize) -> (t: Transfer)
    ensures
        t == if direction == Direction::FromDevice && buf_len > 0 {
            Transfer::FromDevice
        } else if direction == Direction::ToDevice && data_len > 0 {
            Transfer::ToDevice
        } else {
            Transfer::NoData
        },
{
    match direction {
        Direction::FromDevice => if buf_len > 0 {
            Transfer::FromDevice
        } else {
            Transfer::NoData
        },
        Direction::ToDevice => if data_len > 0 {
            Transfer::ToDevice
        } else {
            Transfer::NoData
        },
    }
}

/// The outcome of a command from the SCSI status byte, the host and driver
/// status and the fixed-format sense data: it failed on a status other than
/// GOOD (ignoring the reserved and vendor bits) or any host or driver
/// error; the sense key is the low nibble of byte 2 of the sense data, the
/// additional sense code and qualifier are its bytes 12 and 13.
pub fn decode_outcome(status: u8, host_status: u16, driver_status: u16, sense: &[u8; 32]) -> (o: ScsiOutcome)
    ensures
        o.failed == ((status & 0x7e) != 0 || host_status != 0 || driver_status != 0),
        o.sense.sense_key == sense@[2] & 0x0f,
        o.sense.asc == sense@[12],
        o.sense.ascq == sense@[13],
{
    let failed = (status & 0x7e) != 0 || host_status != 0 || driver_status != 0;
    ScsiOutcome {
        failed,
        sense: Sense { sense_key: sense[2] & 0x0f, asc: sense[12], ascq: sense[13] },
    }
}

} // verus!
