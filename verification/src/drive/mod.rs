//! CD/DVD drives: SCSI command blocks, the device abstraction, the table of
//! drive models and the drive wrapper.

pub mod device;
pub mod dvd;
pub mod mmc;
pub mod profile;
