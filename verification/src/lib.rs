//! GameCube / Wii disc dumping: ECMA-267 scrambling, the drive command set,
//! the block cache, the fast read methods, the metadata of a disc, the
//! command line and the decisions of a dump.

pub mod bytes;
pub mod cache;
pub mod cli;
pub mod constants;
pub mod disc;
pub mod drive;
pub mod dumper;
pub mod ecma267;
pub mod error;
pub mod hasher;
pub mod log;
pub mod metadata;
pub mod read;
pub mod text;
pub mod unscrambler;

pub use error::{Error, Result};
