//! Geometry of GameCube / Wii discs.

use vstd::prelude::*;

verus! {

/// Size in bytes of one scrambled (raw) sector.
pub const RAW_SECTOR_SIZE: usize = 2064;

/// Size in bytes of one unscrambled sector.
pub const SECTOR_SIZE: usize = 2048;

/// Number of sectors in one block.
pub const SECTORS_PER_BLOCK: usize = 16;

/// Size in bytes of one scrambled block (16 raw sectors).
pub const RAW_BLOCK_SIZE: usize = 33024;

/// Size in bytes of one unscrambled block (16 sectors).
pub const BLOCK_SIZE: usize = 32768;

/// Total sectors of a GameCube disc (712880).
pub const DISC_GAMECUBE_SECTORS_NO: u32 = 0x0AE0B0;

/// Total sectors of a single-layer Wii disc (2294912).
pub const DISC_WII_SECTORS_NO_SL: u32 = 0x230480;

/// Total sectors of a dual-layer Wii disc (4155840).
pub const DISC_WII_SECTORS_NO_DL: u32 = 0x3F69C0;

/// The block sizes are the sector sizes times the number of sectors per block.
pub proof fn lemma_block_sizes()
    ensures
        RAW_BLOCK_SIZE == RAW_SECTOR_SIZE * SECTORS_PER_BLOCK,
        BLOCK_SIZE == SECTOR_SIZE * SECTORS_PER_BLOCK,
{
}

} // verus!
