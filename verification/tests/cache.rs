use friidump::cache::{BlockCache, MINIMUM_CACHE_SIZE};
use friidump::constants::{BLOCK_SIZE, RAW_BLOCK_SIZE, RAW_SECTOR_SIZE, SECTOR_SIZE};

fn block_data(seed: u8) -> [u8; BLOCK_SIZE] {
    let mut d = [0u8; BLOCK_SIZE];
    for (i, b) in d.iter_mut().enumerate() {
        *b = seed.wrapping_add(i as u8);
    }
    d
}

#[test]
fn rejects_too_small() {
    assert!(BlockCache::new(4).is_err());
    assert!(BlockCache::new(MINIMUM_CACHE_SIZE).is_ok());
}

#[test]
fn add_lookup_and_miss() {
    let mut c = BlockCache::new(8).unwrap();
    assert!(c.lookup(3).is_none());
    c.add_block(3, &block_data(1), false);
    let (d, _r) = c.lookup(3).unwrap();
    assert_eq!(d, &block_data(1));
    assert!(c.lookup(4).is_none());
}

#[test]
fn gc_raw_layout_offsets() {
    let mut c = BlockCache::new(8).unwrap();
    let data = block_data(7);
    c.add_block(0, &data, false);
    let (_d, raw) = c.lookup(0).unwrap();
    assert_eq!(&raw[6..6 + SECTOR_SIZE], &data[..SECTOR_SIZE]);
    assert_eq!(
        &raw[RAW_SECTOR_SIZE + 6..RAW_SECTOR_SIZE + 6 + SECTOR_SIZE],
        &data[SECTOR_SIZE..2 * SECTOR_SIZE]
    );
}

#[test]
fn dvd_raw_layout_offsets() {
    let mut c = BlockCache::new(8).unwrap();
    let data = block_data(9);
    c.add_block(1, &data, true);
    let (_d, raw) = c.lookup(1).unwrap();
    assert_eq!(&raw[12..12 + SECTOR_SIZE], &data[..SECTOR_SIZE]);
}

#[test]
fn raw_true_is_preserved() {
    let mut c = BlockCache::new(8).unwrap();
    let data = block_data(2);
    let mut rawtrue = [0u8; RAW_BLOCK_SIZE];
    for (i, b) in rawtrue.iter_mut().enumerate() {
        *b = (i & 0xFF) as u8;
    }
    c.add_block_raw(5, &data, &rawtrue);
    let (d, r) = c.lookup(5).unwrap();
    assert_eq!(d, &data);
    assert_eq!(r, &rawtrue);
}

#[test]
fn ring_eviction() {
    let mut c = BlockCache::new(MINIMUM_CACHE_SIZE).unwrap();
    c.add_block(1, &block_data(1), false);
    c.add_block(1 + MINIMUM_CACHE_SIZE as u32, &block_data(2), false);
    assert!(c.lookup(1).is_none());
    assert!(c.lookup(1 + MINIMUM_CACHE_SIZE as u32).is_some());
}

#[test]
fn cache_size_and_default() {
    let c = BlockCache::new(friidump::cache::DEFAULT_CACHE_SIZE).unwrap();
    assert_eq!(c.size(), 40);
}

#[test]
fn read_after_write_other_slots_unchanged() {
    let mut c = BlockCache::new(8).unwrap();
    c.add_block(2, &block_data(3), false);
    c.add_block(3, &block_data(4), true);
    let (d2, _) = c.lookup(2).unwrap();
    assert_eq!(d2, &block_data(3));
    let (d3, r3) = c.lookup(3).unwrap();
    assert_eq!(d3, &block_data(4));
    assert_eq!(&r3[RAW_SECTOR_SIZE + 12..RAW_SECTOR_SIZE + 12 + SECTOR_SIZE], &block_data(4)[SECTOR_SIZE..2 * SECTOR_SIZE]);
    // A block that maps to the same slot as 2 misses.
    assert!(c.lookup(10).is_none());
}
