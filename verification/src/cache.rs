//! Read cache of whole blocks (16 sectors), kept in a ring of slots: block
//! `b` lives in slot `b % size`.

use vstd::prelude::*;
use crate::bytes::lemma_record_pos;
use crate::error::{Error, Result};

verus! {

/// Default number of cached blocks.
pub const DEFAULT_CACHE_SIZE: usize = 40;

/// Smallest number of cached blocks.
pub const MINIMUM_CACHE_SIZE: usize = 5;

/// The content of one cache slot.
pub struct CacheEntryView {
    /// The block held by the slot, if any.
    pub map: Option<u32>,
    /// The unscrambled data of the block (32768 bytes).
    pub data: Seq<u8>,
    /// The raw frames of the block (33024 bytes).
    pub raw: Seq<u8>,
}

/// The slot of `block` in a cache of `size` slots.
pub open spec fn slot_of(size: nat, block: u32) -> int {
    block as int % size as int
}

/// What a lookup of `block` finds in the cache `v`: the data and raw frames of
/// the block, if its slot holds it.
pub open spec fn cached(v: Seq<CacheEntryView>, block: u32) -> Option<(Seq<u8>, Seq<u8>)> {
    let e = v[slot_of(v.len(), block)];
    if e.map == Some(block) {
        Some((e.data, e.raw))
    } else {
        None
    }
}

/// The raw frames rebuilt from unscrambled `data`: the 2048 bytes of every
/// sector are placed at offset `off` of its 2064-byte frame; the other bytes
/// keep their value in `old_raw`.
pub open spec fn layout_raw(old_raw: Seq<u8>, data: Seq<u8>, off: int) -> Seq<u8> {
    Seq::new(
        33024,
        |k: int|
            if off <= k % 2064 < off + 2048 {
                data[(k / 2064) * 2048 + k % 2064 - off]
            } else {
                old_raw[k]
            },
    )
}

struct Entry {
    map: Option<u32>,
    data: [u8; 32768],
    raw: [u8; 33024],
}

spec fn entry_view(e: Entry) -> CacheEntryView {
    CacheEntryView { map: e.map, data: e.data@, raw: e.raw@ }
}

/// The block cache.
pub struct BlockCache {
    entries: Vec<Entry>,
}

impl View for BlockCache {
    type V = Seq<CacheEntryView>;

    closed spec fn view(&self) -> Seq<CacheEntryView> {
        self.entries@.map_values(|e: Entry| entry_view(e))
    }
}

impl BlockCache {
    /// The cache has at least `MINIMUM_CACHE_SIZE` slots and every slot holds
    /// a full block.
    pub open spec fn wf(&self) -> bool {
        &&& self@.len() >= MINIMUM_CACHE_SIZE
        &&& forall|i: int| 0 <= i < self@.len() ==> (#[trigger] self@[i]).data.len() == 32768 && self@[i].raw.len() == 33024
    }

    /// A cache of `size` empty slots; fails if `size` is below
    /// `MINIMUM_CACHE_SIZE`.
    pub fn new(size: usize) -> (r: Result<Self>)
        ensures
            r is Ok <==> size >= MINIMUM_CACHE_SIZE,
            r matches Err(e) ==> e is InvalidArgument,
            r matches Ok(c) ==> c.wf() && c@.len() == size && forall|i: int| 0 <= i < size ==> (#[trigger] c@[i]).map is None,
    {
        if size < MINIMUM_CACHE_SIZE {
            return Err(Error::InvalidArgument(String::from_str("the cache needs at least 5 blocks")));
        }
        let mut entries: Vec<Entry> = Vec::new();
        let mut i: usize = 0;
        while i < size
            invariant
                i <= size,
                entries@.len() == i,
                forall|k: int| 0 <= k < i ==> (#[trigger] entries@[k]).map is None,
            decreases size - i,
        {
            entries.push(Entry { map: None, data: [0u8; 32768], raw: [0u8; 33024] });
            i = i + 1;
        }
        let c = BlockCache { entries };
        assert forall|i: int| 0 <= i < c@.len() implies (#[trigger] c@[i]).data.len() == 32768 && c@[i].raw.len() == 33024 by {
            assert(c@[i] == entry_view(c.entries@[i]));
        }
        Ok(c)
    }

    /// The number of slots.
    pub fn size(&self) -> (n: usize)
        ensures
            n == self@.len(),
    {
        self.entries.len()
    }

    fn pos(&self, block: u32) -> (p: usize)
        requires
            self.wf(),
        ensures
            p == slot_of(self@.len(), block),
            p < self@.len(),
    {
        (block as usize) % self.entries.len()
    }

    /// The data and raw frames of `block`, if the cache holds it.
    pub fn lookup(&self, block: u32) -> (r: Option<(&[u8; 32768], &[u8; 33024])>)
        requires
            self.wf(),
        ensures
            match cached(self@, block) {
                Some((d, w)) => r matches Some((rd, rw)) && rd@ == d && rw@ == w,
                None => r is None,
            },
    {
        let p = self.pos(block);
        let e = &self.entries[p];
        assert(self@[p as int] == entry_view(self.entries@[p as int]));
        if e.map == Some(block) {
            Some((&e.data, &e.raw))
        } else {
            None
        }
    }

    /// Stores the unscrambled `data` of `block` and rebuilds its raw frames
    /// from it: the data goes to offset 12 of every frame for a DVD, 6
    /// otherwise; the other raw bytes of the slot are left as they were.
    pub fn add_block(&mut self, block: u32, data: &[u8; 32768], is_dvd: bool)
        requires
            old(self).wf(),
        ensures
            final(self).wf(),
            final(self)@ == old(self)@.update(
                slot_of(old(self)@.len(), block),
                CacheEntryView {
                    map: Some(block),
                    data: data@,
                    raw: layout_raw(old(self)@[slot_of(old(self)@.len(), block)].raw, data@, if is_dvd { 12 } else { 6 }),
                },
            ),
    {
        let p = self.pos(block);
        assert(self@[p as int] == entry_view(self.entries@[p as int]));
        let off: usize = if is_dvd { 12 } else { 6 };
        let ghost r0 = self.entries@[p as int].raw@;
        let ghost target = layout_raw(r0, data@, off as int);
        let mut raw: [u8; 33024] = self.entries[p].raw;
        let mut cnt: usize = 0;
        while cnt < 16
            invariant
                cnt <= 16,
                off == 6 || off == 12,
                r0.len() == 33024,
                target == layout_raw(r0, data@, off as int),
                forall|k: int| 0 <= k < 33024 ==> #[trigger] raw@[k] == if k < cnt * 2064 { target[k] } else { r0[k] },
            decreases 16 - cnt,
        {
            let dst = cnt * 2064 + off;
            let src = cnt * 2048;
            let mut i: usize = 0;
            while i < 2048
                invariant
                    cnt < 16,
                    i <= 2048,
                    dst == cnt * 2064 + off,
                    src == cnt * 2048,
                    off == 6 || off == 12,
                    r0.len() == 33024,
                    target == layout_raw(r0, data@, off as int),
                    forall|k: int| 0 <= k < 33024 ==> #[trigger] raw@[k] == if k < cnt * 2064 || (cnt * 2064 + off <= k < cnt * 2064 + off + i) { target[k] } else { r0[k] },
                decreases 2048 - i,
            {
                proof {
                    lemma_record_pos(cnt as int, off + i, 2064);
                }
                raw[dst + i] = data[src + i];
                i = i + 1;
            }
            proof {
                assert forall|k: int| 0 <= k < 33024 implies #[trigger] raw@[k] == if k < (cnt + 1) * 2064 { target[k] } else { r0[k] } by {
                    if cnt * 2064 <= k < (cnt + 1) * 2064 {
                        lemma_record_pos(cnt as int, k - cnt * 2064, 2064);
                    }
                }
            }
            cnt = cnt + 1;
        }
        assert(raw@ =~= target);
        let e = Entry { map: Some(block), data: *data, raw };
        self.entries.set(p, e);
        assert(self@ =~= old(self)@.update(p as int, CacheEntryView { map: Some(block), data: data@, raw: target }));
    }

    /// Stores the unscrambled `data` of `block` together with its true raw
    /// frames `rawtrue`, as read from the disc.
    pub fn add_block_raw(&mut self, block: u32, data: &[u8; 32768], rawtrue: &[u8; 33024])
        requires
            old(self).wf(),
        ensures
            final(self).wf(),
            final(self)@ == old(self)@.update(
                slot_of(old(self)@.len(), block),
                CacheEntryView { map: Some(block), data: data@, raw: rawtrue@ },
            ),
    {
        let p = self.pos(block);
        let e = Entry { map: Some(block), data: *data, raw: *rawtrue };
        self.entries.set(p, e);
        assert(self@ =~= old(self)@.update(p as int, CacheEntryView { map: Some(block), data: data@, raw: rawtrue@ }));
    }
}

/// Reading a block back after storing it gives what was stored; any other
/// block is unaffected, unless it shared the slot, in which case it is gone.
pub proof fn lemma_cache_read_after_write(v: Seq<CacheEntryView>, block: u32, other: u32, e: CacheEntryView)
    requires
        v.len() > 0,
        e.map == Some(block),
    ensures
        cached(v.update(slot_of(v.len(), block), e), block) == Some((e.data, e.raw)),
        other != block ==> cached(v.update(slot_of(v.len(), block), e), other) == if slot_of(v.len(), other) == slot_of(v.len(), block) {
            None
        } else {
            cached(v, other)
        },
{
    vstd::arithmetic::div_mod::lemma_mod_bound(block as int, v.len() as int);
    vstd::arithmetic::div_mod::lemma_mod_bound(other as int, v.len() as int);
}

} // verus!
