//! Table of drive models: which memory dump, E7 base address, read family
//! and default read method a model uses, found by its INQUIRY vendor and
//! product strings.

use vstd::prelude::*;
use crate::text::{seq_contains, str_contains, str_eq};

verus! {

/// Read family of a drive.
#[derive(Debug, Clone, Copy, PartialEq, Eq, Structural)]
pub enum ReadFamily {
    /// Generic (depends on the memory dump).
    Default,
    /// Fixed base 0xA13000 (GCC-4160N/4240N).
    HitachiType1,
    /// Rotating base 0x80000000, 4-sector E7 (GCC-4241N/4242N).
    HitachiType2,
    /// Fixed base 0x80000000 (older MN103 drives).
    HitachiType4,
}

/// How the drive's memory is dumped.
#[derive(Debug, Clone, Copy, PartialEq, Eq, Structural)]
pub enum MemdumpKind {
    /// READ BUFFER (0x3C), 2064-byte layout.
    Vanilla2064,
    /// READ BUFFER (0x3C), 2384-byte layout.
    Vanilla2384,
    /// Hitachi 0xE7, fixed base 0x80000000.
    Hitachi,
    /// Hitachi MN103S 0xE7, base 0xA13000.
    HitachiMn103s,
    /// Lite-On READ BUFFER (0x3C).
    LiteOn,
    /// Renesas.
    Renesas,
}

/// The characteristics of one drive model.
#[derive(Debug, Clone, Copy)]
pub struct DriveProfile {
    /// INQUIRY vendor string.
    pub vendor: &'static str,
    /// Substring of the product ID (`None`: every product of the vendor).
    pub prod_substr: Option<&'static str>,
    /// Memory dump kind.
    pub memdump: MemdumpKind,
    /// E7 base address (for information).
    pub mem_base: u32,
    /// Read family.
    pub family: ReadFamily,
    /// Default read method.
    pub def_method: u32,
    /// Default memory dump command ID.
    pub command: u32,
}

/// The table of drive models, searched from the top.
pub open spec fn profile_table() -> Seq<DriveProfile> {
    seq![
        DriveProfile {
            vendor: "HL-DT-ST",
            prod_substr: Some("GCC-4160N"),
            memdump: MemdumpKind::HitachiMn103s,
            mem_base: 0xA13000,
            family: ReadFamily::HitachiType1,
            def_method: 12,
            command: 2,
        },
        DriveProfile {
            vendor: "HL-DT-ST",
            prod_substr: Some("GCC-4240N"),
            memdump: MemdumpKind::HitachiMn103s,
            mem_base: 0xA13000,
            family: ReadFamily::HitachiType1,
            def_method: 12,
            command: 2,
        },
        DriveProfile {
            vendor: "HL-DT-ST",
            prod_substr: Some("GCC-4241N"),
            memdump: MemdumpKind::Hitachi,
            mem_base: 0x80000000,
            family: ReadFamily::HitachiType2,
            def_method: 13,
            command: 2,
        },
        DriveProfile {
            vendor: "HL-DT-ST",
            prod_substr: Some("GCC-4242N"),
            memdump: MemdumpKind::Hitachi,
            mem_base: 0x80000000,
            family: ReadFamily::HitachiType2,
            def_method: 13,
            command: 2,
        },
        DriveProfile {
            vendor: "HL-DT-ST",
            prod_substr: Some("GDR8082N"),
            memdump: MemdumpKind::Hitachi,
            mem_base: 0x80000000,
            family: ReadFamily::HitachiType4,
            def_method: 9,
            command: 2,
        },
        DriveProfile {
            vendor: "HL-DT-ST",
            prod_substr: Some("GDR8161B"),
            memdump: MemdumpKind::Hitachi,
            mem_base: 0x80000000,
            family: ReadFamily::HitachiType4,
            def_method: 9,
            command: 2,
        },
        DriveProfile {
            vendor: "HL-DT-ST",
            prod_substr: Some("GDR8162B"),
            memdump: MemdumpKind::Hitachi,
            mem_base: 0x80000000,
            family: ReadFamily::HitachiType4,
            def_method: 9,
            command: 2,
        },
        DriveProfile {
            vendor: "HL-DT-ST",
            prod_substr: Some("GDR8163B"),
            memdump: MemdumpKind::Hitachi,
            mem_base: 0x80000000,
            family: ReadFamily::HitachiType4,
            def_method: 9,
            command: 2,
        },
        DriveProfile {
            vendor: "HL-DT-ST",
            prod_substr: Some("GDR8164B"),
            memdump: MemdumpKind::Hitachi,
            mem_base: 0x80000000,
            family: ReadFamily::HitachiType4,
            def_method: 9,
            command: 2,
        },
        DriveProfile {
            vendor: "HL-DT-ST",
            prod_substr: Some("GCC-4243N"),
            memdump: MemdumpKind::Hitachi,
            mem_base: 0x80000000,
            family: ReadFamily::HitachiType4,
            def_method: 9,
            command: 2,
        },
        DriveProfile {
            vendor: "HL-DT-ST",
            prod_substr: Some("GCC-4244N"),
            memdump: MemdumpKind::Hitachi,
            mem_base: 0x80000000,
            family: ReadFamily::HitachiType4,
            def_method: 9,
            command: 2,
        },
        DriveProfile {
            vendor: "HL-DT-ST",
            prod_substr: Some("GCC-4247N"),
            memdump: MemdumpKind::Hitachi,
            mem_base: 0x80000000,
            family: ReadFamily::HitachiType4,
            def_method: 9,
            command: 2,
        },
        DriveProfile {
            vendor: "LITE-ON",
            prod_substr: Some("DVDRW LH-18A1H"),
            memdump: MemdumpKind::LiteOn,
            mem_base: 0,
            family: ReadFamily::Default,
            def_method: 5,
            command: 3,
        },
        DriveProfile {
            vendor: "LITE-ON",
            prod_substr: Some("DVDRW LH-18A1P"),
            memdump: MemdumpKind::LiteOn,
            mem_base: 0,
            family: ReadFamily::Default,
            def_method: 5,
            command: 3,
        },
        DriveProfile {
            vendor: "LITE-ON",
            prod_substr: Some("DVDRW LH-20A1H"),
            memdump: MemdumpKind::LiteOn,
            mem_base: 0,
            family: ReadFamily::Default,
            def_method: 5,
            command: 3,
        },
        DriveProfile {
            vendor: "LITE-ON",
            prod_substr: Some("DVDRW LH-20A1P"),
            memdump: MemdumpKind::LiteOn,
            mem_base: 0,
            family: ReadFamily::Default,
            def_method: 5,
            command: 3,
        },
        DriveProfile {
            vendor: "TSSTcorp",
            prod_substr: Some("DVD-ROM SH-D162A"),
            memdump: MemdumpKind::Vanilla2384,
            mem_base: 0,
            family: ReadFamily::Default,
            def_method: 0,
            command: 1,
        },
        DriveProfile {
            vendor: "TSSTcorp",
            prod_substr: Some("DVD-ROM SH-D162B"),
            memdump: MemdumpKind::Vanilla2384,
            mem_base: 0,
            family: ReadFamily::Default,
            def_method: 0,
            command: 1,
        },
        DriveProfile {
            vendor: "TSSTcorp",
            prod_substr: Some("DVD-ROM SH-D162C"),
            memdump: MemdumpKind::Vanilla2384,
            mem_base: 0,
            family: ReadFamily::Default,
            def_method: 0,
            command: 1,
        },
        DriveProfile {
            vendor: "TSSTcorp",
            prod_substr: Some("DVD-ROM SH-D162D"),
            memdump: MemdumpKind::Vanilla2384,
            mem_base: 0,
            family: ReadFamily::Default,
            def_method: 0,
            command: 1,
        },
        DriveProfile {
            vendor: "PLEXTOR",
            prod_substr: None,
            memdump: MemdumpKind::Vanilla2064,
            mem_base: 0,
            family: ReadFamily::Default,
            def_method: 2,
            command: 0,
        },
    ]
}

/// The table of drive models, searched from the top.
pub fn profiles() -> (v: Vec<DriveProfile>)
    ensures
        v@ == profile_table(),
{
    let v = vec![
        DriveProfile {
            vendor: "HL-DT-ST",
            prod_substr: Some("GCC-4160N"),
            memdump: MemdumpKind::HitachiMn103s,
            mem_base: 0xA13000,
            family: ReadFamily::HitachiType1,
            def_method: 12,
            command: 2,
        },
        DriveProfile {
            vendor: "HL-DT-ST",
            prod_substr: Some("GCC-4240N"),
            memdump: MemdumpKind::HitachiMn103s,
            mem_base: 0xA13000,
            family: ReadFamily::HitachiType1,
            def_method: 12,
            command: 2,
        },
        DriveProfile {
            vendor: "HL-DT-ST",
            prod_substr: Some("GCC-4241N"),
            memdump: MemdumpKind::Hitachi,
            mem_base: 0x80000000,
            family: ReadFamily::HitachiType2,
            def_method: 13,
            command: 2,
        },
        DriveProfile {
            vendor: "HL-DT-ST",
            prod_substr: Some("GCC-4242N"),
            memdump: MemdumpKind::Hitachi,
            mem_base: 0x80000000,
            family: ReadFamily::HitachiType2,
            def_method: 13,
            command: 2,
        },
        DriveProfile {
            vendor: "HL-DT-ST",
            prod_substr: Some("GDR8082N"),
            memdump: MemdumpKind::Hitachi,
            mem_base: 0x80000000,
            family: ReadFamily::HitachiType4,
            def_method: 9,
            command: 2,
        },
        DriveProfile {
            vendor: "HL-DT-ST",
            prod_substr: Some("GDR8161B"),
            memdump: MemdumpKind::Hitachi,
            mem_base: 0x80000000,
            family: ReadFamily::HitachiType4,
            def_method: 9,
            command: 2,
        },
        DriveProfile {
            vendor: "HL-DT-ST",
            prod_substr: Some("GDR8162B"),
            memdump: MemdumpKind::Hitachi,
            mem_base: 0x80000000,
            family: ReadFamily::HitachiType4,
            def_method: 9,
            command: 2,
        },
        DriveProfile {
            vendor: "HL-DT-ST",
            prod_substr: Some("GDR8163B"),
            memdump: MemdumpKind::Hitachi,
            mem_base: 0x80000000,
            family: ReadFamily::HitachiType4,
            def_method: 9,
            command: 2,
        },
        DriveProfile {
            vendor: "HL-DT-ST",
            prod_substr: Some("GDR8164B"),
            memdump: MemdumpKind::Hitachi,
            mem_base: 0x80000000,
            family: ReadFamily::HitachiType4,
            def_method: 9,
            command: 2,
        },
        DriveProfile {
            vendor: "HL-DT-ST",
            prod_substr: Some("GCC-4243N"),
            memdump: MemdumpKind::Hitachi,
            mem_base: 0x80000000,
            family: ReadFamily::HitachiType4,
            def_method: 9,
            command: 2,
        },
        DriveProfile {
            vendor: "HL-DT-ST",
            prod_substr: Some("GCC-4244N"),
            memdump: MemdumpKind::Hitachi,
            mem_base: 0x80000000,
            family: ReadFamily::HitachiType4,
            def_method: 9,
            command: 2,
        },
        DriveProfile {
            vendor: "HL-DT-ST",
            prod_substr: Some("GCC-4247N"),
            memdump: MemdumpKind::Hitachi,
            mem_base: 0x80000000,
            family: ReadFamily::HitachiType4,
            def_method: 9,
            command: 2,
        },
        DriveProfile {
            vendor: "LITE-ON",
            prod_substr: Some("DVDRW LH-18A1H"),
            memdump: MemdumpKind::LiteOn,
            mem_base: 0,
            family: ReadFamily::Default,
            def_method: 5,
            command: 3,
        },
        DriveProfile {
            vendor: "LITE-ON",
            prod_substr: Some("DVDRW LH-18A1P"),
            memdump: MemdumpKind::LiteOn,
            mem_base: 0,
            family: ReadFamily::Default,
            def_method: 5,
            command: 3,
        },
        DriveProfile {
            vendor: "LITE-ON",
            prod_substr: Some("DVDRW LH-20A1H"),
            memdump: MemdumpKind::LiteOn,
            mem_base: 0,
            family: ReadFamily::Default,
            def_method: 5,
            command: 3,
        },
        DriveProfile {
            vendor: "LITE-ON",
            prod_substr: Some("DVDRW LH-20A1P"),
            memdump: MemdumpKind::LiteOn,
            mem_base: 0,
            family: ReadFamily::Default,
            def_method: 5,
            command: 3,
        },
        DriveProfile {
            vendor: "TSSTcorp",
            prod_substr: Some("DVD-ROM SH-D162A"),
            memdump: MemdumpKind::Vanilla2384,
            mem_base: 0,
            family: ReadFamily::Default,
            def_method: 0,
            command: 1,
        },
        DriveProfile {
            vendor: "TSSTcorp",
            prod_substr: Some("DVD-ROM SH-D162B"),
            memdump: MemdumpKind::Vanilla2384,
            mem_base: 0,
            family: ReadFamily::Default,
            def_method: 0,
            command: 1,
        },
        DriveProfile {
            vendor: "TSSTcorp",
            prod_substr: Some("DVD-ROM SH-D162C"),
            memdump: MemdumpKind::Vanilla2384,
            mem_base: 0,
            family: ReadFamily::Default,
            def_method: 0,
            command: 1,
        },
        DriveProfile {
            vendor: "TSSTcorp",
            prod_substr: Some("DVD-ROM SH-D162D"),
            memdump: MemdumpKind::Vanilla2384,
            mem_base: 0,
            family: ReadFamily::Default,
            def_method: 0,
            command: 1,
        },
        DriveProfile {
            vendor: "PLEXTOR",
            prod_substr: None,
            memdump: MemdumpKind::Vanilla2064,
            mem_base: 0,
            family: ReadFamily::Default,
            def_method: 2,
            command: 0,
        },
    ];
    assert(v@ =~= profile_table());
    v
}

/// A profile applies to a drive if the vendor is the same and the product ID
/// contains the profile's substring (if it has one).
pub open spec fn profile_matches(p: DriveProfile, vendor: Seq<char>, prod_id: Seq<char>) -> bool {
    &&& p.vendor@ == vendor
    &&& match p.prod_substr {
        None => true,
        Some(sub) => seq_contains(prod_id, sub@),
    }
}

/// The first profile of `t` that applies.
pub open spec fn first_profile(t: Seq<DriveProfile>, vendor: Seq<char>, prod_id: Seq<char>) -> Option<DriveProfile>
    decreases t.len(),
{
    if t.len() == 0 {
        None
    } else if profile_matches(t[0], vendor, prod_id) {
        Some(t[0])
    } else {
        first_profile(t.drop_first(), vendor, prod_id)
    }
}

/// The memory base of `p` is the one its memory dump reads from: the fixed
/// E7 base 0xA13000 of the MN103S drives, 0x80000000 of the older Hitachi
/// drives, and none for the other dumps; the Type 1 Hitachi drives are
/// MN103S drives.
pub open spec fn profile_base_ok(p: DriveProfile) -> bool {
    &&& p.memdump == MemdumpKind::HitachiMn103s ==> p.mem_base == crate::drive::dvd::MN103S_MEM_BASE
    &&& p.memdump == MemdumpKind::Hitachi ==> p.mem_base == crate::drive::dvd::HITACHI_MEM_BASE
    &&& (p.memdump != MemdumpKind::HitachiMn103s && p.memdump != MemdumpKind::Hitachi) ==> p.mem_base == 0
    &&& p.family == ReadFamily::HitachiType1 ==> p.memdump == MemdumpKind::HitachiMn103s
}

/// The profile found in a table is one of its entries.
proof fn lemma_first_profile_member(t: Seq<DriveProfile>, vendor: Seq<char>, prod_id: Seq<char>)
    ensures
        first_profile(t, vendor, prod_id) matches Some(p) ==> exists|i: int| 0 <= i < t.len() && t[i] == p,
    decreases t.len(),
{
    if t.len() > 0 && !profile_matches(t[0], vendor, prod_id) {
        lemma_first_profile_member(t.drop_first(), vendor, prod_id);
        match first_profile(t, vendor, prod_id) {
            Some(p) => {
                let i = choose|i: int| 0 <= i < t.drop_first().len() && t.drop_first()[i] == p;
                assert(t[i + 1] == p);
            },
            None => {},
        }
    } else if t.len() > 0 {
        assert(t[0] == t[0]);
    }
}

/// Every drive profile carries the memory base its memory dump reads from
/// (0xA13000 for the MN103S drives such as the GCC-4160N and GCC-4240N,
/// 0x80000000 for the older Hitachi drives, 0 otherwise), and so does the
/// profile `lookup` finds for any drive.
pub proof fn lemma_profile_bases(vendor: Seq<char>, prod_id: Seq<char>)
    ensures
        forall|i: int| 0 <= i < profile_table().len() ==> profile_base_ok(#[trigger] profile_table()[i]),
        first_profile(profile_table(), vendor, prod_id) matches Some(p) ==> profile_base_ok(p),
{
    let t = profile_table();
    assert forall|i: int| 0 <= i < t.len() implies profile_base_ok(#[trigger] t[i]) by {
        assert(profile_base_ok(t[i]));
    }
    lemma_first_profile_member(t, vendor, prod_id);
}

/// The profile of the drive with INQUIRY `vendor` and `prod_id`: the first of
/// the table whose vendor equals `vendor` and whose product substring occurs
/// in `prod_id`.
pub fn lookup(vendor: &str, prod_id: &str) -> (r: Option<DriveProfile>)
    ensures
        r == first_profile(profile_table(), vendor@, prod_id@),
{
    let t = profiles();
    let n = t.len();
    let mut i: usize = 0;
    assert(t@.subrange(0, n as int) =~= t@);
    while i < n
        invariant
            i <= n,
            n == t@.len(),
            t@ == profile_table(),
            first_profile(t@, vendor@, prod_id@) == first_profile(t@.subrange(i as int, n as int), vendor@, prod_id@),
        decreases n - i,
    {
        let p = t[i];
        let ok = str_eq(p.vendor, vendor) && match p.prod_substr {
            None => true,
            Some(sub) => str_contains(prod_id, sub),
        };
        proof {
            assert(t@.subrange(i as int, n as int)[0] == p);
            assert(t@.subrange(i as int, n as int).drop_first() =~= t@.subrange(i + 1, n as int));
        }
        if ok {
            return Some(p);
        }
        i = i + 1;
    }
    assert(t@.subrange(n as int, n as int).len() == 0);
    None
}

} // verus!
