//! Read methods (method0 to method13) and the parameters of the read loop
//! derived from the number of sectors read from disc and from memory.

use vstd::prelude::*;
use crate::error::{Error, Result};

verus! {

/// A read method.
#[derive(Debug, Clone, Copy, PartialEq, Eq, Structural)]
pub enum ReadMethod {
    /// method0: plain READ and memory dump.
    M0,
    /// method1: not streaming.
    M1,
    /// method2: not streaming.
    M2,
    /// method3: not streaming.
    M3,
    /// method4: streaming.
    M4,
    /// method5: streaming.
    M5,
    /// method6: streaming.
    M6,
    /// method7: Hitachi.
    M7,
    /// method8: Hitachi.
    M8,
    /// method9: Hitachi.
    M9,
    /// method10: Hitachi at 0xA13000.
    M10,
    /// method11: fast method.
    M11,
    /// method12: fast method, true raw frames and EDC check of every block.
    M12,
    /// method13: Hitachi Type2 (not implemented).
    M13,
}

/// The ID of a method.
pub open spec fn method_id(m: ReadMethod) -> u32 {
    match m {
        ReadMethod::M0 => 0,
        ReadMethod::M1 => 1,
        ReadMethod::M2 => 2,
        ReadMethod::M3 => 3,
        ReadMethod::M4 => 4,
        ReadMethod::M5 => 5,
        ReadMethod::M6 => 6,
        ReadMethod::M7 => 7,
        ReadMethod::M8 => 8,
        ReadMethod::M9 => 9,
        ReadMethod::M10 => 10,
        ReadMethod::M11 => 11,
        ReadMethod::M12 => 12,
        ReadMethod::M13 => 13,
    }
}

/// The method of an ID, if the ID is one of 0..=13.
pub open spec fn method_of_id(id: i32) -> Option<ReadMethod> {
    if id == 0 {
        Some(ReadMethod::M0)
    } else if id == 1 {
        Some(ReadMethod::M1)
    } else if id == 2 {
        Some(ReadMethod::M2)
    } else if id == 3 {
        Some(ReadMethod::M3)
    } else if id == 4 {
        Some(ReadMethod::M4)
    } else if id == 5 {
        Some(ReadMethod::M5)
    } else if id == 6 {
        Some(ReadMethod::M6)
    } else if id == 7 {
        Some(ReadMethod::M7)
    } else if id == 8 {
        Some(ReadMethod::M8)
    } else if id == 9 {
        Some(ReadMethod::M9)
    } else if id == 10 {
        Some(ReadMethod::M10)
    } else if id == 11 {
        Some(ReadMethod::M11)
    } else if id == 12 {
        Some(ReadMethod::M12)
    } else if id == 13 {
        Some(ReadMethod::M13)
    } else {
        None
    }
}

/// The methods 4 to 6 stream.
pub open spec fn method_streams(m: ReadMethod) -> bool {
    m == ReadMethod::M4 || m == ReadMethod::M5 || m == ReadMethod::M6
}

/// The default number of sectors of a method: 27 when streaming, else 16.
pub open spec fn method_default_sec(m: ReadMethod) -> u32 {
    if method_streams(m) {
        27
    } else {
        16
    }
}

impl ReadMethod {
    /// All methods, in the order of their IDs.
    pub const ALL: [ReadMethod; 14] = [
        ReadMethod::M0,
        ReadMethod::M1,
        ReadMethod::M2,
        ReadMethod::M3,
        ReadMethod::M4,
        ReadMethod::M5,
        ReadMethod::M6,
        ReadMethod::M7,
        ReadMethod::M8,
        ReadMethod::M9,
        ReadMethod::M10,
        ReadMethod::M11,
        ReadMethod::M12,
        ReadMethod::M13,
    ];

    /// The method of `id`, or `None` if `id` is not one of 0..=13.
    pub fn from_id(id: i32) -> (r: Option<Self>)
        ensures
            r == method_of_id(id),
    {
        match id {
            0 => Some(ReadMethod::M0),
            1 => Some(ReadMethod::M1),
            2 => Some(ReadMethod::M2),
            3 => Some(ReadMethod::M3),
            4 => Some(ReadMethod::M4),
            5 => Some(ReadMethod::M5),
            6 => Some(ReadMethod::M6),
            7 => Some(ReadMethod::M7),
            8 => Some(ReadMethod::M8),
            9 => Some(ReadMethod::M9),
            10 => Some(ReadMethod::M10),
            11 => Some(ReadMethod::M11),
            12 => Some(ReadMethod::M12),
            13 => Some(ReadMethod::M13),
            _ => None,
        }
    }

    /// The ID of the method.
    pub fn id(self) -> (r: u32)
        ensures
            r == method_id(self),
    {
        match self {
            ReadMethod::M0 => 0,
            ReadMethod::M1 => 1,
            ReadMethod::M2 => 2,
            ReadMethod::M3 => 3,
            ReadMethod::M4 => 4,
            ReadMethod::M5 => 5,
            ReadMethod::M6 => 6,
            ReadMethod::M7 => 7,
            ReadMethod::M8 => 8,
            ReadMethod::M9 => 9,
            ReadMethod::M10 => 10,
            ReadMethod::M11 => 11,
            ReadMethod::M12 => 12,
            ReadMethod::M13 => 13,
        }
    }

    /// Whether the method streams (methods 4 to 6).
    pub fn is_streaming(self) -> (r: bool)
        ensures
            r == method_streams(self),
    {
        match self {
            ReadMethod::M4 | ReadMethod::M5 | ReadMethod::M6 => true,
            _ => false,
        }
    }

    /// The default number of sectors read from disc and from memory.
    pub fn default_sec(self) -> (r: u32)
        ensures
            r == method_default_sec(self),
    {
        if self.is_streaming() {
            27
        } else {
            16
        }
    }
}

/// Every method has an ID from which it is found back, and the IDs are 0..=13.
pub proof fn lemma_method_id_roundtrip(m: ReadMethod)
    ensures
        method_of_id(method_id(m) as i32) == Some(m),
        method_id(m) <= 13,
{
}

/// An ID is a method's ID exactly when it is one of 0..=13.
pub proof fn lemma_method_of_id_range(id: i32)
    ensures
        method_of_id(id) is Some <==> 0 <= id <= 13,
        method_of_id(id) matches Some(m) ==> method_id(m) == id,
{
}

/// The number of sectors read from disc, if it is in 1..=100.
pub fn resolve_sec_disc(v: i64) -> (r: Option<u32>)
    ensures
        r == if 1 <= v <= 100 { Some(v as u32) } else { None::<u32> },
{
    if 1 <= v && v <= 100 {
        Some(v as u32)
    } else {
        None
    }
}

/// The number of sectors read from memory, if it is in 16..=100.
pub fn resolve_sec_mem(v: i64) -> (r: Option<u32>)
    ensures
        r == if 16 <= v <= 100 { Some(v as u32) } else { None::<u32> },
{
    if 16 <= v && v <= 100 {
        Some(v as u32)
    } else {
        None
    }
}

/// Parameters of the read loop.
#[derive(Debug, Clone, Copy, PartialEq, Eq, Structural)]
pub struct ReadParams {
    /// Sectors requested from disc.
    pub sec_disc: u32,
    /// Sectors taken from memory.
    pub sec_mem: u32,
    /// Number of extra reads.
    pub max_cnt: u32,
    /// Number of blocks obtained by one read.
    pub max_blk: u32,
}

/// The first `c` at or above `from` (and below 16) for which `(c + 1) * dev`
/// is 0 or 1 modulo 16; 16 if there is none.
pub open spec fn extra_reads_from(dev: int, from: int) -> int
    decreases 16 - from,
{
    if from >= 16 {
        16
    } else if ((from + 1) * dev) % 16 <= 1 {
        from
    } else {
        extra_reads_from(dev, from + 1)
    }
}

/// The number of extra reads for `sec_mem` sectors from memory: none if
/// `sec_mem % 16` is at most 3, else the first count `c >= 1` after which
/// `(c + 1)` reads of the deviation land back on a block boundary (modulo 16,
/// 0 or 1 sector off).
pub open spec fn extra_reads(sec_mem: u32) -> int {
    let dev = (sec_mem % 16) as int;
    if dev <= 3 {
        0
    } else {
        extra_reads_from(dev, 1)
    }
}

/// The extra reads for a deviation above 3 are found before 16.
proof fn lemma_extra_reads_bound(dev: int, from: int)
    requires
        4 <= dev < 16,
        1 <= from <= 15,
    ensures
        from <= extra_reads_from(dev, from) <= 15,
    decreases 16 - from,
{
    if from == 15 {
        assert(((from + 1) * dev) % 16 == 0) by (nonlinear_arith)
            requires
                from == 15,
        ;
    } else if ((from + 1) * dev) % 16 > 1 {
        lemma_extra_reads_bound(dev, from + 1);
    }
}

/// The extra reads of any `sec_mem` are at most 15.
pub proof fn lemma_extra_reads_le_15(sec_mem: u32)
    ensures
        0 <= extra_reads(sec_mem) <= 15,
{
    let dev = (sec_mem % 16) as int;
    if dev > 3 {
        lemma_extra_reads_bound(dev, 1);
    }
}

/// The parameters computed from `sec_mem` sectors from memory and
/// `sec_disc` sectors from disc.
pub open spec fn params_of(sec_disc: u32, sec_mem: u32) -> ReadParams {
    let max_cnt = extra_reads(sec_mem);
    ReadParams {
        sec_disc,
        sec_mem,
        max_cnt: max_cnt as u32,
        max_blk: ((sec_mem * (max_cnt + 1)) / 16) as u32,
    }
}

/// The number of extra reads for `sec_mem` sectors from memory.
fn extra_read_count(sec_mem: u32) -> (c: u32)
    ensures
        c == extra_reads(sec_mem),
        c <= 15,
{
    proof {
        lemma_extra_reads_le_15(sec_mem);
    }
    let deviation = sec_mem % 16;
    let mut counter: u32 = 0;
    if deviation > 3 {
        proof {
            lemma_extra_reads_bound(deviation as int, 1);
        }
        let mut cnt1: u32 = deviation;
        let mut done = false;
        while !done
            invariant
                4 <= deviation < 16,
                deviation == sec_mem % 16,
                counter <= 15,
                cnt1 == (counter + 1) * deviation,
                !done ==> extra_reads_from(deviation as int, 1) == extra_reads_from(deviation as int, counter + 1),
                !done ==> counter + 1 <= extra_reads_from(deviation as int, 1) <= 15,
                done ==> counter == extra_reads_from(deviation as int, 1),
            decreases 16 - counter, if done { 0int } else { 1int },
        {
            assert(cnt1 <= 240) by (nonlinear_arith)
                requires
                    cnt1 == (counter + 1) * deviation,
                    counter <= 15,
                    deviation < 16,
            ;
            cnt1 = cnt1 + deviation;
            counter = counter + 1;
            assert(cnt1 == (counter + 1) * deviation) by (nonlinear_arith)
                requires
                    cnt1 == counter * deviation + deviation,
            ;
            if cnt1 % 16 <= 1 {
                done = true;
            } else {
                proof {
                    if counter == 15 {
                        assert(((counter + 1) * deviation) % 16 == 0) by (nonlinear_arith)
                            requires
                                counter == 15,
                        ;
                    }
                    assert(extra_reads_from(deviation as int, counter as int) == extra_reads_from(deviation as int, counter + 1));
                    lemma_extra_reads_bound(deviation as int, counter + 1);
                }
            }
        }
    }
    counter
}

/// Computes the read loop parameters of `method` with the given (or the
/// method's default) numbers of sectors from disc and from memory. Fails if
/// the number from memory is 0.
pub fn compute_params(method: ReadMethod, sec_disc: Option<u32>, sec_mem: Option<u32>) -> (r: Result<ReadParams>)
    requires
        ({
            let m = match sec_mem {
                Some(v) => v,
                None => method_default_sec(method),
            };
            m * (extra_reads(m) + 1) <= u32::MAX
        }),
    ensures
        ({
            let d = match sec_disc {
                Some(v) => v,
                None => method_default_sec(method),
            };
            let m = match sec_mem {
                Some(v) => v,
                None => method_default_sec(method),
            };
            &&& (r is Err <==> m == 0)
            &&& (r matches Err(e) ==> e is InvalidArgument)
            &&& (r matches Ok(p) ==> p == params_of(d, m))
        }),
{
    let sec_disc = match sec_disc {
        Some(v) => v,
        None => method.default_sec(),
    };
    let sec_mem = match sec_mem {
        Some(v) => v,
        None => method.default_sec(),
    };
    if sec_mem == 0 {
        return Err(Error::InvalidArgument(String::from_str("sec_mem is 0")));
    }
    let max_cnt = extra_read_count(sec_mem);
    let n = sec_mem * (max_cnt + 1);
    let max_blk = (n - (n % 16)) / 16;
    Ok(ReadParams { sec_disc, sec_mem, max_cnt, max_blk })
}

/// The read method of a dump: the method asked for if its ID is valid, else
/// the drive's default method if its ID is valid, else method 12.
pub open spec fn selected_method(asked: Option<i32>, drive_default: u32) -> ReadMethod {
    let a = match asked {
        Some(id) => method_of_id(id),
        None => None,
    };
    match a {
        Some(m) => m,
        None => match method_of_id(drive_default as i32) {
            Some(m) => m,
            None => ReadMethod::M12,
        },
    }
}

/// The read method of a dump: the method asked for if its ID is valid, else
/// the drive's default method if its ID is valid, else method 12.
pub fn select_method(asked: Option<i32>, drive_default: u32) -> (m: ReadMethod)
    ensures
        m == selected_method(asked, drive_default),
{
    let a = match asked {
        Some(id) => ReadMethod::from_id(id),
        None => None,
    };
    match a {
        Some(m) => m,
        None => {
            #[verifier::truncate]
            let id = drive_default as i32;
            match ReadMethod::from_id(id) {
                Some(m) => m,
                None => ReadMethod::M12,
            }
        },
    }
}

/// Computes the read loop parameters like `compute_params`, and also fails
/// (instead of overflowing) when the sectors of all the reads from memory
/// do not fit in a `u32`.
pub fn params_for(method: ReadMethod, sec_disc: Option<u32>, sec_mem: Option<u32>) -> (r: Result<ReadParams>)
    ensures
        ({
            let d = match sec_disc {
                Some(v) => v,
                None => method_default_sec(method),
            };
            let m = match sec_mem {
                Some(v) => v,
                None => method_default_sec(method),
            };
            &&& (r is Ok <==> m != 0 && m * (extra_reads(m) + 1) <= u32::MAX)
            &&& (r matches Err(e) ==> e is InvalidArgument)
            &&& (r matches Ok(p) ==> p == params_of(d, m))
        }),
{
    let m = match sec_mem {
        Some(v) => v,
        None => method.default_sec(),
    };
    let c = extra_read_count(m);
    assert((m as u64) * (c as u64 + 1) <= 0xFFFF_FFFF * 16) by (nonlinear_arith)
        requires
            m <= 0xFFFF_FFFF,
            c <= 15,
    ;
    if (m as u64) * (c as u64 + 1) > 0xFFFF_FFFF {
        return Err(Error::InvalidArgument(String::from_str("too many sectors from memory")));
    }
    compute_params(method, sec_disc, sec_mem)
}

} // verus!
