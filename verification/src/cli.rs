//! Command-line parsing in the style of `getopt_long`: short options that
//! may be grouped (`-gsH`), short options whose value is the rest of the
//! token or the next argument (`-d/dev/sg0`, `-d /dev/sg0`), long options
//! with `--name=value` or `--name value`, and `--methodN[=req,exp]`.
//! Other arguments are ignored.

use vstd::prelude::*;
use crate::error::{Error, Result};
use crate::text::{
    chars_eq, chars_match_at, chars_of, parse_i32, parse_i64, parse_int_spec, parse_u32,
    push_char, string_of, sub_chars, trim_chars, trim_ws,
};

verus! {

/// The parsed options.
#[derive(Debug, Clone)]
pub struct Options {
    /// `-d/--device`.
    pub device: Option<String>,
    /// `-a/--autodump`.
    pub autodump: bool,
    /// `-g/--gui`.
    pub gui: bool,
    /// `-r/--raw`.
    pub raw_out: Option<String>,
    /// `-i/--iso`.
    pub iso_out: Option<String>,
    /// `-u/--unscramble`.
    pub raw_in: Option<String>,
    /// `-s/--resume` (also set by `-a` and `-A`).
    pub resume: bool,
    /// The read method (`None`: the drive's default).
    pub dump_method: Option<i32>,
    /// `-c/--command` (-1 when not given).
    pub command: i64,
    /// `-t/--startsector`.
    pub start_sector: Option<u32>,
    /// `-e/--stopsector` (the sector itself is not dumped).
    pub end_sector: Option<u32>,
    /// `-S/--size`.
    pub sectors_no: Option<u32>,
    /// `-x/--speed`.
    pub speed: Option<u32>,
    /// `-T/--type`.
    pub disctype: Option<u32>,
    /// `req` of `--methodN=req,exp`.
    pub sec_disc: Option<u32>,
    /// `exp` of `--methodN=req,exp`.
    pub sec_mem: Option<u32>,
    /// `-H/--nohash`.
    pub no_hashing: bool,
    /// `-p/--stop`.
    pub stop_unit: bool,
    /// `-A/--allmethods`.
    pub allmethods: bool,
    /// `-h/--help`.
    pub help: bool,
}

/// The options with their strings as character sequences.
pub struct OptionsView {
    pub device: Option<Seq<char>>,
    pub autodump: bool,
    pub gui: bool,
    pub raw_out: Option<Seq<char>>,
    pub iso_out: Option<Seq<char>>,
    pub raw_in: Option<Seq<char>>,
    pub resume: bool,
    pub dump_method: Option<i32>,
    pub command: i64,
    pub start_sector: Option<u32>,
    pub end_sector: Option<u32>,
    pub sectors_no: Option<u32>,
    pub speed: Option<u32>,
    pub disctype: Option<u32>,
    pub sec_disc: Option<u32>,
    pub sec_mem: Option<u32>,
    pub no_hashing: bool,
    pub stop_unit: bool,
    pub allmethods: bool,
    pub help: bool,
}

/// The characters of an optional string.
pub open spec fn opt_chars(s: Option<String>) -> Option<Seq<char>> {
    match s {
        Some(x) => Some(x@),
        None => None,
    }
}

impl View for Options {
    type V = OptionsView;

    open spec fn view(&self) -> OptionsView {
        OptionsView {
            device: opt_chars(self.device),
            autodump: self.autodump,
            gui: self.gui,
            raw_out: opt_chars(self.raw_out),
            iso_out: opt_chars(self.iso_out),
            raw_in: opt_chars(self.raw_in),
            resume: self.resume,
            dump_method: self.dump_method,
            command: self.command,
            start_sector: self.start_sector,
            end_sector: self.end_sector,
            sectors_no: self.sectors_no,
            speed: self.speed,
            disctype: self.disctype,
            sec_disc: self.sec_disc,
            sec_mem: self.sec_mem,
            no_hashing: self.no_hashing,
            stop_unit: self.stop_unit,
            allmethods: self.allmethods,
            help: self.help,
        }
    }
}

/// The options before any argument: nothing set, no command (-1).
pub open spec fn initial_options() -> OptionsView {
    OptionsView {
        device: None,
        autodump: false,
        gui: false,
        raw_out: None,
        iso_out: None,
        raw_in: None,
        resume: false,
        dump_method: None,
        command: -1i64,
        start_sector: None,
        end_sector: None,
        sectors_no: None,
        speed: None,
        disctype: None,
        sec_disc: None,
        sec_mem: None,
        no_hashing: false,
        stop_unit: false,
        allmethods: false,
        help: false,
    }
}

/// The options that take a value.
#[derive(Clone, Copy)]
pub enum ValueOpt {
    Device,
    Raw,
    Iso,
    Unscramble,
    Command,
    StartSector,
    StopSector,
    Size,
    Speed,
    Type,
}

/// A sector count or speed: the trimmed text read as an `i64`, which must
/// fit in a `u32`.
pub open spec fn number_value(v: Seq<char>) -> Option<u32> {
    match parse_int_spec(trim_ws(v), true, i64::MIN as int, i64::MAX as int) {
        Some(n) => if 0 <= n <= u32::MAX {
            Some(n as u32)
        } else {
            None
        },
        None => None,
    }
}

/// The options `o` after option `k` with value `v`; `None` for an invalid
/// value.
pub open spec fn value_applied(o: OptionsView, k: ValueOpt, v: Seq<char>) -> Option<OptionsView> {
    match k {
        ValueOpt::Device => Some(OptionsView { device: Some(v), ..o }),
        ValueOpt::Raw => Some(OptionsView { raw_out: Some(v), ..o }),
        ValueOpt::Iso => Some(OptionsView { iso_out: Some(v), ..o }),
        ValueOpt::Unscramble => Some(OptionsView { raw_in: Some(v), ..o }),
        ValueOpt::Command => match parse_int_spec(trim_ws(v), true, i64::MIN as int, i64::MAX as int) {
            Some(n) => Some(OptionsView { command: n as i64, ..o }),
            None => None,
        },
        ValueOpt::StartSector => match number_value(v) {
            Some(n) => Some(OptionsView { start_sector: Some(n), ..o }),
            None => None,
        },
        ValueOpt::StopSector => match number_value(v) {
            Some(n) => Some(OptionsView { end_sector: Some(n), ..o }),
            None => None,
        },
        ValueOpt::Size => match number_value(v) {
            Some(n) => Some(OptionsView { sectors_no: Some(n), ..o }),
            None => None,
        },
        ValueOpt::Speed => match number_value(v) {
            Some(n) => Some(OptionsView { speed: Some(n), ..o }),
            None => None,
        },
        ValueOpt::Type => match number_value(v) {
            Some(n) => if n <= 3 {
                Some(OptionsView { disctype: Some(n), ..o })
            } else {
                None
            },
            None => None,
        },
    }
}

/// An `InvalidArgument` error whose message is `prefix` followed by `detail`.
fn invalid(prefix: &str, detail: &[char]) -> (e: Error)
    ensures
        e matches Error::InvalidArgument(m) && m@ == prefix@ + detail@,
{
    let mut s = String::from_str(prefix);
    let mut i: usize = 0;
    while i < detail.len()
        invariant
            i <= detail@.len(),
            s@ == prefix@ + detail@.subrange(0, i as int),
        decreases detail@.len() - i,
    {
        push_char(&mut s, detail[i]);
        proof {
            assert(detail@.subrange(0, i + 1) =~= detail@.subrange(0, i as int).push(detail@[i as int]));
        }
        i = i + 1;
    }
    assert(detail@.subrange(0, detail@.len() as int) =~= detail@);
    Error::InvalidArgument(s)
}

/// Reads a sector count or speed.
fn number(v: &[char]) -> (r: Result<u32>)
    ensures
        match r {
            Ok(n) => number_value(v@) == Some(n),
            Err(e) => number_value(v@) is None && e is InvalidArgument,
        },
{
    let t = trim_chars(v);
    match parse_i64(t.as_slice()) {
        Some(n) => if 0 <= n && n <= 0xFFFF_FFFF {
            Ok(n as u32)
        } else {
            Err(invalid("number out of range: ", v))
        },
        None => Err(invalid("invalid number: ", v)),
    }
}

/// Applies option `k` with value `v` to `o`.
fn apply_value(o: &mut Options, k: ValueOpt, v: &[char]) -> (r: Result<()>)
    ensures
        match r {
            Ok(()) => value_applied(old(o)@, k, v@) == Some(final(o)@),
            Err(e) => value_applied(old(o)@, k, v@) is None && e is InvalidArgument && final(o)@ == old(o)@,
        },
{
    match k {
        ValueOpt::Device => {
            o.device = Some(string_of(v));
        },
        ValueOpt::Raw => {
            o.raw_out = Some(string_of(v));
        },
        ValueOpt::Iso => {
            o.iso_out = Some(string_of(v));
        },
        ValueOpt::Unscramble => {
            o.raw_in = Some(string_of(v));
        },
        ValueOpt::Command => {
            let t = trim_chars(v);
            match parse_i64(t.as_slice()) {
                Some(n) => {
                    o.command = n;
                },
                None => {
                    return Err(invalid("invalid number: ", v));
                },
            }
        },
        ValueOpt::StartSector => match number(v) {
            Ok(n) => {
                o.start_sector = Some(n);
            },
            Err(e) => {
                return Err(e);
            },
        },
        ValueOpt::StopSector => match number(v) {
            Ok(n) => {
                o.end_sector = Some(n);
            },
            Err(e) => {
                return Err(e);
            },
        },
        ValueOpt::Size => match number(v) {
            Ok(n) => {
                o.sectors_no = Some(n);
            },
            Err(e) => {
                return Err(e);
            },
        },
        ValueOpt::Speed => match number(v) {
            Ok(n) => {
                o.speed = Some(n);
            },
            Err(e) => {
                return Err(e);
            },
        },
        ValueOpt::Type => match number(v) {
            Ok(n) => {
                if n > 3 {
                    return Err(Error::InvalidArgument(String::from_str("-T takes 0 to 3")));
                }
                o.disctype = Some(n);
            },
            Err(e) => {
                return Err(e);
            },
        },
    }
    Ok(())
}


/// The position of the first `c` in `s` at or after `i`, or the length of `s`.
pub open spec fn char_from(s: Seq<char>, i: int, c: char) -> int
    decreases s.len() - i,
{
    if i >= s.len() {
        s.len() as int
    } else if s[i] == c {
        i
    } else {
        char_from(s, i + 1, c)
    }
}

/// `s` without its leading `'='` characters.
pub open spec fn strip_leading_eq(s: Seq<char>) -> Seq<char>
    decreases s.len(),
{
    if s.len() > 0 && s[0] == '=' {
        strip_leading_eq(s.drop_first())
    } else {
        s
    }
}

/// The options `o` after the sector counts `req,exp` of a read method: the
/// text is split at commas, the first two pieces are trimmed and read as
/// `u32`s (further pieces are ignored); a text without a comma must be
/// blank.
pub open spec fn sec_spec_applied(o: OptionsView, s: Seq<char>) -> Option<OptionsView> {
    let p = char_from(s, 0, ',');
    let req = trim_ws(s.subrange(0, p));
    if p < s.len() {
        let q = char_from(s, p + 1, ',');
        let exp = trim_ws(s.subrange(p + 1, q));
        match (parse_int_spec(req, false, 0, u32::MAX as int), parse_int_spec(exp, false, 0, u32::MAX as int)) {
            (Some(a), Some(b)) => Some(OptionsView { sec_disc: Some(a as u32), sec_mem: Some(b as u32), ..o }),
            _ => None,
        }
    } else if req.len() > 0 {
        None
    } else {
        Some(o)
    }
}

/// The position found by `char_from` lies between the start and the end.
pub proof fn lemma_char_from_bounds(s: Seq<char>, i: int, c: char)
    requires
        0 <= i <= s.len(),
    ensures
        i <= char_from(s, i, c) <= s.len(),
    decreases s.len() - i,
{
    if i < s.len() && s[i] != c {
        lemma_char_from_bounds(s, i + 1, c);
    }
}

/// The position of the first `c` in `v` at or after `from`, or the length.
pub(crate) fn find_char(v: &[char], from: usize, c: char) -> (r: usize)
    requires
        from <= v@.len(),
    ensures
        r == char_from(v@, from as int, c),
        from <= r <= v@.len(),
{
    let mut i = from;
    while i < v.len() && v[i] != c
        invariant
            from <= i <= v@.len(),
            char_from(v@, i as int, c) == char_from(v@, from as int, c),
        decreases v@.len() - i,
    {
        i = i + 1;
    }
    i
}

/// `v` without its leading `'='` characters.
fn skip_leading_eq(v: &[char]) -> (r: Vec<char>)
    ensures
        r@ == strip_leading_eq(v@),
{
    let mut i: usize = 0;
    assert(v@.subrange(0, v@.len() as int) =~= v@);
    while i < v.len() && v[i] == '='
        invariant
            i <= v@.len(),
            strip_leading_eq(v@.subrange(i as int, v@.len() as int)) == strip_leading_eq(v@),
        decreases v@.len() - i,
    {
        assert(v@.subrange(i as int, v@.len() as int).drop_first() =~= v@.subrange(i + 1, v@.len() as int));
        i = i + 1;
    }
    sub_chars(v, i, v.len())
}

/// Applies the sector counts `req,exp` of a read method to `o`.
fn parse_sec_spec(o: &mut Options, spec: &[char]) -> (r: Result<()>)
    ensures
        match r {
            Ok(()) => sec_spec_applied(old(o)@, spec@) == Some(final(o)@),
            Err(e) => sec_spec_applied(old(o)@, spec@) is None && e is InvalidArgument && final(o)@ == old(o)@,
        },
{
    let p = find_char(spec, 0, ',');
    let req_raw = sub_chars(spec, 0, p);
    let req = trim_chars(req_raw.as_slice());
    if p < spec.len() {
        let q = find_char(spec, p + 1, ',');
        let exp_raw = sub_chars(spec, p + 1, q);
        let exp = trim_chars(exp_raw.as_slice());
        let a = match parse_u32(req.as_slice()) {
            Some(a) => a,
            None => {
                return Err(invalid("invalid req: ", req.as_slice()));
            },
        };
        let b = match parse_u32(exp.as_slice()) {
            Some(b) => b,
            None => {
                return Err(invalid("invalid exp: ", exp.as_slice()));
            },
        };
        o.sec_disc = Some(a);
        o.sec_mem = Some(b);
        Ok(())
    } else if req.len() > 0 {
        Err(Error::InvalidArgument(String::from_str("expected --methodN=<req>,<exp>")))
    } else {
        Ok(())
    }
}

/// The option taking a value with long name `name`, if any.
pub open spec fn long_value_opt(name: Seq<char>) -> Option<ValueOpt> {
    if name == "device"@ {
        Some(ValueOpt::Device)
    } else if name == "raw"@ {
        Some(ValueOpt::Raw)
    } else if name == "iso"@ {
        Some(ValueOpt::Iso)
    } else if name == "unscramble"@ {
        Some(ValueOpt::Unscramble)
    } else if name == "command"@ {
        Some(ValueOpt::Command)
    } else if name == "startsector"@ {
        Some(ValueOpt::StartSector)
    } else if name == "stopsector"@ {
        Some(ValueOpt::StopSector)
    } else if name == "size"@ {
        Some(ValueOpt::Size)
    } else if name == "speed"@ {
        Some(ValueOpt::Speed)
    } else if name == "type"@ {
        Some(ValueOpt::Type)
    } else {
        None
    }
}

/// Whether `name` is `lit`.
fn is_name(name: &[char], lit: &str) -> (r: bool)
    ensures
        r == (name@ == lit@),
{
    let l = chars_of(lit);
    chars_eq(name, l.as_slice())
}

/// The option taking a value with long name `name`, if any.
fn find_long_value_opt(name: &[char]) -> (r: Option<ValueOpt>)
    ensures
        r == long_value_opt(name@),
{
    if is_name(name, "device") {
        Some(ValueOpt::Device)
    } else if is_name(name, "raw") {
        Some(ValueOpt::Raw)
    } else if is_name(name, "iso") {
        Some(ValueOpt::Iso)
    } else if is_name(name, "unscramble") {
        Some(ValueOpt::Unscramble)
    } else if is_name(name, "command") {
        Some(ValueOpt::Command)
    } else if is_name(name, "startsector") {
        Some(ValueOpt::StartSector)
    } else if is_name(name, "stopsector") {
        Some(ValueOpt::StopSector)
    } else if is_name(name, "size") {
        Some(ValueOpt::Size)
    } else if is_name(name, "speed") {
        Some(ValueOpt::Speed)
    } else if is_name(name, "type") {
        Some(ValueOpt::Type)
    } else {
        None
    }
}

/// `name` is `method` followed by the method number.
pub open spec fn is_method_name(name: Seq<char>) -> bool {
    name.len() >= "method"@.len() && name.subrange(0, "method"@.len() as int) == "method"@
}

/// The options `o` after the long option `argv[i]` (which starts with
/// `--`), with the index of the next argument; `None` for an error. The
/// value of an option is the text after the first `=`, or else the next
/// argument.
pub open spec fn long_token(argv: Seq<Seq<char>>, i: int, o: OptionsView) -> Option<(OptionsView, int)> {
    let body = argv[i].subrange(2, argv[i].len() as int);
    let p = char_from(body, 0, '=');
    let name = body.subrange(0, p);
    let val: Option<Seq<char>> = if p < body.len() {
        Some(body.subrange(p + 1, body.len() as int))
    } else {
        None
    };
    match long_value_opt(name) {
        Some(k) => match val {
            Some(v) => match value_applied(o, k, v) {
                Some(o2) => Some((o2, i + 1)),
                None => None,
            },
            None => if i + 1 < argv.len() {
                match value_applied(o, k, argv[i + 1]) {
                    Some(o2) => Some((o2, i + 2)),
                    None => None,
                }
            } else {
                None
            },
        },
        None => if is_method_name(name) {
            match parse_int_spec(name.subrange("method"@.len() as int, name.len() as int), true, i32::MIN as int, i32::MAX as int) {
                Some(id) => {
                    let o2 = OptionsView { dump_method: Some(id as i32), ..o };
                    match val {
                        Some(s) => match sec_spec_applied(o2, s) {
                            Some(o3) => Some((o3, i + 1)),
                            None => None,
                        },
                        None => Some((o2, i + 1)),
                    }
                }
                None => None,
            }
        } else {
            None
        },
    }
}

/// The characters of the arguments.
pub open spec fn arg_chars(args: Seq<String>) -> Seq<Seq<char>> {
    args.map_values(|s: String| s@)
}

/// Parses the long option `arg` = `args[i]`; returns the index of the next
/// argument.
fn parse_long(args: &[String], i: usize, arg: &Vec<char>, o: &mut Options) -> (r: Result<usize>)
    requires
        i < args@.len(),
        arg@ == args@[i as int]@,
        arg@.len() >= 2,
    ensures
        match r {
            Ok(j) => i < j <= args@.len() && long_token(arg_chars(args@), i as int, old(o)@) == Some((final(o)@, j as int)),
            Err(e) => long_token(arg_chars(args@), i as int, old(o)@) is None && e is InvalidArgument,
        },
{
    let ghost argv = arg_chars(args@);
    assert(argv[i as int] == arg@);
    let n = args.len();
    assert(i + 1 <= n);
    let body = sub_chars(arg.as_slice(), 2, arg.len());
    let p = find_char(body.as_slice(), 0, '=');
    let name = sub_chars(body.as_slice(), 0, p);
    let has_val = p < body.len();
    let val = if has_val {
        sub_chars(body.as_slice(), p + 1, body.len())
    } else {
        Vec::new()
    };
    match find_long_value_opt(name.as_slice()) {
        Some(k) => {
            if has_val {
                match apply_value(o, k, val.as_slice()) {
                    Ok(()) => Ok(i + 1),
                    Err(e) => Err(e),
                }
            } else if i + 1 < args.len() {
                let next = chars_of(args[i + 1].as_str());
                assert(argv[i + 1] == next@);
                match apply_value(o, k, next.as_slice()) {
                    Ok(()) => Ok(i + 2),
                    Err(e) => Err(e),
                }
            } else {
                Err(invalid("missing value of --", name.as_slice()))
            }
        },
        None => {
            let m = chars_of("method");
            if name.len() >= m.len() && chars_match_at(name.as_slice(), m.as_slice(), 0) {
                let digits = sub_chars(name.as_slice(), m.len(), name.len());
                match parse_i32(digits.as_slice()) {
                    Some(id) => {
                        o.dump_method = Some(id);
                        if has_val {
                            match parse_sec_spec(o, val.as_slice()) {
                                Ok(()) => Ok(i + 1),
                                Err(e) => Err(e),
                            }
                        } else {
                            Ok(i + 1)
                        }
                    },
                    None => Err(invalid("invalid option: --", name.as_slice())),
                }
            } else {
                Err(invalid("unknown option: --", name.as_slice()))
            }
        },
    }
}

/// The option taking a value with short name `c`, if any.
pub open spec fn short_value_opt(c: char) -> Option<ValueOpt> {
    if c == 'd' {
        Some(ValueOpt::Device)
    } else if c == 'r' {
        Some(ValueOpt::Raw)
    } else if c == 'i' {
        Some(ValueOpt::Iso)
    } else if c == 'u' {
        Some(ValueOpt::Unscramble)
    } else if c == 'c' {
        Some(ValueOpt::Command)
    } else if c == 't' {
        Some(ValueOpt::StartSector)
    } else if c == 'e' {
        Some(ValueOpt::StopSector)
    } else if c == 'S' {
        Some(ValueOpt::Size)
    } else if c == 'x' {
        Some(ValueOpt::Speed)
    } else if c == 'T' {
        Some(ValueOpt::Type)
    } else {
        None
    }
}

/// The long name of each short option that takes a value: -d device,
/// -r raw, -i iso, -u unscramble, -c command, -t startsector, -e stopsector,
/// -S size, -x speed, -T type.
pub open spec fn value_option_name(c: char) -> Option<Seq<char>> {
    if c == 'd' {
        Some("device"@)
    } else if c == 'r' {
        Some("raw"@)
    } else if c == 'i' {
        Some("iso"@)
    } else if c == 'u' {
        Some("unscramble"@)
    } else if c == 'c' {
        Some("command"@)
    } else if c == 't' {
        Some("startsector"@)
    } else if c == 'e' {
        Some("stopsector"@)
    } else if c == 'S' {
        Some("size"@)
    } else if c == 'x' {
        Some("speed"@)
    } else if c == 'T' {
        Some("type"@)
    } else {
        None
    }
}

/// A short option that takes a value is the long option of the same name:
/// `-c v` does what `--name v` does, so that, for example, `-u` names the
/// raw image to unscramble (`--unscramble`, the input `raw_in`) and `-r` the
/// raw image a dump writes (`--raw`, the output `raw_out`). A letter that
/// has no long name takes no value.
pub proof fn lemma_short_is_long(c: char, o: OptionsView, v: Seq<char>)
    ensures
        short_value_opt(c) == match value_option_name(c) {
            Some(n) => long_value_opt(n),
            None => None::<ValueOpt>,
        },
        long_value_opt("unscramble"@) matches Some(k) && value_applied(o, k, v) == Some(OptionsView { raw_in: Some(v), ..o }),
        long_value_opt("raw"@) matches Some(k) && value_applied(o, k, v) == Some(OptionsView { raw_out: Some(v), ..o }),
        long_value_opt("iso"@) matches Some(k) && value_applied(o, k, v) == Some(OptionsView { iso_out: Some(v), ..o }),
        long_value_opt("device"@) matches Some(k) && value_applied(o, k, v) == Some(OptionsView { device: Some(v), ..o }),
{
    reveal_strlit("device");
    reveal_strlit("raw");
    reveal_strlit("iso");
    reveal_strlit("unscramble");
    reveal_strlit("command");
    reveal_strlit("startsector");
    reveal_strlit("stopsector");
    reveal_strlit("size");
    reveal_strlit("speed");
    reveal_strlit("type");
    assert("device"@.len() == 6 && "device"@[0] == 'd');
    assert("raw"@.len() == 3 && "raw"@[0] == 'r');
    assert("iso"@.len() == 3 && "iso"@[0] == 'i');
    assert("unscramble"@.len() == 10 && "unscramble"@[0] == 'u');
    assert("command"@.len() == 7 && "command"@[0] == 'c');
    assert("startsector"@.len() == 11 && "startsector"@[0] == 's');
    assert("stopsector"@.len() == 10 && "stopsector"@[0] == 's');
    assert("size"@.len() == 4 && "size"@[0] == 's');
    assert("speed"@.len() == 5 && "speed"@[0] == 's');
    assert("type"@.len() == 4 && "type"@[0] == 't');
    assert(long_value_opt("device"@) == Some(ValueOpt::Device));
    assert(long_value_opt("raw"@) == Some(ValueOpt::Raw));
    assert(long_value_opt("iso"@) == Some(ValueOpt::Iso));
    assert(long_value_opt("unscramble"@) == Some(ValueOpt::Unscramble));
    assert(long_value_opt("command"@) == Some(ValueOpt::Command));
    assert(long_value_opt("startsector"@) == Some(ValueOpt::StartSector));
    assert(long_value_opt("stopsector"@) == Some(ValueOpt::StopSector));
    assert(long_value_opt("size"@) == Some(ValueOpt::Size));
    assert(long_value_opt("speed"@) == Some(ValueOpt::Speed));
    assert(long_value_opt("type"@) == Some(ValueOpt::Type));
}

/// The read method of a short option letter or digit.
pub open spec fn digit_value(c: char) -> i32 {
    (c as u32 - '0' as u32) as i32
}

/// The options `o` after the short flag `c` (an option without a value,
/// other than the methods 0 to 6); `None` for an unknown option.
pub open spec fn short_flag(o: OptionsView, c: char) -> Option<OptionsView> {
    if c == 'a' {
        Some(OptionsView { autodump: true, resume: true, ..o })
    } else if c == 'g' {
        Some(OptionsView { gui: true, ..o })
    } else if c == 'H' {
        Some(OptionsView { no_hashing: true, ..o })
    } else if c == 's' {
        Some(OptionsView { resume: true, ..o })
    } else if c == 'p' {
        Some(OptionsView { stop_unit: true, ..o })
    } else if c == 'A' {
        Some(OptionsView { allmethods: true, resume: true, ..o })
    } else if c == 'J' {
        Some(OptionsView { dump_method: Some(10), ..o })
    } else if c == 'K' {
        Some(OptionsView { dump_method: Some(11), ..o })
    } else if c == 'L' {
        Some(OptionsView { dump_method: Some(12), ..o })
    } else if c == 'M' {
        Some(OptionsView { dump_method: Some(13), ..o })
    } else if '7' <= c <= '9' {
        Some(OptionsView { dump_method: Some(digit_value(c)), ..o })
    } else {
        None
    }
}

/// The options `o` after the short options `short[k..]` of one argument,
/// with the index of the next argument (`next`, or one more if an option
/// took the next argument as its value); `None` for an error. An option
/// with a value takes the rest of the argument, or else the next argument,
/// and ends the argument. A method digit 0 to 6 followed by more characters
/// reads them (without leading `=`) as `req,exp`, and the characters that
/// follow are read as options too.
pub open spec fn short_from(argv: Seq<Seq<char>>, next: int, short: Seq<char>, k: int, o: OptionsView) -> Option<(OptionsView, int)>
    decreases short.len() - k,
{
    if k < 0 || k >= short.len() {
        Some((o, next))
    } else {
        let c = short[k];
        let rest = short.subrange(k + 1, short.len() as int);
        match short_value_opt(c) {
            Some(opt) => if rest.len() > 0 {
                match value_applied(o, opt, rest) {
                    Some(o2) => Some((o2, next)),
                    None => None,
                }
            } else if 0 <= next < argv.len() {
                match value_applied(o, opt, argv[next]) {
                    Some(o2) => Some((o2, next + 1)),
                    None => None,
                }
            } else {
                None
            },
            None => if '0' <= c <= '6' {
                let o2 = OptionsView { dump_method: Some(digit_value(c)), ..o };
                if rest.len() > 0 {
                    match sec_spec_applied(o2, strip_leading_eq(rest)) {
                        Some(o3) => short_from(argv, next, short, k + 1, o3),
                        None => None,
                    }
                } else {
                    short_from(argv, next, short, k + 1, o2)
                }
            } else {
                match short_flag(o, c) {
                    Some(o2) => short_from(argv, next, short, k + 1, o2),
                    None => None,
                }
            },
        }
    }
}

/// The options `o` after an argument that is a whole flag (`-h`, `--help`,
/// `--autodump`, `--gui`, `--nohash`, `--resume`, `--stop`,
/// `--allmethods`); `None` if `arg` is none of them.
pub open spec fn whole_flag(o: OptionsView, arg: Seq<char>) -> Option<OptionsView> {
    if arg == "-h"@ || arg == "--help"@ {
        Some(OptionsView { help: true, ..o })
    } else if arg == "--autodump"@ {
        Some(OptionsView { autodump: true, resume: true, ..o })
    } else if arg == "--gui"@ {
        Some(OptionsView { gui: true, ..o })
    } else if arg == "--nohash"@ {
        Some(OptionsView { no_hashing: true, ..o })
    } else if arg == "--resume"@ {
        Some(OptionsView { resume: true, ..o })
    } else if arg == "--stop"@ {
        Some(OptionsView { stop_unit: true, ..o })
    } else if arg == "--allmethods"@ {
        Some(OptionsView { allmethods: true, resume: true, ..o })
    } else {
        None
    }
}

/// The options `o` after the argument `argv[i]`, with the index of the next
/// argument; `None` for an error. An argument that starts with `--` is a
/// long option, one that starts with a single `-` holds short options (a
/// lone `-` is an error); any other argument is ignored.
pub open spec fn token(argv: Seq<Seq<char>>, i: int, o: OptionsView) -> Option<(OptionsView, int)> {
    let arg = argv[i];
    match whole_flag(o, arg) {
        Some(o2) => Some((o2, i + 1)),
        None => if arg.len() >= 2 && arg[0] == '-' && arg[1] == '-' {
            long_token(argv, i, o)
        } else if arg.len() > 0 && arg[0] == '-' {
            if arg.len() == 1 {
                None
            } else {
                short_from(argv, i + 1, arg.drop_first(), 0, o)
            }
        } else {
            Some((o, i + 1))
        },
    }
}

/// The options `o` after the arguments `argv[i..]`; `None` for an error.
pub open spec fn parse_from(argv: Seq<Seq<char>>, i: int, o: OptionsView) -> Option<OptionsView>
    decreases argv.len() - i,
{
    if i < 0 || i >= argv.len() {
        Some(o)
    } else {
        match token(argv, i, o) {
            Some((o2, j)) => if i < j <= argv.len() {
                parse_from(argv, j, o2)
            } else {
                None
            },
            None => None,
        }
    }
}

/// The options given by the arguments `argv`; `None` for an error.
pub open spec fn parse_spec(argv: Seq<Seq<char>>) -> Option<OptionsView> {
    parse_from(argv, 0, initial_options())
}

/// The option taking a value with short name `c`, if any.
fn find_short_value_opt(c: char) -> (r: Option<ValueOpt>)
    ensures
        r == short_value_opt(c),
{
    match c {
        'd' => Some(ValueOpt::Device),
        'r' => Some(ValueOpt::Raw),
        'i' => Some(ValueOpt::Iso),
        'u' => Some(ValueOpt::Unscramble),
        'c' => Some(ValueOpt::Command),
        't' => Some(ValueOpt::StartSector),
        'e' => Some(ValueOpt::StopSector),
        'S' => Some(ValueOpt::Size),
        'x' => Some(ValueOpt::Speed),
        'T' => Some(ValueOpt::Type),
        _ => None,
    }
}

/// The read method of a digit.
fn digit_method(c: char) -> (m: i32)
    requires
        '0' <= c <= '9',
    ensures
        m == digit_value(c),
{
    (c as u32 - '0' as u32) as i32
}

/// Applies the short flag `c` to `o`.
fn apply_short_flag(o: &mut Options, c: char) -> (r: Result<()>)
    ensures
        match r {
            Ok(()) => short_flag(old(o)@, c) == Some(final(o)@),
            Err(e) => short_flag(old(o)@, c) is None && e is InvalidArgument,
        },
{
    match c {
        'a' => {
            o.autodump = true;
            o.resume = true;
        },
        'g' => {
            o.gui = true;
        },
        'H' => {
            o.no_hashing = true;
        },
        's' => {
            o.resume = true;
        },
        'p' => {
            o.stop_unit = true;
        },
        'A' => {
            o.allmethods = true;
            o.resume = true;
        },
        'J' => {
            o.dump_method = Some(10);
        },
        'K' => {
            o.dump_method = Some(11);
        },
        'L' => {
            o.dump_method = Some(12);
        },
        'M' => {
            o.dump_method = Some(13);
        },
        '7' | '8' | '9' => {
            o.dump_method = Some(digit_method(c));
        },
        _ => {
            let one = [c];
            return Err(invalid("unknown option: -", &one));
        },
    }
    Ok(())
}

/// Parses the short options `short` of one argument; `next` is the index of
/// the argument after it. Returns the index of the next argument.
fn parse_short(args: &[String], next: usize, short: &Vec<char>, o: &mut Options) -> (r: Result<usize>)
    requires
        next <= args@.len(),
    ensures
        match r {
            Ok(j) => next <= j <= args@.len() && short_from(arg_chars(args@), next as int, short@, 0, old(o)@) == Some((final(o)@, j as int)),
            Err(e) => short_from(arg_chars(args@), next as int, short@, 0, old(o)@) is None && e is InvalidArgument,
        },
{
    let ghost argv = arg_chars(args@);
    let ghost goal = short_from(argv, next as int, short@, 0, old(o)@);
    let n = args.len();
    let mut k: usize = 0;
    while k < short.len()
        invariant
            k <= short@.len(),
            next <= n == args@.len(),
            argv == arg_chars(args@),
            goal == short_from(argv, next as int, short@, 0, old(o)@),
            short_from(argv, next as int, short@, k as int, o@) == goal,
        decreases short@.len() - k,
    {
        let c = short[k];
        let ghost rest = short@.subrange(k + 1, short@.len() as int);
        match find_short_value_opt(c) {
            Some(opt) => {
                if k + 1 < short.len() {
                    let rest_v = sub_chars(short.as_slice(), k + 1, short.len());
                    return match apply_value(o, opt, rest_v.as_slice()) {
                        Ok(()) => Ok(next),
                        Err(e) => Err(e),
                    };
                } else if next < n {
                    let v = chars_of(args[next].as_str());
                    assert(argv[next as int] == v@);
                    return match apply_value(o, opt, v.as_slice()) {
                        Ok(()) => Ok(next + 1),
                        Err(e) => Err(e),
                    };
                } else {
                    let one = [c];
                    return Err(invalid("missing value of -", &one));
                }
            },
            None => {
                if '0' <= c && c <= '6' {
                    o.dump_method = Some(digit_method(c));
                    if k + 1 < short.len() {
                        let rest_v = sub_chars(short.as_slice(), k + 1, short.len());
                        let spec = skip_leading_eq(rest_v.as_slice());
                        match parse_sec_spec(o, spec.as_slice()) {
                            Ok(()) => {},
                            Err(e) => {
                                return Err(e);
                            },
                        }
                    }
                } else {
                    match apply_short_flag(o, c) {
                        Ok(()) => {},
                        Err(e) => {
                            return Err(e);
                        },
                    }
                }
            },
        }
        k = k + 1;
    }
    Ok(next)
}

/// Applies `arg` to `o` if it is a whole flag; returns whether it is one.
fn apply_whole_flag(o: &mut Options, arg: &[char]) -> (r: bool)
    ensures
        r == whole_flag(old(o)@, arg@) is Some,
        r ==> whole_flag(old(o)@, arg@) == Some(final(o)@),
        !r ==> final(o)@ == old(o)@,
{
    if is_name(arg, "-h") || is_name(arg, "--help") {
        o.help = true;
    } else if is_name(arg, "--autodump") {
        o.autodump = true;
        o.resume = true;
    } else if is_name(arg, "--gui") {
        o.gui = true;
    } else if is_name(arg, "--nohash") {
        o.no_hashing = true;
    } else if is_name(arg, "--resume") {
        o.resume = true;
    } else if is_name(arg, "--stop") {
        o.stop_unit = true;
    } else if is_name(arg, "--allmethods") {
        o.allmethods = true;
        o.resume = true;
    } else {
        return false;
    }
    true
}

/// Parses the argument `args[i]`; returns the index of the next argument.
fn parse_token(args: &[String], i: usize, o: &mut Options) -> (r: Result<usize>)
    requires
        i < args@.len(),
    ensures
        match r {
            Ok(j) => i < j <= args@.len() && token(arg_chars(args@), i as int, old(o)@) == Some((final(o)@, j as int)),
            Err(e) => token(arg_chars(args@), i as int, old(o)@) is None && e is InvalidArgument,
        },
{
    let ghost argv = arg_chars(args@);
    let arg = chars_of(args[i].as_str());
    assert(argv[i as int] == arg@);
    let n = args.len();
    if apply_whole_flag(o, arg.as_slice()) {
        return Ok(i + 1);
    }
    if arg.len() >= 2 && arg[0] == '-' && arg[1] == '-' {
        parse_long(args, i, &arg, o)
    } else if arg.len() > 0 && arg[0] == '-' {
        if arg.len() == 1 {
            Err(Error::InvalidArgument(String::from_str("invalid argument: -")))
        } else {
            let short = sub_chars(arg.as_slice(), 1, arg.len());
            assert(short@ == arg@.drop_first());
            parse_short(args, i + 1, &short, o)
        }
    } else {
        Ok(i + 1)
    }
}

/// Parses the command-line arguments (without the program name).
pub fn parse(args: &[String]) -> (r: Result<Options>)
    ensures
        match r {
            Ok(o) => parse_spec(arg_chars(args@)) == Some(o@),
            Err(e) => parse_spec(arg_chars(args@)) is None && e is InvalidArgument,
        },
{
    let ghost argv = arg_chars(args@);
    let mut o = Options {
        device: None,
        autodump: false,
        gui: false,
        raw_out: None,
        iso_out: None,
        raw_in: None,
        resume: false,
        dump_method: None,
        command: -1,
        start_sector: None,
        end_sector: None,
        sectors_no: None,
        speed: None,
        disctype: None,
        sec_disc: None,
        sec_mem: None,
        no_hashing: false,
        stop_unit: false,
        allmethods: false,
        help: false,
    };
    assert(o@ == initial_options());
    let mut i: usize = 0;
    while i < args.len()
        invariant
            i <= args@.len(),
            argv == arg_chars(args@),
            parse_from(argv, i as int, o@) == parse_spec(argv),
        decreases args@.len() - i,
    {
        match parse_token(args, i, &mut o) {
            Ok(j) => {
                i = j;
            },
            Err(e) => {
                return Err(e);
            },
        }
    }
    Ok(o)
}

/// The usage text.
pub const HELP_TEXT: &'static str = "Usage: friidump [OPTIONS]

Dumps GameCube and Wii discs with a supported DVD drive, or unscrambles a raw
image into an ISO image.

Options:
  -h, --help                 Show this help.
  -d, --device <DEVICE>      SCSI generic device of the drive (e.g. /dev/sg0).
  -a, --autodump             Dump the ISO image to <title>.iso (implies --resume).
  -g, --gui                  Print the progress in a form for front ends.
  -r, --raw <FILE>           Write the raw (scrambled) image to FILE.
  -i, --iso <FILE>           Write the ISO image to FILE.
  -u, --unscramble <FILE>    Unscramble the raw image FILE into the ISO image (-i).
  -s, --resume               Resume an interrupted dump.
  -c, --command <N>          Memory dump command: 0 vanilla 2064, 1 vanilla 2384,
                             2 Hitachi, 3 Lite-On, 4 Renesas.
  -t, --startsector <N>      Start the dump at sector N.
  -e, --stopsector <N>       Stop the dump before sector N.
  -S, --size <N>             Number of sectors of the disc.
  -x, --speed <N>            Read speed (as a multiple of 1x DVD).
  -T, --type <N>             Disc type: 0 GameCube, 1 Wii, 2 Wii dual layer, 3 DVD.
  -H, --nohash               Do not compute CRC32, MD5 and SHA-1.
  -p, --stop                 Spin the disc down and exit.
  -A, --allmethods           Try every read method (implies --resume).
  -0 .. -9, -J, -K, -L, -M   Read method 0 to 13.
  --methodN[=<req>,<exp>]    Read method N, with the sectors requested from the
                             disc (req) and taken from memory (exp).
";

/// The usage text.
pub fn help() -> (s: String)
    ensures
        s@ == HELP_TEXT@,
{
    String::from_str(HELP_TEXT)
}

} // verus!
