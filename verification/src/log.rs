//! The format of log lines: `[HH:MM:SS/tag] LEVEL: message`, with the time
//! of day in UTC. Reading the clock and printing are left to the caller.

use vstd::prelude::*;
use crate::text::{digit_char, push_char};

verus! {

/// The level of a log message.
#[derive(Debug, Clone, Copy, PartialEq, Eq, Structural)]
pub enum Level {
    /// An ordinary message.
    Normal,
    /// A warning.
    Warning,
    /// An error.
    Error,
    /// A debugging message (shown only when debugging output is enabled).
    Debug,
}

/// Whether a message of `level` is shown: debugging messages only when
/// debugging output is enabled.
pub fn shown(level: Level, debug_enabled: bool) -> (r: bool)
    ensures
        r == (level != Level::Debug || debug_enabled),
{
    match level {
        Level::Debug => debug_enabled,
        _ => true,
    }
}

/// Two decimal digits of `n` (below 100).
pub open spec fn two_digits(n: nat) -> Seq<char> {
    seq![digit_char(n / 10), digit_char(n % 10)]
}

/// The time of day `HH:MM:SS` (UTC) of `secs` seconds since the epoch.
pub open spec fn timestamp_text(secs: u64) -> Seq<char> {
    let sod = secs % 86400;
    two_digits((sod / 3600) as nat) + seq![':'] + two_digits(((sod % 3600) / 60) as nat) + seq![':'] + two_digits((sod % 60) as nat)
}

fn push_two_digits(s: &mut String, n: u64)
    requires
        n < 100,
    ensures
        final(s)@ == old(s)@ + two_digits(n as nat),
{
    push_char(s, ((n / 10) as u8 + 48u8) as char);
    push_char(s, ((n % 10) as u8 + 48u8) as char);
    assert(final(s)@ =~= old(s)@ + two_digits(n as nat));
}

/// The time of day `HH:MM:SS` (UTC) of `secs` seconds since the epoch.
pub fn timestamp(secs: u64) -> (s: String)
    ensures
        s@ == timestamp_text(secs),
{
    let sod = secs % 86400;
    let mut s = String::new();
    push_two_digits(&mut s, sod / 3600);
    push_char(&mut s, ':');
    push_two_digits(&mut s, (sod % 3600) / 60);
    push_char(&mut s, ':');
    push_two_digits(&mut s, sod % 60);
    assert(s@ =~= timestamp_text(secs));
    s
}

/// The label after the time stamp for `level`.
pub open spec fn level_label(level: Level) -> Seq<char> {
    match level {
        Level::Warning => "WARNING: "@,
        Level::Error => "ERROR: "@,
        Level::Debug => "DEBUG: "@,
        Level::Normal => Seq::<char>::empty(),
    }
}

/// The start of a log line: `[ts/tag] ` (or `[ts] ` without a tag) and the
/// label of the level.
pub open spec fn prefix_text(level: Level, tag: Option<Seq<char>>, ts: Seq<char>) -> Seq<char> {
    let head = match tag {
        Some(t) => seq!['['] + ts + seq!['/'] + t + seq![']', ' '],
        None => seq!['['] + ts + seq![']', ' '],
    };
    head + level_label(level)
}

fn push_all(s: &mut String, t: &str)
    ensures
        final(s)@ == old(s)@ + t@,
{
    s.append(t);
}

/// The start of a log line of `level` with time stamp `ts` and optional
/// tag.
pub fn prefix(level: Level, tag: Option<&str>, ts: &str) -> (s: String)
    ensures
        s@ == prefix_text(level, match tag {
            Some(t) => Some(t@),
            None => None,
        }, ts@),
{
    let mut s = String::new();
    push_char(&mut s, '[');
    push_all(&mut s, ts);
    match tag {
        Some(t) => {
            push_char(&mut s, '/');
            push_all(&mut s, t);
        },
        None => {},
    }
    push_char(&mut s, ']');
    push_char(&mut s, ' ');
    match level {
        Level::Warning => push_all(&mut s, "WARNING: "),
        Level::Error => push_all(&mut s, "ERROR: "),
        Level::Debug => push_all(&mut s, "DEBUG: "),
        Level::Normal => {},
    }
    proof {
        let head = match tag {
            Some(t) => seq!['['] + ts@ + seq!['/'] + t@ + seq![']', ' '],
            None => seq!['['] + ts@ + seq![']', ' '],
        };
        assert(s@ =~= head + level_label(level));
    }
    s
}

} // verus!
