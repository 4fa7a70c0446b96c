use vstd::prelude::*;

verus! {

/// Granularity of the timestamp prepended to each rendered line.
#[derive(Clone, Copy, Debug, PartialEq, Eq)]
pub enum Timestamp {
    /// Disable timestamping of log messages
    Off,
    /// Timestamp with second granularity
    Second,
    /// Timestamp with microsecond granularity
    Microsecond,
    /// Timestamp with nanosecond granularity
    Nanosecond,
}

/// Severity of one event, most severe first.
#[derive(Clone, Copy, Debug, PartialEq, Eq)]
pub enum Level {
    Error,
    Warn,
    Info,
    Debug,
    Trace,
}

/// A severity threshold: the most permissive severity still allowed to emit.
#[derive(Clone, Copy, Debug, PartialEq, Eq)]
pub enum LevelFilter {
    Off,
    Error,
    Warn,
    Info,
    Debug,
    Trace,
}

/// Foreground color a rendered line is wrapped in.
#[derive(Clone, Copy, Debug, PartialEq, Eq)]
pub enum Color {
    Red,
    Magenta,
    Yellow,
    Cyan,
    Blue,
}

/// How the sink decides whether to emit color escapes.
#[derive(Clone, Copy, Debug, PartialEq, Eq)]
pub enum ColorChoice {
    Always,
    AlwaysAnsi,
    Auto,
    Never,
}

/// Ordinal of a severity; a higher ordinal is more verbose.
pub open spec fn level_ord(l: Level) -> int {
    match l {
        Level::Error => 1,
        Level::Warn => 2,
        Level::Info => 3,
        Level::Debug => 4,
        Level::Trace => 5,
    }
}

/// Ordinal of a threshold; an event passes iff its ordinal is at most this.
pub open spec fn filter_ord(f: LevelFilter) -> int {
    match f {
        LevelFilter::Off => 0,
        LevelFilter::Error => 1,
        LevelFilter::Warn => 2,
        LevelFilter::Info => 3,
        LevelFilter::Debug => 4,
        LevelFilter::Trace => 5,
    }
}

/// Threshold obtained from a verbosity count: 0 admits only errors, each
/// further count admits one more severity, saturating at the most permissive.
pub open spec fn spec_filter_for_verbosity(v: nat) -> LevelFilter {
    if v == 0 {
        LevelFilter::Error
    } else if v == 1 {
        LevelFilter::Warn
    } else if v == 2 {
        LevelFilter::Info
    } else if v == 3 {
        LevelFilter::Debug
    } else {
        LevelFilter::Trace
    }
}

/// The severity mapper: turns a verbosity count into a threshold.
/// Every count is valid; counts past the last named severity saturate at the
/// most permissive threshold.
pub fn severity_for_verbosity(verbosity: usize) -> (f: LevelFilter)
    ensures
        f == spec_filter_for_verbosity(verbosity as nat),
        verbosity == 0 ==> f == LevelFilter::Error,
        verbosity == 1 ==> f == LevelFilter::Warn,
        verbosity == 2 ==> f == LevelFilter::Info,
        verbosity == 3 ==> f == LevelFilter::Debug,
        verbosity >= 4 ==> f == LevelFilter::Trace,
{
    match verbosity {
        0 => LevelFilter::Error,
        1 => LevelFilter::Warn,
        2 => LevelFilter::Info,
        3 => LevelFilter::Debug,
        _ => LevelFilter::Trace,
    }
}

/// Ordinal of a severity, for threshold comparison.
pub fn level_to_ord(l: Level) -> (n: u32)
    ensures
        n as int == level_ord(l),
{
    match l {
        Level::Error => 1,
        Level::Warn => 2,
        Level::Info => 3,
        Level::Debug => 4,
        Level::Trace => 5,
    }
}

/// Ordinal of a threshold, for threshold comparison.
pub fn filter_to_ord(f: LevelFilter) -> (n: u32)
    ensures
        n as int == filter_ord(f),
{
    match f {
        LevelFilter::Off => 0,
        LevelFilter::Error => 1,
        LevelFilter::Warn => 2,
        LevelFilter::Info => 3,
        LevelFilter::Debug => 4,
        LevelFilter::Trace => 5,
    }
}

/// Color chosen for each severity.
pub open spec fn spec_color_for(l: Level) -> Color {
    match l {
        Level::Error => Color::Red,
        Level::Warn => Color::Magenta,
        Level::Info => Color::Yellow,
        Level::Debug => Color::Cyan,
        Level::Trace => Color::Blue,
    }
}

/// Picks the foreground color a line of the given severity is written in.
pub fn color_for_level(l: Level) -> (c: Color)
    ensures
        c == spec_color_for(l),
{
    match l {
        Level::Error => Color::Red,
        Level::Warn => Color::Magenta,
        Level::Info => Color::Yellow,
        Level::Debug => Color::Cyan,
        Level::Trace => Color::Blue,
    }
}

} // verus!
