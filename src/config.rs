//! Parsing of the command-line option values: log level, step count, duration.

use crate::duration_text::{duration_of, parse_duration_nanos};
use vstd::prelude::*;

verus! {

/// How verbose logging is, from silent to everything.
#[derive(Clone, Copy, Debug, PartialEq, Eq, Structural)]
pub enum LogLevel {
    Off,
    Error,
    Warn,
    Info,
    Debug,
    Trace,
}

/// Error of `log`'s level parser (it carries no detail).
#[verifier::external_type_specification]
#[verifier::external_body]
pub struct ExParseLevelError(log::ParseLevelError);

/// `c` equals the lowercase ASCII letter `l`, ignoring ASCII case.
pub open spec fn ieq_ascii(c: char, l: char) -> bool {
    c == l || (c as u32) + 32 == (l as u32)
}

/// `s` spells the lowercase ASCII word `w`, ignoring ASCII case.
pub open spec fn matches_word(s: Seq<char>, w: Seq<char>) -> bool {
    s.len() == w.len() && forall|i: int| 0 <= i < s.len() ==> ieq_ascii(#[trigger] s[i], w[i])
}

/// The level whose name `s` spells, ignoring ASCII case.
pub open spec fn level_of(s: Seq<char>) -> Option<LogLevel> {
    if matches_word(s, seq!['o', 'f', 'f']) {
        Some(LogLevel::Off)
    } else if matches_word(s, seq!['e', 'r', 'r', 'o', 'r']) {
        Some(LogLevel::Error)
    } else if matches_word(s, seq!['w', 'a', 'r', 'n']) {
        Some(LogLevel::Warn)
    } else if matches_word(s, seq!['i', 'n', 'f', 'o']) {
        Some(LogLevel::Info)
    } else if matches_word(s, seq!['d', 'e', 'b', 'u', 'g']) {
        Some(LogLevel::Debug)
    } else if matches_word(s, seq!['t', 'r', 'a', 'c', 'e']) {
        Some(LogLevel::Trace)
    } else {
        None
    }
}

/// Relies on `<log::LevelFilter as FromStr>::from_str`: it accepts exactly the
/// six level names, compared with `eq_ignore_ascii_case`.
#[verifier::external_body]
fn level_filter_from_str(s: &str) -> (r: Result<LogLevel, log::ParseLevelError>)
    ensures
        match r {
            Ok(l) => level_of(s@) == Some(l),
            Err(_) => level_of(s@) is None,
        },
{
    s.parse::<log::LevelFilter>().map(|l| match l {
        log::LevelFilter::Off => LogLevel::Off,
        log::LevelFilter::Error => LogLevel::Error,
        log::LevelFilter::Warn => LogLevel::Warn,
        log::LevelFilter::Info => LogLevel::Info,
        log::LevelFilter::Debug => LogLevel::Debug,
        log::LevelFilter::Trace => LogLevel::Trace,
    })
}

/// Smallest accepted step count (one step: jump at once, no animation).
pub const MIN_STEPS: usize = 1;

/// Smallest accepted duration: one millisecond, in nanoseconds.
pub const MIN_DURATION_NANOS: u128 = 1_000_000;

/// The number that the decimal digits `d` spell.
pub open spec fn digits_value(d: Seq<char>) -> int
    decreases d.len(),
{
    if d.len() == 0 {
        0
    } else {
        digits_value(d.drop_last()) * 10 + (d.last() as int - '0' as int)
    }
}

pub open spec fn is_digit(c: char) -> bool {
    '0' <= c && c <= '9'
}

/// What `usize::from_str` gives: an optional `+`, then one or more decimal
/// digits whose value fits a `usize`.
pub open spec fn usize_of(s: Seq<char>) -> Option<usize> {
    let d = if s.len() > 0 && s[0] == '+' {
        s.drop_first()
    } else {
        s
    };
    if d.len() > 0 && (forall|i: int| 0 <= i < d.len() ==> is_digit(#[trigger] d[i]))
        && digits_value(d) <= usize::MAX {
        Some(digits_value(d) as usize)
    } else {
        None
    }
}

/// Relies on `<usize as FromStr>::from_str`: an optional `+` and decimal
/// digits, no whitespace, no overflow.
#[verifier::external_body]
fn usize_from_str(s: &str) -> (r: Option<usize>)
    ensures
        r == usize_of(s@),
{
    s.parse::<usize>().ok()
}

/// Why an option value was rejected.
#[derive(Clone, Copy, Debug, PartialEq, Eq, Structural)]
pub enum ConfigError {
    /// Not one of the level names.
    InvalidLogLevel,
    /// The step count is not a decimal number that fits a `usize`.
    InvalidSteps,
    /// The step count is below `MIN_STEPS`.
    TooFewSteps,
    /// The duration text could not be parsed.
    InvalidDuration,
    /// The duration is below `MIN_DURATION_NANOS`.
    DurationTooShort,
}

/// Parses a log level name, case-insensitively.
pub fn parse_log_level(s: &str) -> (r: Result<LogLevel, ConfigError>)
    ensures
        match r {
            Ok(l) => level_of(s@) == Some(l),
            Err(e) => level_of(s@) is None && e is InvalidLogLevel,
        },
{
    match level_filter_from_str(s) {
        Ok(l) => Ok(l),
        Err(_) => Err(ConfigError::InvalidLogLevel),
    }
}

/// Parses a step count: a decimal number of at least `MIN_STEPS`.
pub fn parse_steps(s: &str) -> (r: Result<usize, ConfigError>)
    ensures
        match r {
            Ok(n) => usize_of(s@) == Some(n) && n >= MIN_STEPS,
            Err(ConfigError::InvalidSteps) => usize_of(s@) is None,
            Err(ConfigError::TooFewSteps) => usize_of(s@) matches Some(n) && n < MIN_STEPS,
            Err(_) => false,
        },
{
    match usize_from_str(s) {
        None => Err(ConfigError::InvalidSteps),
        Some(n) => if n < MIN_STEPS {
            Err(ConfigError::TooFewSteps)
        } else {
            Ok(n)
        },
    }
}

/// Accepts a parsed duration (in nanoseconds) only if it is at least
/// `MIN_DURATION_NANOS`.
pub fn check_duration(nanos: u128) -> (r: Result<u128, ConfigError>)
    ensures
        match r {
            Ok(n) => n == nanos && nanos >= MIN_DURATION_NANOS,
            Err(ConfigError::DurationTooShort) => nanos < MIN_DURATION_NANOS,
            Err(_) => false,
        },
{
    if nanos < MIN_DURATION_NANOS {
        Err(ConfigError::DurationTooShort)
    } else {
        Ok(nanos)
    }
}

/// Parses a duration with a unit (`250ms`, `1s`, ...) into nanoseconds; it
/// must be at least `MIN_DURATION_NANOS`.
pub fn parse_duration(s: &str) -> (r: Result<u128, ConfigError>)
    ensures
        match r {
            Ok(n) => duration_of(s@) == Some(n) && n >= MIN_DURATION_NANOS,
            Err(ConfigError::InvalidDuration) => duration_of(s@) is None,
            Err(ConfigError::DurationTooShort) => duration_of(s@) matches Some(n) && n
                < MIN_DURATION_NANOS,
            Err(_) => false,
        },
{
    match parse_duration_nanos(s) {
        None => Err(ConfigError::InvalidDuration),
        Some(n) => check_duration(n),
    }
}

} // verus!
