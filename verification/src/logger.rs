//! Log levels and the filter that decides which records are written.
use vstd::prelude::*;
use crate::text;

verus! {

/// The severity of a log record.
#[derive(Debug, Clone, Copy, PartialEq, Eq)]
pub enum Severity {
    Error,
    Warn,
    Info,
    Debug,
    Trace,
}

/// The most verbose severity a logger writes; `Off` writes nothing.
#[derive(Debug, Clone, Copy, PartialEq, Eq)]
pub enum LogLevel {
    Off,
    Error,
    Warn,
    Info,
    Debug,
    Trace,
}

pub open spec fn severity_rank(s: Severity) -> int {
    match s {
        Severity::Error => 1,
        Severity::Warn => 2,
        Severity::Info => 3,
        Severity::Debug => 4,
        Severity::Trace => 5,
    }
}

pub open spec fn level_rank(l: LogLevel) -> int {
    match l {
        LogLevel::Off => 0,
        LogLevel::Error => 1,
        LogLevel::Warn => 2,
        LogLevel::Info => 3,
        LogLevel::Debug => 4,
        LogLevel::Trace => 5,
    }
}

fn severity_number(s: Severity) -> (r: u8)
    ensures
        r == severity_rank(s),
{
    match s {
        Severity::Error => 1,
        Severity::Warn => 2,
        Severity::Info => 3,
        Severity::Debug => 4,
        Severity::Trace => 5,
    }
}

fn level_number(l: LogLevel) -> (r: u8)
    ensures
        r == level_rank(l),
{
    match l {
        LogLevel::Off => 0,
        LogLevel::Error => 1,
        LogLevel::Warn => 2,
        LogLevel::Info => 3,
        LogLevel::Debug => 4,
        LogLevel::Trace => 5,
    }
}

/// Whether a record of severity `severity` passes the filter `level`.
pub fn enabled(severity: Severity, level: LogLevel) -> (r: bool)
    ensures
        r == (severity_rank(severity) <= level_rank(level)),
{
    severity_number(severity) <= level_number(level)
}

/// The filter that a configured debug level names, if it names one.
pub open spec fn debug_level_of(upper: Seq<char>) -> Option<LogLevel> {
    if upper == "DEBUG"@ {
        Some(LogLevel::Debug)
    } else if upper == "INFO"@ {
        Some(LogLevel::Info)
    } else if upper == "WARNING"@ || upper == "WARN"@ {
        Some(LogLevel::Warn)
    } else if upper == "ERROR"@ || upper == "CRITICAL"@ {
        Some(LogLevel::Error)
    } else {
        None
    }
}

/// The filter for a debug level name, compared in upper case: DEBUG, INFO,
/// WARNING or WARN, ERROR, and CRITICAL (which is ERROR). `None` for any
/// other name, for which INFO is used.
pub fn parse_debug_level(level: &str) -> (r: Option<LogLevel>)
    ensures
        r == debug_level_of(text::uppercase(level@)),
{
    let up = text::to_uppercase(level);
    let u = up.as_str();
    if text::str_eq(u, "DEBUG") {
        Some(LogLevel::Debug)
    } else if text::str_eq(u, "INFO") {
        Some(LogLevel::Info)
    } else if text::str_eq(u, "WARNING") || text::str_eq(u, "WARN") {
        Some(LogLevel::Warn)
    } else if text::str_eq(u, "ERROR") || text::str_eq(u, "CRITICAL") {
        Some(LogLevel::Error)
    } else {
        None
    }
}

/// The filter that a debug level sets: the one it names, or INFO.
pub fn debug_level_filter(level: &str) -> (r: LogLevel)
    ensures
        r == match debug_level_of(text::uppercase(level@)) {
            Some(l) => l,
            None => LogLevel::Info,
        },
{
    match parse_debug_level(level) {
        Some(l) => l,
        None => LogLevel::Info,
    }
}

/// A record that passes a filter passes every more verbose filter.
pub proof fn law_enabled_monotone(severity: Severity, l1: LogLevel, l2: LogLevel)
    requires
        severity_rank(severity) <= level_rank(l1),
        level_rank(l1) <= level_rank(l2),
    ensures
        severity_rank(severity) <= level_rank(l2),
{
}

/// Whether the service prints the status line on this pass of its loop: on
/// every tenth pass, starting with the first.
pub fn status_due(loop_counter: u64) -> (r: bool)
    ensures
        r == (loop_counter % 10 == 0),
{
    loop_counter % 10 == 0
}

/// Which records each filter writes, from least to most verbose: nothing at
/// `Off`; errors at `Error`; errors and warnings at `Warn`; everything but
/// debug and trace records at `Info`; everything but trace records at
/// `Debug`; everything at `Trace`. So `Debug` writes debug records and `Info`
/// does not.
pub proof fn law_filter_levels(s: Severity, l: LogLevel)
    ensures
        (severity_rank(s) <= level_rank(l)) == match l {
            LogLevel::Off => false,
            LogLevel::Error => s == Severity::Error,
            LogLevel::Warn => s == Severity::Error || s == Severity::Warn,
            LogLevel::Info => s != Severity::Debug && s != Severity::Trace,
            LogLevel::Debug => s != Severity::Trace,
            LogLevel::Trace => true,
        },
{
}

/// The debug level names: DEBUG, INFO, WARNING or WARN, ERROR or CRITICAL
/// select Debug, Info, Warn and Error; no other name selects a filter.
pub proof fn law_debug_level_names(upper: Seq<char>)
    ensures
        (debug_level_of(upper) == Some(LogLevel::Debug)) <==> upper == seq!['D', 'E', 'B', 'U', 'G'],
        (debug_level_of(upper) == Some(LogLevel::Info)) <==> upper == seq!['I', 'N', 'F', 'O'],
        (debug_level_of(upper) == Some(LogLevel::Warn)) <==> (upper == seq!['W', 'A', 'R', 'N', 'I', 'N', 'G']
            || upper == seq!['W', 'A', 'R', 'N']),
        (debug_level_of(upper) == Some(LogLevel::Error)) <==> (upper == seq!['E', 'R', 'R', 'O', 'R']
            || upper == seq!['C', 'R', 'I', 'T', 'I', 'C', 'A', 'L']),
        !(debug_level_of(upper) matches Some(LogLevel::Off)),
        !(debug_level_of(upper) matches Some(LogLevel::Trace)),
{
    reveal_strlit("DEBUG");
    reveal_strlit("INFO");
    reveal_strlit("WARNING");
    reveal_strlit("WARN");
    reveal_strlit("ERROR");
    reveal_strlit("CRITICAL");
    assert(seq!['D', 'E', 'B', 'U', 'G'] =~= "DEBUG"@);
    assert(seq!['I', 'N', 'F', 'O'] =~= "INFO"@);
    assert(seq!['W', 'A', 'R', 'N', 'I', 'N', 'G'] =~= "WARNING"@);
    assert(seq!['W', 'A', 'R', 'N'] =~= "WARN"@);
    assert(seq!['E', 'R', 'R', 'O', 'R'] =~= "ERROR"@);
    assert(seq!['C', 'R', 'I', 'T', 'I', 'C', 'A', 'L'] =~= "CRITICAL"@);
}

} // verus!
