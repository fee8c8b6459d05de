use vstd::prelude::*;

use crate::text::{eq_ignoring_ascii_case, owned, same_text_ignoring_ascii_case};

verus! {

/// Severity of a log record forwarded from a plugin.
#[derive(Debug, Clone, Copy, PartialEq, Eq, Structural)]
pub enum LogLevel {
    Error,
    Warn,
    Info,
    Debug,
    Trace,
}

/// A record for the host's logging sink.
#[derive(Debug, PartialEq, Eq)]
pub struct LogEntry {
    pub level: LogLevel,
    pub message: String,
}

/// The level a plugin names, read without regard to ASCII case; unknown names mean `Info`.
pub open spec fn level_of(s: Seq<char>) -> LogLevel {
    if eq_ignoring_ascii_case(s, "ERROR"@) {
        LogLevel::Error
    } else if eq_ignoring_ascii_case(s, "WARN"@) {
        LogLevel::Warn
    } else if eq_ignoring_ascii_case(s, "INFO"@) {
        LogLevel::Info
    } else if eq_ignoring_ascii_case(s, "DEBUG"@) {
        LogLevel::Debug
    } else if eq_ignoring_ascii_case(s, "TRACE"@) {
        LogLevel::Trace
    } else {
        LogLevel::Info
    }
}

/// Reads a level name.
pub fn parse_level(level: &str) -> (r: LogLevel)
    ensures
        r == level_of(level@),
{
    if same_text_ignoring_ascii_case(level, "ERROR") {
        LogLevel::Error
    } else if same_text_ignoring_ascii_case(level, "WARN") {
        LogLevel::Warn
    } else if same_text_ignoring_ascii_case(level, "INFO") {
        LogLevel::Info
    } else if same_text_ignoring_ascii_case(level, "DEBUG") {
        LogLevel::Debug
    } else if same_text_ignoring_ascii_case(level, "TRACE") {
        LogLevel::Trace
    } else {
        LogLevel::Info
    }
}

/// The record that a plugin's log message becomes in the host's logging sink.
pub fn write(level: &str, message: &str) -> (r: LogEntry)
    ensures
        r.level == level_of(level@),
        r.message@ == message@,
{
    LogEntry { level: parse_level(level), message: owned(message) }
}

} // verus!
