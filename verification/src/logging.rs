//! Log levels, formats and the shape of a forwarded log entry.

use vstd::prelude::*;

verus! {

/// How log lines are rendered: human-readable text or JSON records.
#[derive(Copy, Clone, Debug, PartialEq, Eq, Structural)]
pub enum LogFormat {
    Text,
    Json,
}

impl Default for LogFormat {
    fn default() -> (r: Self)
        ensures
            r == LogFormat::Text,
    {
        LogFormat::Text
    }
}

/// The verbosity levels the runtime understands.
#[derive(Copy, Clone, Debug, PartialEq, Eq, Structural)]
pub enum LogLevel {
    Info,
    Warn,
    Debug,
    Trace,
    Error,
    Off,
}

impl Default for LogLevel {
    fn default() -> (r: Self)
        ensures
            r == LogLevel::Info,
    {
        LogLevel::Info
    }
}

/// The textual name of a log level, as used on the command line and in
/// forwarded records.
pub open spec fn log_level_str(l: LogLevel) -> Seq<char> {
    match l {
        LogLevel::Info => "info"@,
        LogLevel::Warn => "warn"@,
        LogLevel::Debug => "debug"@,
        LogLevel::Trace => "trace"@,
        LogLevel::Error => "error"@,
        LogLevel::Off => "off"@,
    }
}

impl LogLevel {
    pub fn as_str(&self) -> (r: &'static str)
        ensures
            r@ == log_level_str(*self),
    {
        match self {
            LogLevel::Info => "info",
            LogLevel::Warn => "warn",
            LogLevel::Debug => "debug",
            LogLevel::Trace => "trace",
            LogLevel::Error => "error",
            LogLevel::Off => "off",
        }
    }
}

/// One structured record on the log-forwarding pipe: the child's level,
/// message and timestamp, carried as plain strings.
pub struct LogEntry {
    pub level: String,
    pub msg: String,
    pub time: String,
}

} // verus!
