//! Kernel log levels and log consoles.
use vstd::prelude::*;

verus! {

/// A console that log output is written to, byte by byte.
pub trait LogConsole {
    fn write_byte(&mut self, byte: u8);
}

/// The severity of a log message, from least to most severe.
#[derive(Debug, Clone, Copy, PartialEq, Eq, PartialOrd, Ord, Structural)]
pub enum LogLevel {
    Debug,
    Info,
    Warn,
    Error,
    Fatal,
}

/// The severity rank of a level, 0 for `Debug` up to 4 for `Fatal`.
pub open spec fn spec_rank(level: LogLevel) -> u8 {
    match level {
        LogLevel::Debug => 0,
        LogLevel::Info => 1,
        LogLevel::Warn => 2,
        LogLevel::Error => 3,
        LogLevel::Fatal => 4,
    }
}

impl LogLevel {
    /// The name printed before a message of this level.
    pub fn name(&self) -> (r: &'static str)
        ensures
            *self == LogLevel::Debug ==> r == "DEBUG",
            *self == LogLevel::Info ==> r == "INFO",
            *self == LogLevel::Warn ==> r == "WARN",
            *self == LogLevel::Error ==> r == "ERROR",
            *self == LogLevel::Fatal ==> r == "FATAL",
    {
        match self {
            LogLevel::Debug => "DEBUG",
            LogLevel::Info => "INFO",
            LogLevel::Warn => "WARN",
            LogLevel::Error => "ERROR",
            LogLevel::Fatal => "FATAL",
        }
    }

    /// The severity rank of the level.
    pub fn rank(&self) -> (r: u8)
        ensures
            r == spec_rank(*self),
    {
        match self {
            LogLevel::Debug => 0,
            LogLevel::Info => 1,
            LogLevel::Warn => 2,
            LogLevel::Error => 3,
            LogLevel::Fatal => 4,
        }
    }
}

} // verus!
