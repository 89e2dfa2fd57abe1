//! Which log records the launcher prints, and in which colour.

use crate::text::str_eq;
use vstd::prelude::*;

verus! {

/// The launcher's logger.
pub struct SimpleLogger;

/// Log levels, from the most to the least severe.
#[derive(Debug, Clone, Copy, PartialEq, Eq, Structural)]
pub enum LogLevel {
    Error,
    Warn,
    Info,
    Debug,
    Trace,
}

/// The rank of a level: lower is more severe.
pub open spec fn level_rank(l: LogLevel) -> nat {
    match l {
        LogLevel::Error => 1,
        LogLevel::Warn => 2,
        LogLevel::Info => 3,
        LogLevel::Debug => 4,
        LogLevel::Trace => 5,
    }
}

fn rank(l: LogLevel) -> (r: u8)
    ensures
        r == level_rank(l),
{
    match l {
        LogLevel::Error => 1,
        LogLevel::Warn => 2,
        LogLevel::Info => 3,
        LogLevel::Debug => 4,
        LogLevel::Trace => 5,
    }
}

impl SimpleLogger {
    /// Records up to Info are printed, up to Debug when `MAXIMA_LOG_LEVEL` is `debug`.
    pub fn enabled(&self, level: LogLevel, log_level_env: Option<&str>) -> (r: bool)
        ensures
            r == (level_rank(level) <= if (log_level_env matches Some(v) && v@ == "debug"@) {
                level_rank(LogLevel::Debug)
            } else {
                level_rank(LogLevel::Info)
            }),
    {
        let debug = match log_level_env {
            Some(v) => str_eq(v, "debug"),
            None => false,
        };
        let max = if debug {
            rank(LogLevel::Debug)
        } else {
            rank(LogLevel::Info)
        };
        rank(level) <= max
    }

    /// The ANSI colour code a level is printed in.
    pub fn color(&self, level: LogLevel) -> (r: &'static str)
        ensures
            r@ == match level {
                LogLevel::Error => "31"@,
                LogLevel::Warn => "33"@,
                LogLevel::Info => "32"@,
                LogLevel::Debug => "36"@,
                LogLevel::Trace => "33"@,
            },
    {
        match level {
            LogLevel::Error => "31",
            LogLevel::Warn => "33",
            LogLevel::Info => "32",
            LogLevel::Debug => "36",
            LogLevel::Trace => "33",
        }
    }
}

} // verus!
