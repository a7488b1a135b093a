//! How much the tool logs.
use vstd::prelude::*;

verus! {

/// How much is logged.
#[derive(Debug, Clone, Copy, PartialEq, Eq, Structural)]
pub enum LogLevel {
    Info,
    Debug,
    Trace,
}

/// The level for a number of verbosity flags: information without a flag, debug
/// output with one, everything with more.
pub open spec fn level_for(verbosity: u8) -> LogLevel {
    if verbosity == 0 {
        LogLevel::Info
    } else if verbosity == 1 {
        LogLevel::Debug
    } else {
        LogLevel::Trace
    }
}

/// The level that `init_logger` sets for `verbosity` flags.
pub fn init_logger(verbosity: u8) -> (level: LogLevel)
    ensures
        level == level_for(verbosity),
{
    if verbosity == 0 {
        LogLevel::Info
    } else if verbosity == 1 {
        LogLevel::Debug
    } else {
        LogLevel::Trace
    }
}

} // verus!
