//! Log levels and which messages a logger keeps.
use vstd::prelude::*;

verus! {

/// The severity of a log message, from least to most severe.
#[derive(Debug, Copy, Clone, PartialEq, Eq, Structural)]
pub enum LogLevel {
    Debug,
    Info,
    Warning,
    Error,
}

/// The place of a level in the order of severity.
pub open spec fn severity(level: LogLevel) -> nat {
    match level {
        LogLevel::Debug => 0,
        LogLevel::Info => 1,
        LogLevel::Warning => 2,
        LogLevel::Error => 3,
    }
}

impl LogLevel {
    /// The place of the level in the order of severity.
    pub fn rank(&self) -> (r: usize)
        ensures
            r == severity(*self),
    {
        match self {
            LogLevel::Debug => 0,
            LogLevel::Info => 1,
            LogLevel::Warning => 2,
            LogLevel::Error => 3,
        }
    }
}

/// Whether a logger at `threshold` keeps a message at `level`: one at
/// least as severe as the threshold.
pub fn is_logged(level: LogLevel, threshold: LogLevel) -> (r: bool)
    ensures
        r == (severity(level) >= severity(threshold)),
{
    level.rank() >= threshold.rank()
}

} // verus!
