//! How much of the analyzer's own diagnostics is shown.

use vstd::prelude::*;

verus! {

/// Importance of a diagnostic message, most important first.
#[derive(Clone, Copy, Debug, PartialEq, Eq, Structural)]
pub enum LogLevel {
    Error,
    Warn,
    Info,
    Debug,
    Trace,
}

impl LogLevel {
    /// 1 for `Error` up to 5 for `Trace`.
    pub open spec fn rank(self) -> int {
        match self {
            LogLevel::Error => 1,
            LogLevel::Warn => 2,
            LogLevel::Info => 3,
            LogLevel::Debug => 4,
            LogLevel::Trace => 5,
        }
    }

    pub fn rank_value(self) -> (r: u8)
        ensures
            r as int == self.rank(),
    {
        match self {
            LogLevel::Error => 1,
            LogLevel::Warn => 2,
            LogLevel::Info => 3,
            LogLevel::Debug => 4,
            LogLevel::Trace => 5,
        }
    }
}

/// The verbosity that a run is configured with.
#[derive(Clone, Copy, Debug, PartialEq, Eq, Structural)]
pub enum Verbosity {
    Normal,
    Verbose,
    Trace,
}

impl Verbosity {
    /// The least important level that is still shown.
    pub open spec fn threshold(self) -> LogLevel {
        match self {
            Verbosity::Normal => LogLevel::Info,
            Verbosity::Verbose => LogLevel::Debug,
            Verbosity::Trace => LogLevel::Trace,
        }
    }

    pub fn level_filter(self) -> (level: LogLevel)
        ensures
            level == self.threshold(),
    {
        match self {
            Verbosity::Normal => LogLevel::Info,
            Verbosity::Verbose => LogLevel::Debug,
            Verbosity::Trace => LogLevel::Trace,
        }
    }

    /// Whether a message of `level` is shown at this verbosity.
    pub fn shows(self, level: LogLevel) -> (shown: bool)
        ensures
            shown == (level.rank() <= self.threshold().rank()),
    {
        level.rank_value() <= self.level_filter().rank_value()
    }
}

} // verus!
