//! Log-level configuration.
//!
//! The printing itself is I/O and lives outside the crate; the verified
//! part is the decision: a message of a given severity is emitted exactly
//! when the configured level reaches it.

use vstd::prelude::*;

verus! {

/// Severity thresholds, smaller = more severe.
pub const FATAL_LEVEL: u8 = 2;

pub const WARN_LEVEL: u8 = 4;

pub const INFO_LEVEL: u8 = 5;

pub const VERBOSE_LEVEL: u8 = 6;

pub const DEBUG_LEVEL: u8 = 7;

/// A logger configuration: everything at or below `log_level` is emitted.
#[derive(Debug)]
pub struct Logger {
    pub log_level: u8,
}

impl Logger {
    pub fn new(log_level: u8) -> (r: Self)
        ensures
            r.log_level == log_level,
    {
        Logger { log_level }
    }

    /// Whether a message of the given severity is emitted under this
    /// configuration.
    pub fn enabled(&self, severity: u8) -> (r: bool)
        ensures
            r == (self.log_level >= severity),
    {
        self.log_level >= severity
    }
}

} // verus!
