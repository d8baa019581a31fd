//! How much is logged.

use vstd::prelude::*;

verus! {

/// The least important messages that are logged.
#[derive(Clone, Copy, Debug, PartialEq, Eq, Structural)]
pub enum LogLevel {
    Warn,
    Info,
    Debug,
}

/// The level for these flags. Without one of them only warnings and errors are logged.
pub fn log_level(debug: bool, verbose: bool) -> (level: LogLevel)
    ensures
        level == if debug {
            LogLevel::Debug
        } else if verbose {
            LogLevel::Info
        } else {
            LogLevel::Warn
        },
{
    if debug {
        LogLevel::Debug
    } else if verbose {
        LogLevel::Info
    } else {
        LogLevel::Warn
    }
}

} // verus!
