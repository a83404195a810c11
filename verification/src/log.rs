//! Configuration for log-line formatting.

use vstd::prelude::*;

verus! {

/// Which contextual fields a formatted log line carries besides the
/// timestamp, level, and message.
#[derive(Clone, Copy, Debug, PartialEq, Eq, Structural)]
pub struct EnvLoggerFormatConfig {
    /// Include the name of the reporting thread.
    pub thread: bool,
    /// Include the log target.
    pub target: bool,
    /// Include the source file and line.
    pub file: bool,
}

impl Default for EnvLoggerFormatConfig {
    /// By default every contextual field is included.
    fn default() -> (c: Self)
        ensures
            c.thread,
            c.target,
            c.file,
    {
        EnvLoggerFormatConfig { thread: true, target: true, file: true }
    }
}

} // verus!
