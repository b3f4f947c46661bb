//! The settings of the service's file logger.

use vstd::prelude::*;
use vstd::string::*;

verus! {

/// The directory the log files go to.
pub const LOG_DIR: &'static str = "./NEVER_COMMIT/flexi_logs";

/// The size, in bytes, past which a log file is rotated: 1024 times 100000.
pub const ROTATE_OVER_SIZE: usize = 102400000;

/// The line format of the log.
#[derive(Clone, Copy, Debug, PartialEq, Eq, Structural)]
pub enum LogFormat {
    /// Time, level, source location and message.
    Detailed,
}

/// How the logger is set up.
pub struct LogSettings {
    pub rotate_over_size: Option<usize>,
    pub directory: Option<String>,
    pub log_to_file: bool,
    pub timestamp: bool,
    pub format: LogFormat,
}

/// The logger's settings: detailed lines with timestamps, written to files
/// in `log_dir` and rotated past about 100 MB.
pub fn log_config(log_dir: String) -> (s: LogSettings)
    ensures
        s.rotate_over_size == Some(ROTATE_OVER_SIZE),
        s.directory == Some(log_dir),
        s.log_to_file,
        s.timestamp,
        s.format == LogFormat::Detailed,
{
    LogSettings {
        rotate_over_size: Some(ROTATE_OVER_SIZE),
        directory: Some(log_dir),
        log_to_file: true,
        timestamp: true,
        format: LogFormat::Detailed,
    }
}

} // verus!
