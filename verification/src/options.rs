//! The options that the log service is started with.

use vstd::prelude::*;
use vstd::string::StringExecFns;

verus! {

/// The configuration directory used when none is given.
pub const DEFAULT_TEDGE_CONFIG_PATH: &'static str = "/etc/tedge";

/// How much the service reports, from the least to the most.
#[derive(Debug, Clone, Copy, PartialEq, Eq, Structural)]
pub enum LogLevel {
    Error,
    Warn,
    Info,
    Debug,
    Trace,
}

/// The options of the command line.
#[derive(Debug, Clone, PartialEq, Eq)]
pub struct LogfileRequestPluginOpt {
    /// Report everything, whatever level is configured.
    pub debug: bool,
    /// Create the directories and files that the service needs, and stop.
    pub init: bool,
    /// The root of the configuration on disk.
    pub config_dir: String,
}

impl Default for LogfileRequestPluginOpt {
    fn default() -> (options: Self)
        ensures
            !options.debug,
            !options.init,
            options.config_dir@ == DEFAULT_TEDGE_CONFIG_PATH@,
    {
        LogfileRequestPluginOpt {
            debug: false,
            init: false,
            config_dir: String::from_str(DEFAULT_TEDGE_CONFIG_PATH),
        }
    }
}

impl LogfileRequestPluginOpt {
    /// The level at which the service reports: everything where `debug` is
    /// set, else the level `configured`.
    pub fn log_level(&self, configured: LogLevel) -> (level: LogLevel)
        ensures
            level == if self.debug {
                LogLevel::Trace
            } else {
                configured
            },
    {
        if self.debug {
            LogLevel::Trace
        } else {
            configured
        }
    }
}

} // verus!
