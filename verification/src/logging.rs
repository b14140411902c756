//! The levels at which the agent logs, and their names in the settings.

use crate::text::same_text;
use vstd::prelude::*;

verus! {

/// A level of logging, from the most talkative to the least.
#[derive(Clone, Copy, Debug, PartialEq, Eq, Structural)]
pub enum LogLevel {
    Trace,
    Debug,
    Info,
    Warn,
    Error,
}

/// The level that the settings call `name`, if there is one. The names are
/// `trace`, `debug`, `info`, `warn` and `error`, in lower case.
pub open spec fn spec_level_named(name: Seq<char>) -> Option<LogLevel> {
    if name == "trace"@ {
        Some(LogLevel::Trace)
    } else if name == "debug"@ {
        Some(LogLevel::Debug)
    } else if name == "info"@ {
        Some(LogLevel::Info)
    } else if name == "warn"@ {
        Some(LogLevel::Warn)
    } else if name == "error"@ {
        Some(LogLevel::Error)
    } else {
        None
    }
}

impl LogLevel {
    /// The level that the settings call `name`, if there is one.
    pub fn from_name(name: &str) -> (level: Option<LogLevel>)
        ensures
            level == spec_level_named(name@),
    {
        if same_text(name, "trace") {
            Some(LogLevel::Trace)
        } else if same_text(name, "debug") {
            Some(LogLevel::Debug)
        } else if same_text(name, "info") {
            Some(LogLevel::Info)
        } else if same_text(name, "warn") {
            Some(LogLevel::Warn)
        } else if same_text(name, "error") {
            Some(LogLevel::Error)
        } else {
            None
        }
    }

    /// The level that the settings call `name`; `Info` if they name none.
    pub fn from_name_or_info(name: &str) -> (level: LogLevel)
        ensures
            level == match spec_level_named(name@) {
                Some(level) => level,
                None => LogLevel::Info,
            },
    {
        match LogLevel::from_name(name) {
            Some(level) => level,
            None => LogLevel::Info,
        }
    }
}

} // verus!
