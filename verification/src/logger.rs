//! Logging configuration data. The logging subsystem itself is an external
//! collaborator: this module only carries the configured choices and maps the
//! severity ceiling to the logging facade's own filter type.

use vstd::prelude::*;

verus! {

/// Where log records go.
#[derive(Clone, Copy, Debug, PartialEq, Eq, Structural)]
pub enum Method {
    /// Logging is disabled.
    Off,
    /// Records go to standard output.
    Stdout,
    /// Records go to a log file.
    File,
}

/// The most verbose severity that is still recorded.
#[derive(Clone, Copy, Debug, PartialEq, Eq, Structural)]
pub enum MaxLevel {
    Debug,
    Info,
    Error,
    Trace,
}

/// The logging facade's filter type, carried through opaquely.
#[verifier::external_type_specification]
#[verifier::external_body]
pub struct ExLevelFilter(log::LevelFilter);

impl MaxLevel {
    /// Relies on log::LevelFilter: returns the facade's filter variant of the
    /// same name as this severity ceiling.
    #[verifier::external_body]
    pub fn to_level_filter(&self) -> log::LevelFilter {
        match self {
            Self::Debug => log::LevelFilter::Debug,
            Self::Info => log::LevelFilter::Info,
            Self::Error => log::LevelFilter::Error,
            Self::Trace => log::LevelFilter::Trace,
        }
    }
}

} // verus!
