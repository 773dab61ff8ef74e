//! The runtime's own configuration, as plain data.  The command-line
//! front end parses the arguments and hands over these values.

use vstd::prelude::*;

use crate::logging::LogLevel;

verus! {

/// The global configuration: the logging level and the selected
/// subcommand.
pub struct Config {
    pub log_level: LogLevel,
    pub subcmd: SubCommand,
}

/// The subcommands the configuration front end models directly.
pub enum SubCommand {
    /// Create a new specification file.
    Spec(OciSpec),
}

/// The request to write a fresh default specification file.
pub struct OciSpec;

} // verus!
