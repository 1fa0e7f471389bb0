//! What the command line asks for, and the decisions on logging that follow
//! from it.

use vstd::prelude::*;

verus! {

/// Where the log goes.
#[derive(Debug, Clone)]
pub enum Commands {
    /// Log outout to standard error (default)
    LogToStderr,
    /// Log output to a file
    LogToFile {
        /// Path to the log file
        log_file: String,
    },
}

/// Whether colour is asked for.
#[derive(Debug, Clone, Copy, PartialEq, Eq, Structural)]
pub enum ColourChoice {
    Auto,
    Always,
    Never,
}

/// How much is logged.
#[derive(Debug, Clone, Copy, PartialEq, Eq, Structural)]
pub enum LogLevel {
    Info,
    Debug,
    Trace,
}

/// Colour is used where it is asked for; left to itself, where the log goes
/// to standard error and that is a terminal.
pub open spec fn colours_wanted(colour: ColourChoice, command: Option<Commands>, terminal: bool)
    -> bool {
    match colour {
        ColourChoice::Never => false,
        ColourChoice::Always => true,
        ColourChoice::Auto => match command {
            Some(Commands::LogToFile { .. }) => false,
            _ => terminal,
        },
    }
}

/// Whether the log is written in colour; `terminal` tells whether standard
/// error is a terminal.
pub fn use_colours(colour: ColourChoice, command: &Option<Commands>, terminal: bool) -> (r: bool)
    ensures
        r == colours_wanted(colour, *command, terminal),
{
    match colour {
        ColourChoice::Never => false,
        ColourChoice::Always => true,
        ColourChoice::Auto => match command {
            Some(Commands::LogToFile { .. }) => false,
            _ => terminal,
        },
    }
}

/// The level of the log for a count of requests for more: none asks for the
/// common level, one for more, two or more for everything.
pub open spec fn level_for(verbose: u8) -> LogLevel {
    if verbose == 0 {
        LogLevel::Info
    } else if verbose == 1 {
        LogLevel::Debug
    } else {
        LogLevel::Trace
    }
}

pub fn log_level(verbose: u8) -> (r: LogLevel)
    ensures
        r == level_for(verbose),
{
    if verbose == 0 {
        LogLevel::Info
    } else if verbose == 1 {
        LogLevel::Debug
    } else {
        LogLevel::Trace
    }
}

} // verus!
