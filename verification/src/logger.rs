//! Log levels: which messages the shell reports, chosen from its options.

use vstd::prelude::*;

verus! {

/// The most detailed kind of log message that is reported; `Off` reports
/// none.
#[derive(Clone, Copy, Debug, Eq, PartialEq, Structural)]
pub enum LogLevel {
    Off,
    Error,
    Warn,
    Info,
    Debug,
    Trace,
}

/// The level that a count of `-v` flags asks for: warnings by default, and
/// one level more detailed per flag, up to tracing.
pub open spec fn level_for_verbosity(verbosity: usize) -> LogLevel {
    if verbosity == 0 {
        LogLevel::Warn
    } else if verbosity == 1 {
        LogLevel::Info
    } else if verbosity == 2 {
        LogLevel::Debug
    } else {
        LogLevel::Trace
    }
}

/// Wraps `log::set_max_level`: sets the global maximum level of the `log`
/// crate to the filter of the same name. It changes global state only, so
/// nothing is stated of it.
#[verifier::external_body]
fn set_max_level(level: LogLevel) {
    log::set_max_level(
        match level {
            LogLevel::Off => log::LevelFilter::Off,
            LogLevel::Error => log::LevelFilter::Error,
            LogLevel::Warn => log::LevelFilter::Warn,
            LogLevel::Info => log::LevelFilter::Info,
            LogLevel::Debug => log::LevelFilter::Debug,
            LogLevel::Trace => log::LevelFilter::Trace,
        },
    );
}

/// The level that a count of `-v` flags asks for.
pub fn verbosity_level(verbosity: usize) -> (level: LogLevel)
    ensures
        level == level_for_verbosity(verbosity),
{
    match verbosity {
        0 => LogLevel::Warn,
        1 => LogLevel::Info,
        2 => LogLevel::Debug,
        _ => LogLevel::Trace,
    }
}

/// The level that the shell's options ask for: none when quiet, else the
/// level for the count of `-v` flags.
pub fn log_level_filter(quiet: bool, verbosity: usize) -> (level: LogLevel)
    ensures
        level == if quiet {
            LogLevel::Off
        } else {
            level_for_verbosity(verbosity)
        },
{
    if quiet {
        LogLevel::Off
    } else {
        verbosity_level(verbosity)
    }
}

/// Report messages up to the level that a count of `-v` flags asks for.
pub fn verbose(verbosity: usize) {
    set_max_level(verbosity_level(verbosity));
}

/// Report no messages at all.
pub fn quiet() {
    set_max_level(LogLevel::Off);
}

} // verus!
