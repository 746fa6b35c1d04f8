//! Log levels, and the numbers that stand for them in guest code.
use vstd::prelude::*;

verus! {

/// How much a log message matters, the least first.
#[derive(Clone, Copy, PartialEq, Eq, Structural, Debug)]
pub enum LogLevel {
    Trace,
    Debug,
    Info,
    Warn,
    Error,
}

/// The number of a level: levels that matter more have larger numbers.
pub open spec fn level_number(level: LogLevel) -> i64 {
    match level {
        LogLevel::Trace => 0,
        LogLevel::Debug => 1,
        LogLevel::Info => 2,
        LogLevel::Warn => 3,
        LogLevel::Error => 4,
    }
}

/// The number of the least level that is logged; where nothing is, one above all levels.
pub open spec fn threshold_number(least: Option<LogLevel>) -> i64 {
    match least {
        None => i64::MAX,
        Some(level) => level_number(level),
    }
}

/// Convert log level to integer
pub fn log_level_to_int(level: LogLevel) -> (result: i64)
    ensures
        result == level_number(level),
{
    match level {
        LogLevel::Trace => 0,
        LogLevel::Debug => 1,
        LogLevel::Info => 2,
        LogLevel::Warn => 3,
        LogLevel::Error => 4,
    }
}

/// The number that tells guest code which levels are logged.
pub fn log_threshold_to_int(least: Option<LogLevel>) -> (result: i64)
    ensures
        result == threshold_number(least),
{
    match least {
        None => i64::MAX,
        Some(level) => log_level_to_int(level),
    }
}

/// The least level that is logged at present, or nothing where logging is off.
///
/// Calls `LevelFilter::current` and `LevelFilter::into_level` of `tracing`. The answer depends on
/// what the process has set up, so that nothing is claimed of it.
#[verifier::external_body]
pub(crate) fn current_threshold() -> (result: Option<LogLevel>) {
    tracing::level_filters::LevelFilter::current().into_level().map(
        |level| match level {
            tracing::Level::TRACE => LogLevel::Trace,
            tracing::Level::DEBUG => LogLevel::Debug,
            tracing::Level::INFO => LogLevel::Info,
            tracing::Level::WARN => LogLevel::Warn,
            tracing::Level::ERROR => LogLevel::Error,
        },
    )
}

/// The number that tells guest code which levels are logged at present.
pub fn get_log_level() -> (result: i64)
    ensures
        exists|least: Option<LogLevel>| result == #[trigger] threshold_number(least),
{
    log_threshold_to_int(current_threshold())
}

/// Different levels have different numbers, none above 4. Where nothing is logged, guest code is told
/// a number above all of them.
pub proof fn level_numbers_are_apart(level: LogLevel, other: LogLevel)
    ensures
        0 <= level_number(level) <= 4,
        level_number(level) == level_number(other) <==> level == other,
        level_number(level) < threshold_number(None),
        threshold_number(Some(level)) == level_number(level),
{
}

} // verus!
