//! The wall clock, in whole seconds since the Unix epoch, and durations.

use vstd::prelude::*;

verus! {

/// `std::time::SystemTime`, a reading of the system clock.
#[verifier::external_type_specification]
#[verifier::external_body]
pub struct ExSystemTime(std::time::SystemTime);

/// The span from the Unix epoch to a clock reading; `None` where the reading is
/// before the epoch.
pub uninterp spec fn since_epoch(time: std::time::SystemTime) -> Option<std::time::Duration>;

/// The whole seconds in a span of time.
pub uninterp spec fn whole_secs(span: std::time::Duration) -> u64;

/// The span of so many seconds.
pub uninterp spec fn span_of_secs(secs: u64) -> std::time::Duration;

/// `SystemTime::now`: some reading of the clock, of which nothing is claimed.
pub assume_specification[ std::time::SystemTime::now ]() -> (now: std::time::SystemTime)
;

/// `SystemTime::duration_since` the Unix epoch. The span depends on the reading alone
/// and has the name [`since_epoch`]; a reading before the epoch is an error.
#[verifier::external_body]
fn duration_since_epoch(time: std::time::SystemTime) -> (span: Option<std::time::Duration>)
    ensures
        span == since_epoch(time),
{
    time.duration_since(std::time::UNIX_EPOCH).ok()
}

/// `Duration::as_secs`: the whole seconds, which depend on the span alone and have
/// the name [`whole_secs`].
pub assume_specification[ std::time::Duration::as_secs ](span: &std::time::Duration) -> (secs: u64)
    ensures
        secs == whole_secs(*span),
;

/// `Duration::from_secs`: the span depends on the seconds alone and has the name
/// [`span_of_secs`]. It holds that many whole seconds.
pub assume_specification[ std::time::Duration::from_secs ](secs: u64) -> (span:
    std::time::Duration)
    ensures
        span == span_of_secs(secs),
        whole_secs(span) == secs,
;

/// The Unix time of a clock reading: the whole seconds since the epoch, and zero for
/// a reading before it.
pub open spec fn unix_secs(time: std::time::SystemTime) -> u64 {
    match since_epoch(time) {
        Some(span) => whole_secs(span),
        None => 0,
    }
}

/// The Unix time of a clock reading.
pub fn unix_time_of(time: std::time::SystemTime) -> (secs: u64)
    ensures
        secs == unix_secs(time),
{
    match duration_since_epoch(time) {
        Some(span) => span.as_secs(),
        None => 0,
    }
}

/// The Unix time now: that of some reading of the clock.
pub fn unix_now() -> (secs: u64)
    ensures
        exists|time: std::time::SystemTime| secs == #[trigger] unix_secs(time),
{
    unix_time_of(std::time::SystemTime::now())
}

/// The Unix time of a reading from the epoch on is the whole seconds since then, and that of
/// an earlier reading is zero.
pub proof fn law_unix_time(time: std::time::SystemTime)
    ensures
        since_epoch(time) matches Some(span) ==> unix_secs(time) == whole_secs(span),
        since_epoch(time) is None ==> unix_secs(time) == 0,
{
}

} // verus!
