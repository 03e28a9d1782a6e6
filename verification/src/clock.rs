//! The time, as the store keeps it.
use vstd::prelude::*;


verus! {

/// A point in time (`std::time::SystemTime`). Opaque.
#[verifier::external_type_specification]
#[verifier::external_body]
pub struct ExSystemTime(std::time::SystemTime);

/// The nanoseconds from the Unix epoch to a point in time; negative for an earlier one.
pub uninterp spec fn nanos_after_epoch(time: std::time::SystemTime) -> int;

/// The nanoseconds in a span of time.
pub uninterp spec fn nanos_in(span: std::time::Duration) -> nat;

/// `SystemTime::now`: what the system's clock shows. Nothing is claimed of it.
#[verifier::external_body]
fn system_now() -> std::time::SystemTime {
    std::time::SystemTime::now()
}

/// The span from the epoch to a point in time; none where the point is earlier.
pub open spec fn span_to(time: std::time::SystemTime) -> Option<nat> {
    if nanos_after_epoch(time) < 0 {
        None
    } else {
        Some(nanos_after_epoch(time) as nat)
    }
}

/// `SystemTime::duration_since` the Unix epoch: the span from the epoch to a point in time, or
/// `None` where that is earlier.
#[verifier::external_body]
fn since_epoch(time: std::time::SystemTime) -> (r: Option<std::time::Duration>)
    ensures
        match r {
            Some(span) => nanos_after_epoch(time) == nanos_in(span),
            None => nanos_after_epoch(time) < 0,
        },
{
    time.duration_since(std::time::UNIX_EPOCH).ok()
}

/// `Duration::as_secs`: the whole seconds of a span.
#[verifier::external_body]
fn whole_seconds(span: std::time::Duration) -> (n: u64)
    ensures
        n == nanos_in(span) / 1_000_000_000,
{
    span.as_secs()
}

/// `Duration::as_millis`: the whole milliseconds of a span.
#[verifier::external_body]
fn whole_millis(span: std::time::Duration) -> (n: u128)
    ensures
        n == nanos_in(span) / 1_000_000,
{
    span.as_millis()
}

/// The seconds that have passed, as they are stored; zero for a time before the epoch.
pub fn stored_seconds(passed: Option<u64>) -> (secs: i64)
    ensures
        secs == match passed {
            Some(n) => n as i64,
            None => 0,
        },
{
    match passed {
        Some(n) => n as i64,
        None => 0,
    }
}

/// The milliseconds that have passed, as they are stored; zero for a time before the epoch.
pub fn stored_millis(passed: Option<u128>) -> (millis: i64)
    ensures
        millis == match passed {
            Some(n) => n as i64,
            None => 0,
        },
{
    match passed {
        Some(n) => n as i64,
        None => 0,
    }
}

/// A point in time as it is stored in seconds.
pub open spec fn seconds_at(time: std::time::SystemTime) -> i64 {
    match span_to(time) {
        Some(nanos) => (nanos / 1_000_000_000) as i64,
        None => 0,
    }
}

/// A point in time as it is stored in milliseconds.
pub open spec fn millis_at(time: std::time::SystemTime) -> i64 {
    match span_to(time) {
        Some(nanos) => (nanos / 1_000_000) as i64,
        None => 0,
    }
}

/// Whether a number of milliseconds is some point in time.
pub open spec fn is_time(millis: i64) -> bool {
    exists|time: std::time::SystemTime| millis == #[trigger] millis_at(time)
}

/// The seconds since the Unix epoch by the system's clock; zero where the clock shows a time before
/// it. What the clock shows, the system decides.
pub fn now_secs() -> (secs: i64)
    ensures
        exists|time: std::time::SystemTime| secs == #[trigger] seconds_at(time),
{
    let time = system_now();
    let secs = match since_epoch(time) {
        Some(span) => stored_seconds(Some(whole_seconds(span))),
        None => stored_seconds(None),
    };
    assert(secs == seconds_at(time));
    secs
}

/// The milliseconds since the Unix epoch by the system's clock; zero where the clock shows a time
/// before it. What the clock shows, the system decides.
pub fn now_ms() -> (millis: i64)
    ensures
        is_time(millis),
{
    let time = system_now();
    let millis = match since_epoch(time) {
        Some(span) => stored_millis(Some(whole_millis(span))),
        None => stored_millis(None),
    };
    assert(millis == millis_at(time));
    millis
}

/// A point in time is stored as the whole seconds, or the whole milliseconds, that lie between it and
/// the epoch, as far as they can be stored; one before the epoch is stored as zero.
pub proof fn law_time_is_stored_in_whole_units(time: std::time::SystemTime)
    ensures
        span_to(time) is None ==> seconds_at(time) == 0 && millis_at(time) == 0,
        span_to(time) matches Some(nanos) ==> {
            &&& nanos < 9_223_372_036_854_775_807_000_000 ==> 0 <= nanos - 1_000_000 * millis_at(
                time,
            ) < 1_000_000
            &&& nanos < 9_223_372_036_854_775_807_000_000 ==> 0 <= nanos - 1_000_000_000
                * seconds_at(time) < 1_000_000_000
        },
{
}

} // verus!
