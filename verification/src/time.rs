//! Spans and points of time of the standard library, in nanoseconds.
use std::time::Duration;
use std::time::Instant;
use vstd::prelude::*;

verus! {

/// The length of a duration in nanoseconds.
pub uninterp spec fn duration_nanos(d: std::time::Duration) -> nat;

#[verifier::external_type_specification]
#[verifier::external_body]
pub struct ExInstant(std::time::Instant);

/// A point of time, in nanoseconds from a fixed one.
pub uninterp spec fn instant_nanos(i: std::time::Instant) -> int;

/// The nanoseconds of the longest duration.
pub const MAX_DURATION_NANOS: u128 = 18_446_744_073_709_551_615_999_999_999;

/// `Duration::as_nanos` is the length in nanoseconds. A duration has at most
/// `u64::MAX` whole seconds.
pub assume_specification[ std::time::Duration::as_nanos ](d: &std::time::Duration) -> (n: u128)
    ensures
        n == duration_nanos(*d),
        n <= MAX_DURATION_NANOS,
;

/// `Duration::from_secs` makes a duration of whole seconds.
pub assume_specification[ std::time::Duration::from_secs ](secs: u64) -> (d: std::time::Duration)
    ensures
        duration_nanos(d) == secs * 1_000_000_000,
;

/// `Duration::from_millis` makes a duration of whole milliseconds.
pub assume_specification[ std::time::Duration::from_millis ](millis: u64) -> (d: std::time::Duration)
    ensures
        duration_nanos(d) == millis * 1_000_000,
;

/// `Duration::from_micros` makes a duration of whole microseconds.
pub assume_specification[ std::time::Duration::from_micros ](micros: u64) -> (d: std::time::Duration)
    ensures
        duration_nanos(d) == micros * 1_000,
;

/// `Duration::from_nanos` makes a duration of whole nanoseconds.
pub assume_specification[ std::time::Duration::from_nanos ](nanos: u64) -> (d: std::time::Duration)
    ensures
        duration_nanos(d) == nanos,
;

/// `Instant::now`. Nothing is said of what time it is.
pub assume_specification[ std::time::Instant::now ]() -> (now: std::time::Instant)
;

/// Whether a point of time can be represented as an `Instant`.
pub open spec fn representable(nanos: int) -> bool {
    exists|i: Instant| #[trigger] instant_nanos(i) == nanos
}

/// `Instant::checked_add` is the later point of time where that can be
/// represented as an `Instant`, and nothing where it cannot.
pub assume_specification[ std::time::Instant::checked_add ](i: &std::time::Instant, d: std::time::Duration) -> (later: Option<std::time::Instant>)
    ensures
        match later {
            Some(l) => instant_nanos(l) == instant_nanos(*i) + duration_nanos(d),
            None => !representable(instant_nanos(*i) + duration_nanos(d)),
        },
;

/// The duration unless it is the longest there is, which stands for none.
pub fn finite(dur: Duration) -> (bound: Option<Duration>)
    ensures
        bound == finite_duration(dur),
{
    if dur.as_nanos() == MAX_DURATION_NANOS {
        None
    } else {
        Some(dur)
    }
}

/// The duration unless it is the longest there is.
pub open spec fn finite_duration(dur: Duration) -> Option<Duration> {
    if duration_nanos(dur) == MAX_DURATION_NANOS {
        None
    } else {
        Some(dur)
    }
}

} // verus!
