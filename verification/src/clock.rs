//! Points in time and the whole milliseconds between them.

use vstd::prelude::*;

verus! {

/// Nanoseconds in a second.
pub const NANOS_PER_SEC: i128 = 1_000_000_000;

/// Nanoseconds in a millisecond.
pub const NANOS_PER_MILLI: i128 = 1_000_000;

/// A point in time: `sec` seconds and `nsec` nanoseconds after the epoch.
#[derive(Clone, Copy, Debug, PartialEq, Eq, Structural)]
pub struct Timestamp {
    pub sec: i64,
    pub nsec: i32,
}

impl Timestamp {
    /// Nanoseconds since the epoch.
    pub open spec fn nanos(self) -> int {
        self.sec * 1_000_000_000 + self.nsec
    }
}

/// Whole milliseconds from `start` to `end`, rounded towards zero; negative
/// where `end` lies before `start`.
pub open spec fn elapsed_ms(start: Timestamp, end: Timestamp) -> int {
    let nanos = end.nanos() - start.nanos();
    if nanos >= 0 {
        nanos / 1_000_000
    } else {
        -((-nanos) / 1_000_000)
    }
}

/// Later ends give longer spans.
pub proof fn lemma_elapsed_monotonic(start: Timestamp, end: Timestamp, later: Timestamp)
    requires
        end.nanos() <= later.nanos(),
    ensures
        elapsed_ms(start, end) <= elapsed_ms(start, later),
{
}

/// A span that ends no earlier than it starts is not negative, and a span of
/// whole seconds is a thousand milliseconds for each.
pub proof fn lemma_elapsed_forwards(start: Timestamp, end: Timestamp)
    ensures
        start.nanos() <= end.nanos() ==> elapsed_ms(start, end) >= 0,
        start.nsec == end.nsec ==> elapsed_ms(start, end) == (end.sec - start.sec) * 1000,
{
}

/// Computes the whole milliseconds from `start` to `end`.
pub fn elapsed_millis(start: Timestamp, end: Timestamp) -> (millis: i128)
    ensures
        millis == elapsed_ms(start, end),
{
    let seconds: i128 = end.sec as i128 - start.sec as i128;
    let nanos: i128 = seconds * NANOS_PER_SEC + (end.nsec as i128 - start.nsec as i128);
    if nanos >= 0 {
        nanos / NANOS_PER_MILLI
    } else {
        -((-nanos) / NANOS_PER_MILLI)
    }
}

/// `time::now`, taken through `Tm::to_timespec`: the wall clock's reading.
/// Nothing is promised of it; two readings need not even be in order.
#[verifier::external_body]
pub(crate) fn now() -> (reading: Timestamp) {
    let reading = time::now().to_timespec();
    Timestamp { sec: reading.sec, nsec: reading.nsec }
}

} // verus!
