use std::time::Duration;
use vstd::prelude::*;

verus! {

/// A reading of a clock that never runs backwards, in nanoseconds.
pub type MonotonicTimestamp = u128;

/// The duration that `Duration::from_nanos` builds from a count of nanoseconds.
pub uninterp spec fn duration_of_nanos(nanos: u64) -> Duration;

/// The count of nanoseconds that `Duration::as_nanos` reads from a duration.
pub uninterp spec fn duration_as_nanos(duration: Duration) -> u128;

/// `Duration::from_nanos` depends on its argument alone, and the duration it
/// builds holds that many nanoseconds in all.
pub assume_specification[ Duration::from_nanos ](nanos: u64) -> (duration: Duration)
    ensures
        duration == duration_of_nanos(nanos),
        duration_as_nanos(duration) == nanos,
;

/// `Duration::as_nanos` depends on the duration alone.
pub assume_specification[ Duration::as_nanos ](duration: &Duration) -> (nanos: u128)
    ensures
        nanos == duration_as_nanos(*duration),
;

/// Nanoseconds from `start` to `now`, kept to the low 64 bits.
pub open spec fn elapsed_nanos(start: MonotonicTimestamp, now: MonotonicTimestamp) -> u64 {
    ((now - start) % 0x1_0000_0000_0000_0000) as u64
}

/// The time spent in a state that began at `start`, seen at `now`.
pub fn time_in_state(start: MonotonicTimestamp, now: MonotonicTimestamp) -> (spent: Duration)
    requires
        start <= now,
    ensures
        spent == duration_of_nanos(elapsed_nanos(start, now)),
        duration_as_nanos(spent) == elapsed_nanos(start, now),
{
    let span: u128 = now - start;
    Duration::from_nanos((span % 0x1_0000_0000_0000_0000u128) as u64)
}

} // verus!
