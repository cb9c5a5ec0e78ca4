//! Wall-clock arithmetic: scaling the host's nanosecond readings to
//! coarser units, and the decision inside the busy-poll sleep loop —
//! the driver yields to the host, re-reads the clock, and asks here
//! whether the requested span has elapsed.

use vstd::prelude::*;

verus! {

/// The milliseconds in a clock reading of `nanos` nanoseconds.
pub fn millis_of_nanos(nanos: u64) -> (r: u64)
    ensures
        r == nanos / 1_000_000,
{
    nanos / 1_000_000
}

/// The whole seconds in a clock reading of `nanos` nanoseconds.
pub fn seconds_of_nanos(nanos: u64) -> (r: u64)
    ensures
        r == nanos / 1_000_000_000,
{
    nanos / 1_000_000_000
}

/// Whether a sleep that began at `start` is over at `now`, both in
/// milliseconds of wall-clock time.  A clock reading earlier than the
/// start counts as no elapsed time at all.
pub fn sleep_complete(start: u64, now: u64, millis: u64) -> (r: bool)
    ensures
        r == (start <= now && now - start >= millis),
{
    now >= start && now - start >= millis
}

} // verus!
