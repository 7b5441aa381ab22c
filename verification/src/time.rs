//! Points in time and spans between them, counted in nanoseconds on a
//! monotonic clock whose origin the caller picks.

use vstd::prelude::*;

verus! {

/// A span of time in nanoseconds.
#[derive(Clone, Copy, Debug, PartialEq, Eq, Structural)]
pub struct TimeSpan {
    pub nanos: u128,
}

/// A point on a monotonic clock, in nanoseconds since an origin.
#[derive(Clone, Copy, Debug, PartialEq, Eq, Structural)]
pub struct Timestamp {
    pub nanos: u128,
}

/// Nanoseconds from `since` to `now`, or zero where `since` is later.
pub open spec fn elapsed_nanos(now: Timestamp, since: Timestamp) -> nat {
    if now.nanos >= since.nanos {
        (now.nanos - since.nanos) as nat
    } else {
        0
    }
}

impl TimeSpan {
    pub fn from_nanos(nanos: u128) -> (r: Self)
        ensures
            r.nanos == nanos,
    {
        TimeSpan { nanos }
    }

    pub fn from_millis(millis: u64) -> (r: Self)
        ensures
            r.nanos == millis * 1_000_000,
    {
        TimeSpan { nanos: (millis as u128) * 1_000_000 }
    }

    pub fn from_secs(secs: u64) -> (r: Self)
        ensures
            r.nanos == secs * 1_000_000_000,
    {
        TimeSpan { nanos: (secs as u128) * 1_000_000_000 }
    }
}

impl Timestamp {
    pub fn from_nanos(nanos: u128) -> (r: Self)
        ensures
            r.nanos == nanos,
    {
        Timestamp { nanos }
    }

    /// The point `span` after this one.
    pub fn after(self, span: TimeSpan) -> (r: Self)
        requires
            self.nanos + span.nanos <= u128::MAX,
        ensures
            r.nanos == self.nanos + span.nanos,
    {
        Timestamp { nanos: self.nanos + span.nanos }
    }

    /// The span from `earlier` to this point, zero where `earlier` is later.
    pub fn duration_since(self, earlier: Timestamp) -> (r: TimeSpan)
        ensures
            r.nanos == elapsed_nanos(self, earlier),
    {
        if self.nanos >= earlier.nanos {
            TimeSpan { nanos: self.nanos - earlier.nanos }
        } else {
            TimeSpan { nanos: 0 }
        }
    }
}

} // verus!
