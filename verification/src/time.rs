//! Durations and half-open time intervals, the time domain of the whole
//! library. A duration is a whole number of nanoseconds.

use vstd::prelude::*;

verus! {

/// A non-negative span of time, counted in nanoseconds.
#[derive(Clone, Copy, Debug, PartialEq, Eq, Structural)]
pub struct Dur {
    pub nanos: u64,
}

pub const NANOS_PER_SEC: u64 = 1_000_000_000;

pub const NANOS_PER_MILLI: u64 = 1_000_000;

impl Dur {
    pub fn from_nanos(nanos: u64) -> (r: Dur)
        ensures
            r.nanos == nanos,
    {
        Dur { nanos }
    }

    pub fn from_millis(millis: u64) -> (r: Dur)
        requires
            millis * NANOS_PER_MILLI <= u64::MAX,
        ensures
            r.nanos == millis * NANOS_PER_MILLI,
    {
        Dur { nanos: millis * NANOS_PER_MILLI }
    }

    pub fn from_secs(secs: u64) -> (r: Dur)
        requires
            secs * NANOS_PER_SEC <= u64::MAX,
        ensures
            r.nanos == secs * NANOS_PER_SEC,
    {
        Dur { nanos: secs * NANOS_PER_SEC }
    }
}

/// A half-open interval `[start, end)` on a timeline.
#[derive(Clone, Copy, Debug, PartialEq, Eq, Structural)]
pub struct Interval {
    pub start: Dur,
    pub end: Dur,
}

impl Interval {
    pub open spec fn spec_contains(self, d: Dur) -> bool {
        self.start.nanos <= d.nanos < self.end.nanos
    }

    /// Whether `d` lies in the half-open interval `[self.start, self.end)`.
    pub fn contains(&self, d: Dur) -> (r: bool)
        ensures
            r == self.spec_contains(d),
    {
        self.start.nanos <= d.nanos && d.nanos < self.end.nanos
    }

    pub fn new(start: Dur, end: Dur) -> (r: Interval)
        ensures
            r.start == start,
            r.end == end,
    {
        Interval { start, end }
    }
}

} // verus!
