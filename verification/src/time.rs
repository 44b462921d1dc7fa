//! Spans and points of time, in whole nanoseconds.

use vstd::prelude::*;

verus! {

/// A span of time.
#[derive(Debug, Clone, Copy, PartialEq, Eq, Structural, Hash)]
pub struct Duration {
    /// Length in nanoseconds.
    pub nanos: u128,
}

impl Duration {
    /// The span of `secs` seconds and `nanos` nanoseconds.
    pub fn new(secs: u64, nanos: u32) -> (span: Duration)
        ensures
            span.nanos == secs * 1_000_000_000 + nanos,
    {
        assert(secs * 1_000_000_000 <= 0xffff_ffff_ffff_ffff * 1_000_000_000) by (nonlinear_arith)
            requires
                secs <= 0xffff_ffff_ffff_ffff,
        ;
        Duration { nanos: secs as u128 * 1_000_000_000u128 + nanos as u128 }
    }

    /// The span of `secs` seconds.
    pub fn from_secs(secs: u64) -> (span: Duration)
        ensures
            span.nanos == secs * 1_000_000_000,
    {
        Duration::new(secs, 0)
    }

    /// The span of `millis` milliseconds.
    pub fn from_millis(millis: u64) -> (span: Duration)
        ensures
            span.nanos == millis * 1_000_000,
    {
        assert(millis * 1_000_000 <= 0xffff_ffff_ffff_ffff * 1_000_000) by (nonlinear_arith)
            requires
                millis <= 0xffff_ffff_ffff_ffff,
        ;
        Duration { nanos: millis as u128 * 1_000_000u128 }
    }

    /// The empty span.
    pub fn zero() -> (span: Duration)
        ensures
            span.nanos == 0,
    {
        Duration { nanos: 0 }
    }

    /// The span of `self` and `more` together, or the longest span where that is longer still.
    pub fn saturating_add(self, more: Duration) -> (span: Duration)
        ensures
            span.nanos == if self.nanos + more.nanos <= u128::MAX {
                self.nanos + more.nanos
            } else {
                u128::MAX as int
            },
    {
        if more.nanos <= u128::MAX - self.nanos {
            Duration { nanos: self.nanos + more.nanos }
        } else {
            Duration { nanos: u128::MAX }
        }
    }
}

/// A point of time: nanoseconds since the runtime's clock was started.
#[derive(Debug, Clone, Copy, PartialEq, Eq, Structural, Hash)]
pub struct Instant {
    /// Nanoseconds since the clock was started.
    pub nanos: u128,
}

impl Instant {
    /// The point `span` before this one, unless that lies before the start of the clock.
    pub fn checked_sub(self, span: Duration) -> (earlier: Option<Instant>)
        ensures
            earlier == if span.nanos <= self.nanos {
                Some(Instant { nanos: (self.nanos - span.nanos) as u128 })
            } else {
                None
            },
    {
        if span.nanos <= self.nanos {
            Some(Instant { nanos: self.nanos - span.nanos })
        } else {
            None
        }
    }

    /// The point `span` after this one, unless that lies beyond the last point of the clock.
    pub fn checked_add(self, span: Duration) -> (later: Option<Instant>)
        ensures
            later == if self.nanos + span.nanos <= u128::MAX {
                Some(Instant { nanos: (self.nanos + span.nanos) as u128 })
            } else {
                None
            },
    {
        if span.nanos <= u128::MAX - self.nanos {
            Some(Instant { nanos: self.nanos + span.nanos })
        } else {
            None
        }
    }

    /// How long it takes from `earlier` to this point; nothing where `earlier` is the later one.
    pub fn saturating_duration_since(self, earlier: Instant) -> (span: Duration)
        ensures
            span.nanos == if earlier.nanos <= self.nanos {
                self.nanos - earlier.nanos
            } else {
                0
            },
    {
        if earlier.nanos <= self.nanos {
            Duration { nanos: self.nanos - earlier.nanos }
        } else {
            Duration { nanos: 0 }
        }
    }
}

} // verus!
