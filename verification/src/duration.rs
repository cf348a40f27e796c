//! Spans of time, to the nanosecond.

use vstd::prelude::*;

verus! {

/// Nanoseconds in a second.
pub const NANOS_PER_SEC: u32 = 1_000_000_000;

/// The longest span there is, in nanoseconds: all the seconds that 64 bits can
/// count, and a second less a nanosecond.
pub open spec fn longest() -> int {
    0x1_0000_0000_0000_0000 * NANOS_PER_SEC - 1
}

/// A span of time, in whole seconds and nanoseconds below a second.
#[derive(Clone, Copy, Debug, PartialEq, Eq, Structural)]
pub struct Duration {
    secs: u64,
    nanos: u32,
}

impl View for Duration {
    type V = int;

    /// The span in nanoseconds.
    closed spec fn view(&self) -> int {
        self.secs * NANOS_PER_SEC + self.nanos
    }
}

impl Duration {
    #[verifier::type_invariant]
    spec fn nanos_below_a_second(self) -> bool {
        self.nanos < NANOS_PER_SEC
    }

    /// The span of `secs` seconds and `nanos` nanoseconds. A second's worth of
    /// nanoseconds or more is carried over.
    pub fn new(secs: u64, nanos: u32) -> (r: Duration)
        requires
            secs * NANOS_PER_SEC + nanos <= longest(),
        ensures
            r@ == secs * NANOS_PER_SEC + nanos,
    {
        if nanos < NANOS_PER_SEC {
            Duration { secs, nanos }
        } else {
            let carried: u64 = (nanos / NANOS_PER_SEC) as u64;
            Duration { secs: secs + carried, nanos: nanos % NANOS_PER_SEC }
        }
    }

    /// The span of `secs` seconds.
    pub fn from_secs(secs: u64) -> (r: Duration)
        ensures
            r@ == secs * NANOS_PER_SEC,
    {
        Duration { secs, nanos: 0 }
    }

    /// The span of `millis` milliseconds.
    pub fn from_millis(millis: u64) -> (r: Duration)
        ensures
            r@ == millis * 1_000_000,
    {
        Duration { secs: millis / 1000, nanos: ((millis % 1000) as u32) * 1_000_000 }
    }

    /// The whole seconds of the span.
    pub fn as_secs(&self) -> (r: u64)
        ensures
            r == self@ / (NANOS_PER_SEC as int),
    {
        proof {
            use_type_invariant(self);
        }
        self.secs
    }

    /// What the span has beyond its whole seconds, in nanoseconds.
    pub fn subsec_nanos(&self) -> (r: u32)
        ensures
            r == self@ % (NANOS_PER_SEC as int),
    {
        proof {
            use_type_invariant(self);
        }
        self.nanos
    }

    /// Whether twice the span is still a span of time.
    pub fn can_double(&self) -> (r: bool)
        ensures
            r == (2 * self@ <= longest()),
    {
        proof {
            use_type_invariant(self);
        }
        self.secs <= u64::MAX / 2
    }

    /// Twice the span, but no more than `limit`.
    pub fn doubled_up_to(&self, limit: &Duration) -> (r: Duration)
        requires
            2 * self@ <= longest(),
        ensures
            r@ == (if 2 * self@ < limit@ {
                2 * self@
            } else {
                limit@
            }),
    {
        proof {
            use_type_invariant(self);
            use_type_invariant(limit);
        }
        let nanos: u32 = self.nanos * 2;
        let doubled: Duration = if nanos < NANOS_PER_SEC {
            Duration { secs: self.secs * 2, nanos }
        } else {
            Duration { secs: self.secs * 2 + 1, nanos: nanos - NANOS_PER_SEC }
        };
        if doubled.secs < limit.secs || (doubled.secs == limit.secs && doubled.nanos
            < limit.nanos) {
            doubled
        } else {
            *limit
        }
    }
}

} // verus!
