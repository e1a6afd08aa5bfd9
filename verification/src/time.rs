//! Spans of time and instants, as the agent counts them.

use vstd::prelude::*;

use crate::externals::{utc_now, CALENDAR_FIRST_SECOND, CALENDAR_LAST_SECOND};

verus! {

/// Nanoseconds in one second.
pub const NANOS_PER_SEC: u128 = 1_000_000_000;

/// Nanoseconds in one millisecond.
pub const NANOS_PER_MILLI: u128 = 1_000_000;

/// The longest span: `u64::MAX` seconds and 999,999,999 nanoseconds.
pub const MAX_NANOS: u128 = 18_446_744_073_709_551_615_999_999_999;

/// A span of time with nanosecond resolution, at most [`MAX_NANOS`] long.
#[derive(Clone, Copy, Debug, PartialEq, Eq, Structural)]
pub struct Duration {
    nanos: u128,
}

impl Duration {
    /// How many nanoseconds the span lasts.
    pub closed spec fn nanos(self) -> nat {
        self.nanos as nat
    }

    #[verifier::type_invariant]
    spec fn representable(self) -> bool {
        self.nanos <= MAX_NANOS
    }

    /// A span of `secs` whole seconds.
    pub fn from_secs(secs: u64) -> (r: Duration)
        ensures
            r.nanos() == secs * NANOS_PER_SEC,
    {
        Duration { nanos: secs as u128 * NANOS_PER_SEC }
    }

    /// A span of `millis` whole milliseconds.
    pub fn from_millis(millis: u64) -> (r: Duration)
        ensures
            r.nanos() == millis * NANOS_PER_MILLI,
    {
        Duration { nanos: millis as u128 * NANOS_PER_MILLI }
    }

    /// A span of `nanos` nanoseconds.
    pub fn from_nanos(nanos: u128) -> (r: Duration)
        requires
            nanos <= MAX_NANOS,
        ensures
            r.nanos() == nanos,
    {
        Duration { nanos }
    }

    /// The span in nanoseconds.
    pub fn as_nanos(&self) -> (r: u128)
        ensures
            r == self.nanos(),
            r <= MAX_NANOS,
    {
        proof {
            use_type_invariant(self);
        }
        self.nanos
    }

    /// The whole milliseconds that the span contains.
    pub fn as_millis(&self) -> (r: u128)
        ensures
            r == self.nanos() / NANOS_PER_MILLI as nat,
    {
        self.nanos / NANOS_PER_MILLI
    }

    /// The whole seconds that the span contains.
    pub fn as_secs(&self) -> (r: u64)
        ensures
            r == self.nanos() / NANOS_PER_SEC as nat,
    {
        proof {
            use_type_invariant(self);
        }
        (self.nanos / NANOS_PER_SEC) as u64
    }

    /// The span `factor` times over, or the longest span where that is longer.
    pub fn saturating_mul(self, factor: u32) -> (r: Duration)
        ensures
            r.nanos() == if self.nanos() * factor <= MAX_NANOS {
                (self.nanos() * factor) as nat
            } else {
                MAX_NANOS as nat
            },
    {
        proof {
            use_type_invariant(&self);
        }
        assert(self.nanos * factor <= MAX_NANOS * u32::MAX) by (nonlinear_arith)
            requires
                self.nanos <= MAX_NANOS,
                factor <= u32::MAX,
        ;
        let product: u128 = self.nanos * factor as u128;
        if product <= MAX_NANOS {
            Duration { nanos: product }
        } else {
            Duration { nanos: MAX_NANOS }
        }
    }

    /// The shorter of two spans.
    pub fn min(self, other: Duration) -> (r: Duration)
        ensures
            r == if self.nanos() <= other.nanos() {
                self
            } else {
                other
            },
            self.nanos() <= MAX_NANOS,
            other.nanos() <= MAX_NANOS,
    {
        proof {
            use_type_invariant(&self);
            use_type_invariant(&other);
        }
        if self.nanos <= other.nanos {
            self
        } else {
            other
        }
    }

    /// The longer of two spans.
    pub fn max(self, other: Duration) -> (r: Duration)
        ensures
            r == if self.nanos() <= other.nanos() {
                other
            } else {
                self
            },
    {
        if self.nanos <= other.nanos {
            other
        } else {
            self
        }
    }
}

/// A span is its length: two spans of the same length are equal.
pub proof fn law_span_is_its_length(a: Duration, b: Duration)
    requires
        a.nanos() == b.nanos(),
    ensures
        a == b,
{
}

/// Nanoseconds past a second stay below this, leap seconds included.
pub const SUBSEC_LIMIT: u32 = 2_000_000_000;

/// An instant: seconds since the Unix epoch and the nanoseconds past them. In
/// a leap second the nanoseconds may exceed one second.
#[derive(Clone, Copy, Debug, PartialEq, Eq, Structural)]
pub struct UtcTime {
    seconds: i64,
    subsec_nanos: u32,
}

impl UtcTime {
    /// Whole seconds since the Unix epoch.
    pub closed spec fn seconds(self) -> i64 {
        self.seconds
    }

    /// Nanoseconds past the second.
    pub closed spec fn subsec_nanos(self) -> u32 {
        self.subsec_nanos
    }

    #[verifier::type_invariant]
    spec fn in_range(self) -> bool {
        self.subsec_nanos < SUBSEC_LIMIT
    }

    /// The instant `subsec_nanos` nanoseconds past the second `seconds`.
    pub fn new(seconds: i64, subsec_nanos: u32) -> (r: UtcTime)
        requires
            subsec_nanos < SUBSEC_LIMIT,
        ensures
            r.seconds() == seconds,
            r.subsec_nanos() == subsec_nanos,
    {
        UtcTime { seconds, subsec_nanos }
    }

    /// The instant has a date in the calendar and lies in no leap second, so
    /// that it can be stored as a date and sent as a timestamp.
    pub open spec fn has_date(self) -> bool {
        &&& CALENDAR_FIRST_SECOND <= self.seconds() <= CALENDAR_LAST_SECOND
        &&& self.subsec_nanos() < NANOS_PER_SEC
    }

    /// The present instant, by the system clock. It always has a date; which one
    /// depends on the clock.
    pub fn now() -> (r: UtcTime)
        ensures
            r.has_date(),
    {
        let (seconds, subsec_nanos): (i64, u32) = utc_now();
        UtcTime { seconds, subsec_nanos }
    }

    /// Whole seconds since the Unix epoch.
    pub fn timestamp(&self) -> (r: i64)
        ensures
            r == self.seconds(),
    {
        self.seconds
    }

    /// Nanoseconds past the second.
    pub fn timestamp_subsec_nanos(&self) -> (r: u32)
        ensures
            r == self.subsec_nanos(),
            r < SUBSEC_LIMIT,
    {
        proof {
            use_type_invariant(self);
        }
        self.subsec_nanos
    }
}

} // verus!
