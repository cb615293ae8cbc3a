//! Spans of time.

use vstd::prelude::*;

verus! {

/// Nanoseconds in a second.
pub const NANOS_PER_SEC: u128 = 1_000_000_000;

/// Nanoseconds in a millisecond.
pub const NANOS_PER_MILLI: u128 = 1_000_000;

/// The longest span: `u64::MAX` seconds and all but one nanosecond of another.
pub const MAX_NANOS: u128 = 18_446_744_073_709_551_615_999_999_999;

/// A span of time, in nanoseconds.
#[derive(Clone, Copy, Debug, PartialEq, Eq, Structural)]
pub struct Duration {
    pub nanos: u128,
}

/// The span of `secs` seconds.
pub open spec fn seconds(secs: nat) -> Duration {
    Duration { nanos: (secs * 1_000_000_000) as u128 }
}

impl Duration {
    /// The length in nanoseconds.
    pub open spec fn view(&self) -> nat {
        self.nanos as nat
    }

    /// `self + other`, held at the longest span.
    pub open spec fn plus(self, other: Duration) -> Duration {
        Duration {
            nanos: if self.nanos + other.nanos > MAX_NANOS {
                MAX_NANOS
            } else {
                (self.nanos + other.nanos) as u128
            },
        }
    }

    /// `self - other`, held at zero.
    pub open spec fn minus(self, other: Duration) -> Duration {
        Duration {
            nanos: if self.nanos < other.nanos {
                0
            } else {
                (self.nanos - other.nanos) as u128
            },
        }
    }

    /// No time at all.
    pub fn zero() -> (d: Duration)
        ensures
            d == (Duration { nanos: 0 }),
    {
        Duration { nanos: 0 }
    }

    /// The longest span.
    pub fn max() -> (d: Duration)
        ensures
            d == (Duration { nanos: MAX_NANOS }),
    {
        Duration { nanos: MAX_NANOS }
    }

    /// The span of `secs` seconds.
    pub fn from_secs(secs: u64) -> (d: Duration)
        ensures
            d == seconds(secs as nat),
            d@ == secs * 1_000_000_000,
    {
        Duration { nanos: secs as u128 * NANOS_PER_SEC }
    }

    /// The span of `millis` milliseconds.
    pub fn from_millis(millis: u64) -> (d: Duration)
        ensures
            d@ == millis * 1_000_000,
    {
        Duration { nanos: millis as u128 * NANOS_PER_MILLI }
    }

    /// Whole seconds in the span, held at `u64::MAX`.
    pub fn as_secs(self) -> (secs: u64)
        ensures
            self.nanos <= MAX_NANOS ==> secs == self@ / 1_000_000_000,
            self.nanos > MAX_NANOS ==> secs == u64::MAX,
    {
        let whole: u128 = self.nanos / NANOS_PER_SEC;
        if self.nanos > MAX_NANOS {
            u64::MAX
        } else {
            whole as u64
        }
    }

    /// `self + other`, held at the longest span.
    pub fn saturating_add(self, other: Duration) -> (d: Duration)
        ensures
            d == self.plus(other),
    {
        if self.nanos > MAX_NANOS || other.nanos > MAX_NANOS {
            Duration { nanos: MAX_NANOS }
        } else if self.nanos + other.nanos > MAX_NANOS {
            Duration { nanos: MAX_NANOS }
        } else {
            Duration { nanos: self.nanos + other.nanos }
        }
    }

    /// `self - other`, held at zero.
    pub fn saturating_sub(self, other: Duration) -> (d: Duration)
        ensures
            d == self.minus(other),
    {
        if self.nanos < other.nanos {
            Duration { nanos: 0 }
        } else {
            Duration { nanos: self.nanos - other.nanos }
        }
    }

    /// `self >= other`.
    pub fn at_least(self, other: Duration) -> (b: bool)
        ensures
            b == (self@ >= other@),
    {
        self.nanos >= other.nanos
    }
}

/// Spans add up and take off in nanoseconds, held at the longest span and at none; a
/// second has a thousand million of them.
pub proof fn spans_add_up(a: Duration, b: Duration, secs: u64)
    ensures
        a.plus(b)@ == (if a@ + b@ <= 18_446_744_073_709_551_615_999_999_999 {
            a@ + b@
        } else {
            18_446_744_073_709_551_615_999_999_999
        }),
        a.minus(b)@ == (if a@ >= b@ {
            a@ - b@
        } else {
            0
        }),
        seconds(secs as nat)@ == 1_000_000_000 * secs,
{
}

} // verus!
