//! Spans of time, counted in nanoseconds.

use vstd::prelude::*;

verus! {

/// Nanoseconds in a second.
pub open spec fn nanos_per_second() -> nat {
    1_000_000_000
}

/// The longest span a `Duration` can hold: `u64::MAX` seconds plus
/// 999,999,999 nanoseconds, as for `std::time::Duration::MAX`.
pub open spec fn max_nanos() -> nat {
    u64::MAX as nat * 1_000_000_000 + 999_999_999
}

/// A span of time with nanosecond precision, ranging over the same values as
/// `std::time::Duration`.
#[derive(Clone, Copy, PartialEq, Eq, Structural, Debug)]
pub struct Duration {
    nanos: u128,
}

impl View for Duration {
    type V = nat;

    /// The span in nanoseconds.
    closed spec fn view(&self) -> nat {
        self.nanos as nat
    }
}

/// A span is determined by its length.
pub proof fn lemma_view_injective(a: Duration, b: Duration)
    ensures
        a@ == b@ ==> a == b,
{
}

impl Duration {
    #[verifier::type_invariant]
    closed spec fn in_range(&self) -> bool {
        self.nanos <= max_nanos()
    }

    /// The empty span.
    pub fn zero() -> (d: Duration)
        ensures
            d@ == 0,
    {
        Duration { nanos: 0 }
    }

    /// The longest span.
    pub fn max_value() -> (d: Duration)
        ensures
            d@ == max_nanos(),
    {
        Duration { nanos: 18_446_744_073_709_551_615_999_999_999u128 }
    }

    /// A span of `nanos` nanoseconds, which must not exceed the longest span.
    pub fn from_total_nanos(nanos: u128) -> (d: Duration)
        requires
            nanos <= max_nanos(),
        ensures
            d@ == nanos,
    {
        Duration { nanos }
    }

    /// `secs` whole seconds.
    pub fn from_secs(secs: u64) -> (d: Duration)
        ensures
            d@ == secs * nanos_per_second(),
    {
        Duration { nanos: secs as u128 * 1_000_000_000 }
    }

    /// `millis` milliseconds.
    pub fn from_millis(millis: u64) -> (d: Duration)
        ensures
            d@ == millis * 1_000_000,
    {
        Duration { nanos: millis as u128 * 1_000_000 }
    }

    /// `nanos` nanoseconds.
    pub fn from_nanos(nanos: u64) -> (d: Duration)
        ensures
            d@ == nanos,
    {
        Duration { nanos: nanos as u128 }
    }

    /// `secs` seconds plus `nanos` nanoseconds, which must not carry past
    /// the longest span.
    pub fn new(secs: u64, nanos: u32) -> (d: Duration)
        requires
            secs * nanos_per_second() + nanos <= max_nanos(),
        ensures
            d@ == secs * nanos_per_second() + nanos,
    {
        Duration { nanos: secs as u128 * 1_000_000_000 + nanos as u128 }
    }

    /// The whole seconds.
    pub fn as_secs(&self) -> (s: u64)
        ensures
            s == self@ / nanos_per_second(),
    {
        proof {
            use_type_invariant(self);
        }
        (self.nanos / 1_000_000_000) as u64
    }

    /// The nanoseconds past the whole seconds.
    pub fn subsec_nanos(&self) -> (n: u32)
        ensures
            n == self@ % nanos_per_second(),
    {
        (self.nanos % 1_000_000_000) as u32
    }

    /// The whole milliseconds.
    pub fn as_millis(&self) -> (m: u128)
        ensures
            m == self@ / 1_000_000,
    {
        self.nanos / 1_000_000
    }

    /// The span in nanoseconds.
    pub fn as_nanos(&self) -> (n: u128)
        ensures
            n == self@,
            self@ <= max_nanos(),
    {
        proof {
            use_type_invariant(self);
        }
        self.nanos
    }

    /// The shorter of two spans.
    pub fn min(self, other: Duration) -> (d: Duration)
        ensures
            d@ == if self@ <= other@ {
                self@
            } else {
                other@
            },
    {
        if self.nanos <= other.nanos {
            self
        } else {
            other
        }
    }

    /// The longer of two spans.
    pub fn max(self, other: Duration) -> (d: Duration)
        ensures
            d@ == if self@ >= other@ {
                self@
            } else {
                other@
            },
    {
        if self.nanos >= other.nanos {
            self
        } else {
            other
        }
    }

    /// `self` times `k`, or the longest span when that would not fit.
    pub fn saturating_mul(self, k: u32) -> (d: Duration)
        ensures
            d@ == if self@ * k <= max_nanos() {
                self@ * k
            } else {
                max_nanos() as int
            },
    {
        proof {
            use_type_invariant(&self);
        }
        match self.nanos.checked_mul(k as u128) {
            Some(p) => {
                if p <= 18_446_744_073_709_551_615_999_999_999u128 {
                    Duration { nanos: p }
                } else {
                    Duration::max_value()
                }
            },
            None => Duration::max_value(),
        }
    }
}

} // verus!
