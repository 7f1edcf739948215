//! A span of time with nanosecond resolution.

use vstd::prelude::*;

verus! {

/// The number of nanoseconds in one second.
pub const NANOS_PER_SEC: u128 = 1_000_000_000;

/// The largest span a `Duration` can hold: `u64::MAX` seconds and
/// 999 999 999 nanoseconds.
pub const MAX_NANOS: u128 = 18_446_744_073_709_551_615_999_999_999;

/// A span of time, counted in nanoseconds.
///
/// It covers the same range as `core::time::Duration`, which the hypervisor
/// interface hands out; the platform code converts between the two.
#[derive(Debug, Clone, Copy, PartialEq, Eq, Structural)]
pub struct Duration {
    nanos: u128,
}

impl View for Duration {
    type V = nat;

    closed spec fn view(&self) -> nat {
        self.nanos as nat
    }
}

/// Two spans with the same length are the same value.
pub broadcast proof fn lemma_duration_view_injective(a: Duration, b: Duration)
    ensures
        #[trigger] a@ == #[trigger] b@ ==> a == b,
{
}

impl Duration {
    /// A span holds no more than `MAX_NANOS` nanoseconds.
    #[verifier::type_invariant]
    spec fn inv(self) -> bool {
        self.nanos <= MAX_NANOS
    }

    /// The empty span.
    pub fn zero() -> (d: Duration)
        ensures
            d@ == 0,
    {
        Duration { nanos: 0 }
    }

    /// A span of `secs` seconds.
    pub fn from_secs(secs: u64) -> (d: Duration)
        ensures
            d@ == secs * 1_000_000_000,
    {
        Duration { nanos: (secs as u128) * NANOS_PER_SEC }
    }

    /// A span of `millis` milliseconds.
    pub fn from_millis(millis: u64) -> (d: Duration)
        ensures
            d@ == millis * 1_000_000,
    {
        Duration { nanos: (millis as u128) * 1_000_000 }
    }

    /// A span of `micros` microseconds.
    pub fn from_micros(micros: u64) -> (d: Duration)
        ensures
            d@ == micros * 1_000,
    {
        Duration { nanos: (micros as u128) * 1_000 }
    }

    /// A span of `nanos` nanoseconds.
    pub fn from_nanos(nanos: u64) -> (d: Duration)
        ensures
            d@ == nanos,
    {
        Duration { nanos: nanos as u128 }
    }

    /// A span of `secs` seconds and `nanos` nanoseconds; the nanoseconds
    /// carry into the seconds.
    ///
    /// Returns `None` where the seconds overflow `u64` after the carry.
    pub fn checked_new(secs: u64, nanos: u32) -> (d: Option<Duration>)
        ensures
            d matches Some(v) ==> v@ == secs * 1_000_000_000 + nanos,
            d is None <==> secs * 1_000_000_000 + nanos > MAX_NANOS,
    {
        let total: u128 = (secs as u128) * NANOS_PER_SEC + (nanos as u128);
        if total <= MAX_NANOS {
            Some(Duration { nanos: total })
        } else {
            None
        }
    }

    /// The whole span in nanoseconds.
    pub fn as_nanos(&self) -> (n: u128)
        ensures
            n == self@,
            n <= MAX_NANOS,
    {
        proof {
            use_type_invariant(self);
        }
        self.nanos
    }

    /// The whole seconds of the span.
    pub fn as_secs(&self) -> (s: u64)
        ensures
            s == self@ / 1_000_000_000,
    {
        proof {
            use_type_invariant(self);
        }
        (self.nanos / NANOS_PER_SEC) as u64
    }

    /// The nanoseconds that are left over after the whole seconds.
    pub fn subsec_nanos(&self) -> (n: u32)
        ensures
            n == self@ % 1_000_000_000,
    {
        (self.nanos % NANOS_PER_SEC) as u32
    }

    /// The whole milliseconds of the span.
    pub fn as_millis(&self) -> (m: u128)
        ensures
            m == self@ / 1_000_000,
    {
        self.nanos / 1_000_000
    }

    /// True if the span is empty.
    pub fn is_zero(&self) -> (b: bool)
        ensures
            b <==> self@ == 0,
    {
        self.nanos == 0
    }

    /// `self <= other`.
    pub fn le(&self, other: &Duration) -> (b: bool)
        ensures
            b <==> self@ <= other@,
    {
        self.nanos <= other.nanos
    }

    /// `self < other`.
    pub fn lt(&self, other: &Duration) -> (b: bool)
        ensures
            b <==> self@ < other@,
    {
        self.nanos < other.nanos
    }

    /// The sum of two spans, or `None` where it exceeds `MAX_NANOS`.
    pub fn checked_add(&self, other: &Duration) -> (d: Option<Duration>)
        ensures
            d matches Some(v) ==> v@ == self@ + other@,
            d is None <==> self@ + other@ > MAX_NANOS,
    {
        proof {
            use_type_invariant(self);
            use_type_invariant(other);
        }
        let sum: u128 = self.nanos + other.nanos;
        if sum <= MAX_NANOS {
            Some(Duration { nanos: sum })
        } else {
            None
        }
    }

    /// The difference of two spans, or `None` where `other` is longer.
    pub fn checked_sub(&self, other: &Duration) -> (d: Option<Duration>)
        ensures
            d matches Some(v) ==> v@ == self@ - other@,
            d is None <==> self@ < other@,
    {
        proof {
            use_type_invariant(self);
        }
        if other.nanos <= self.nanos {
            Some(Duration { nanos: self.nanos - other.nanos })
        } else {
            None
        }
    }

    /// The sum of two spans whose sum fits.
    pub fn add(&self, other: &Duration) -> (d: Duration)
        requires
            self@ + other@ <= MAX_NANOS,
        ensures
            d@ == self@ + other@,
    {
        Duration { nanos: self.nanos + other.nanos }
    }
}

} // verus!
