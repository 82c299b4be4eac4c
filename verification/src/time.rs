//! Clock readings and spans of time, both counted in whole nanoseconds.

use vstd::prelude::*;

verus! {

/// Nanoseconds in one second.
pub const NANOS_PER_SEC: u64 = 1_000_000_000;

/// The largest number of whole seconds that fits in a `u64` of nanoseconds.
pub const MAX_SECS: u64 = 18_446_744_073;

/// Difference of two naturals, zero where the second exceeds the first.
pub open spec fn sat_sub(a: nat, b: nat) -> nat {
    if a >= b {
        (a - b) as nat
    } else {
        0
    }
}

/// A reading of a monotonic clock: nanoseconds since the clock's origin.
#[derive(Clone, Copy, Debug, PartialEq, Eq)]
pub struct Instant {
    nanos: u64,
}

impl View for Instant {
    type V = nat;

    closed spec fn view(&self) -> nat {
        self.nanos as nat
    }
}

/// The model of a reading that may be absent.
pub open spec fn instant_view(reading: Option<Instant>) -> Option<nat> {
    match reading {
        Some(i) => Some(i@),
        None => None,
    }
}

impl Instant {
    /// A reading fits in sixty-four bits.
    pub proof fn lemma_fits(self)
        ensures
            self@ <= u64::MAX,
    {
    }

    /// The reading `nanos` nanoseconds after the origin.
    pub fn from_nanos(nanos: u64) -> (r: Instant)
        ensures
            r@ == nanos,
    {
        Instant { nanos }
    }

    /// The reading `secs` whole seconds after the origin.
    pub fn from_secs(secs: u64) -> (r: Instant)
        requires
            secs <= MAX_SECS,
        ensures
            r@ == secs * NANOS_PER_SEC,
    {
        Instant { nanos: secs * NANOS_PER_SEC }
    }

    /// Nanoseconds since the origin.
    pub fn as_nanos(&self) -> (n: u64)
        ensures
            n == self@,
    {
        self.nanos
    }

    /// Whether this reading is not later than `other`.
    pub fn le(&self, other: &Instant) -> (b: bool)
        ensures
            b == (self@ <= other@),
    {
        self.nanos <= other.nanos
    }

    /// Time passed from `earlier` to this reading; zero if `earlier` is in fact later.
    pub fn saturating_duration_since(&self, earlier: Instant) -> (d: Duration)
        ensures
            d@ == sat_sub(self@, earlier@),
    {
        if self.nanos >= earlier.nanos {
            Duration::from_nanos(self.nanos - earlier.nanos)
        } else {
            Duration::from_nanos(0)
        }
    }
}

/// A span of time in nanoseconds.
#[derive(Clone, Copy, Debug, PartialEq, Eq)]
pub struct Duration {
    nanos: u64,
}

impl View for Duration {
    type V = nat;

    closed spec fn view(&self) -> nat {
        self.nanos as nat
    }
}

impl Duration {
    /// A span of `nanos` nanoseconds.
    pub fn from_nanos(nanos: u64) -> (r: Duration)
        ensures
            r@ == nanos,
    {
        Duration { nanos }
    }

    /// A span of `secs` whole seconds.
    pub fn from_secs(secs: u64) -> (r: Duration)
        requires
            secs <= MAX_SECS,
        ensures
            r@ == secs * NANOS_PER_SEC,
    {
        Duration { nanos: secs * NANOS_PER_SEC }
    }

    /// The span in nanoseconds.
    pub fn as_nanos(&self) -> (n: u64)
        ensures
            n == self@,
    {
        self.nanos
    }

    /// The whole seconds in the span, any fraction dropped.
    pub fn as_secs(&self) -> (s: u64)
        ensures
            s == self@ / (NANOS_PER_SEC as nat),
    {
        self.nanos / NANOS_PER_SEC
    }

    /// Whether this span is at least as long as `other`.
    pub fn ge(&self, other: &Duration) -> (b: bool)
        ensures
            b == (self@ >= other@),
    {
        self.nanos >= other.nanos
    }

    /// This span shortened by `other`; zero if `other` is longer.
    pub fn saturating_sub(&self, other: Duration) -> (d: Duration)
        ensures
            d@ == sat_sub(self@, other@),
    {
        if self.nanos >= other.nanos {
            Duration { nanos: self.nanos - other.nanos }
        } else {
            Duration { nanos: 0 }
        }
    }
}

} // verus!
