//! A span of time with nanosecond resolution, as the retry logic measures it.

use vstd::prelude::*;

verus! {

/// The longest span a [`Delay`] can hold, in nanoseconds: `u64::MAX` whole
/// seconds and one nanosecond short of a further second.
pub const MAX_DELAY_NANOS: u128 = 18_446_744_073_709_551_615_999_999_999;

/// Nanoseconds in a second.
pub const NANOS_PER_SEC: u128 = 1_000_000_000;

/// Nanoseconds in a millisecond.
pub const NANOS_PER_MILLI: u128 = 1_000_000;

/// A non-negative span of time of at most [`MAX_DELAY_NANOS`] nanoseconds.
///
/// Its view is the number of nanoseconds it lasts.
#[derive(Clone, Copy, Debug, PartialEq, Eq)]
pub struct Delay {
    nanos: u128,
}

impl View for Delay {
    type V = nat;

    closed spec fn view(&self) -> nat {
        self.nanos as nat
    }
}

impl Delay {
    #[verifier::type_invariant]
    spec fn bounded(self) -> bool {
        self.nanos <= MAX_DELAY_NANOS
    }

    /// The empty span.
    pub fn zero() -> (d: Delay)
        ensures
            d@ == 0,
    {
        Delay { nanos: 0 }
    }

    /// A span of `secs` whole seconds.
    pub fn from_secs(secs: u64) -> (d: Delay)
        ensures
            d@ == secs as nat * NANOS_PER_SEC as nat,
    {
        let wide: u128 = secs as u128;
        Delay { nanos: wide * NANOS_PER_SEC }
    }

    /// A span of `millis` milliseconds.
    pub fn from_millis(millis: u64) -> (d: Delay)
        ensures
            d@ == millis as nat * NANOS_PER_MILLI as nat,
    {
        let wide: u128 = millis as u128;
        Delay { nanos: wide * NANOS_PER_MILLI }
    }

    /// A span of `nanos` nanoseconds, cut down to the longest span where it
    /// would exceed it.
    pub fn from_nanos(nanos: u128) -> (d: Delay)
        ensures
            d@ == if nanos <= MAX_DELAY_NANOS { nanos as nat } else { MAX_DELAY_NANOS as nat },
    {
        if nanos <= MAX_DELAY_NANOS {
            Delay { nanos }
        } else {
            Delay { nanos: MAX_DELAY_NANOS }
        }
    }

    /// The whole span in nanoseconds.
    pub fn as_nanos(&self) -> (n: u128)
        ensures
            n as nat == self@,
            n <= MAX_DELAY_NANOS,
    {
        proof {
            use_type_invariant(self);
        }
        self.nanos
    }

    /// The whole span in milliseconds, rounded down.
    pub fn as_millis(&self) -> (n: u128)
        ensures
            n as nat == self@ / (NANOS_PER_MILLI as nat),
    {
        self.nanos / NANOS_PER_MILLI
    }

    /// The number of whole seconds in the span.
    pub fn as_secs(&self) -> (n: u64)
        ensures
            n as nat == self@ / (NANOS_PER_SEC as nat),
    {
        proof {
            use_type_invariant(self);
        }
        let secs: u128 = self.nanos / NANOS_PER_SEC;
        secs as u64
    }

    /// What is left of the span, in nanoseconds, once its whole seconds are
    /// taken away.
    pub fn subsec_nanos(&self) -> (n: u32)
        ensures
            n as nat == self@ % (NANOS_PER_SEC as nat),
    {
        let rest: u128 = self.nanos % NANOS_PER_SEC;
        rest as u32
    }

    /// The span `factor` times over, cut down to the longest span where the
    /// product would exceed it.
    pub fn saturating_mul(&self, factor: u32) -> (d: Delay)
        ensures
            d@ == if self@ * factor as nat <= MAX_DELAY_NANOS {
                self@ * factor as nat
            } else {
                MAX_DELAY_NANOS as nat
            },
    {
        proof {
            use_type_invariant(self);
            assert(self.nanos * factor <= MAX_DELAY_NANOS * 0x1_0000_0000) by (nonlinear_arith)
                requires
                    self.nanos <= MAX_DELAY_NANOS,
                    factor < 0x1_0000_0000,
            ;
        }
        let wide: u128 = factor as u128;
        let product: u128 = self.nanos * wide;
        if product <= MAX_DELAY_NANOS {
            Delay { nanos: product }
        } else {
            Delay { nanos: MAX_DELAY_NANOS }
        }
    }

    /// Whether this span lasts longer than `other`.
    pub fn longer_than(&self, other: &Delay) -> (b: bool)
        ensures
            b == (self@ > other@),
    {
        self.nanos > other.nanos
    }

    /// Whether the span is empty.
    pub fn is_zero(&self) -> (b: bool)
        ensures
            b == (self@ == 0),
    {
        self.nanos == 0
    }
}

} // verus!
