//! Spans of time, as the restart policy and the stop sequence measure them.

use vstd::prelude::*;

verus! {

/// Nanoseconds in one second.
pub const NANOS_PER_SEC: u128 = 1_000_000_000;

/// Nanoseconds in one millisecond.
pub const NANOS_PER_MILLI: u128 = 1_000_000;

/// The longest span that can be written down, in nanoseconds: `u64::MAX` seconds and
/// 999,999,999 nanoseconds.
pub const MAX_NANOS: u128 = 18_446_744_073_709_551_615_999_999_999;

/// A span of time with nanosecond resolution. Its view is its length in nanoseconds.
#[derive(Clone, Copy, Debug, PartialEq, Eq, Structural)]
pub struct Duration {
    nanos: u128,
}

impl View for Duration {
    type V = nat;

    closed spec fn view(&self) -> nat {
        self.nanos as nat
    }
}

/// Spans are told by their length: two of the same length are the same span.
pub proof fn law_spans_are_told_by_their_length(a: Duration, b: Duration)
    ensures
        a@ == b@ <==> a == b,
{
}

impl Duration {
    #[verifier::type_invariant]
    spec fn in_range(self) -> bool {
        self.nanos <= MAX_NANOS
    }

    /// The empty span.
    pub fn zero() -> (span: Self)
        ensures
            span@ == 0,
    {
        Duration { nanos: 0 }
    }

    /// A span of whole seconds.
    pub fn from_secs(secs: u64) -> (span: Self)
        ensures
            span@ == secs * NANOS_PER_SEC,
    {
        Duration { nanos: secs as u128 * NANOS_PER_SEC }
    }

    /// A span of whole milliseconds.
    pub fn from_millis(millis: u64) -> (span: Self)
        ensures
            span@ == millis * NANOS_PER_MILLI,
    {
        Duration { nanos: millis as u128 * NANOS_PER_MILLI }
    }

    /// A span of `secs` seconds and a remainder of `nanos` nanoseconds.
    pub fn from_parts(secs: u64, nanos: u32) -> (span: Self)
        requires
            nanos < NANOS_PER_SEC,
        ensures
            span@ == secs * NANOS_PER_SEC + nanos,
    {
        Duration { nanos: secs as u128 * NANOS_PER_SEC + nanos as u128 }
    }

    /// The whole seconds of the span.
    pub fn as_secs(&self) -> (secs: u64)
        ensures
            secs as nat == self@ / (NANOS_PER_SEC as nat),
    {
        proof {
            use_type_invariant(self);
        }
        (self.nanos / NANOS_PER_SEC) as u64
    }

    /// The nanoseconds of the span past its last whole second.
    pub fn subsec_nanos(&self) -> (nanos: u32)
        ensures
            nanos as nat == self@ % (NANOS_PER_SEC as nat),
            nanos < NANOS_PER_SEC,
    {
        (self.nanos % NANOS_PER_SEC) as u32
    }

    /// Whether this span is strictly shorter than `other`.
    pub fn shorter_than(&self, other: &Self) -> (shorter: bool)
        ensures
            shorter == (self@ < other@),
    {
        self.nanos < other.nanos
    }

    /// The shorter of two spans.
    pub fn min(self, other: Self) -> (least: Self)
        ensures
            least == (if self@ <= other@ { self } else { other }),
    {
        if self.nanos <= other.nanos {
            self
        } else {
            other
        }
    }

    /// The span `factor` times over, or `None` when that is longer than any span.
    pub fn checked_mul(self, factor: u32) -> (product: Option<Self>)
        ensures
            match product {
                Some(span) => span@ == self@ * factor,
                None => self@ * factor > MAX_NANOS,
            },
    {
        proof {
            use_type_invariant(&self);
        }
        let factor: u128 = factor as u128;
        assert(self.nanos * factor <= MAX_NANOS * 0xffff_ffff) by (nonlinear_arith)
            requires
                self.nanos <= MAX_NANOS,
                factor <= 0xffff_ffff,
        ;
        let nanos: u128 = self.nanos * factor;
        if nanos <= MAX_NANOS {
            Some(Duration { nanos })
        } else {
            None
        }
    }

    /// The span `factor` times over, or `cap` when that is shorter.
    pub fn grown(self, factor: u32, cap: Self) -> (span: Self)
        ensures
            span@ == (if self@ * factor <= cap@ {
                self@ * factor as nat
            } else {
                cap@
            }),
    {
        proof {
            use_type_invariant(&cap);
        }
        match self.checked_mul(factor) {
            Some(product) => product.min(cap),
            None => cap,
        }
    }

    /// What is left of this span once `other` has passed, or `None` when `other` is the longer.
    pub fn checked_sub(self, other: Self) -> (rest: Option<Self>)
        ensures
            match rest {
                Some(span) => span@ == self@ - other@,
                None => self@ < other@,
            },
    {
        proof {
            use_type_invariant(&self);
        }
        if self.nanos >= other.nanos {
            Some(Duration { nanos: self.nanos - other.nanos })
        } else {
            None
        }
    }
}

} // verus!
