//! Exact rational coordinates.
//!
//! The layout engine divides micrometre lengths by tick counts and by note
//! counts. Instead of rounding, every derived coordinate keeps its exact
//! value as a numerator over a positive denominator. Rendering divides the
//! two at the very edge of the program.

use vstd::prelude::*;

verus! {

/// An exact rational value `num / den`, with `den >= 1`.
///
/// Coordinates are in micrometres, so `Frac { num: 5000, den: 10 }` is
/// 500 micrometres.
#[derive(Clone, Copy, Debug, PartialEq, Eq, Structural)]
pub struct Frac {
    /// The numerator.
    pub num: i128,
    /// The denominator; always at least 1.
    pub den: u64,
}

impl Frac {
    /// A denominator of zero never names a value.
    pub open spec fn wf(self) -> bool {
        self.den >= 1
    }

    /// The fraction holds exactly the numerator `n` over the denominator `d`.
    pub open spec fn is_ratio(self, n: int, d: int) -> bool {
        self.num == n && self.den == d
    }

    /// Builds the fraction `num / den`.
    pub fn new(num: i128, den: u64) -> (r: Frac)
        requires
            den >= 1,
        ensures
            r == (Frac { num, den }),
            r.wf(),
    {
        Frac { num, den }
    }

    /// The whole value `n`, as the fraction `n / 1`.
    pub fn whole(n: i128) -> (r: Frac)
        ensures
            r == (Frac { num: n, den: 1u64 }),
            r.wf(),
    {
        Frac { num: n, den: 1 }
    }
}

} // verus!
