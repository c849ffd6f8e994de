//! Exact fractions.

use vstd::prelude::*;

verus! {

/// A non-negative fraction `num / den`, kept as the two integers it was
/// computed from (it is not reduced).
#[derive(Clone, Copy, Debug, PartialEq, Eq, Structural)]
pub struct Ratio {
    pub num: u128,
    pub den: u128,
}

impl Ratio {
    /// A fraction has a denominator other than zero.
    pub open spec fn wf(self) -> bool {
        self.den > 0
    }
}

} // verus!
