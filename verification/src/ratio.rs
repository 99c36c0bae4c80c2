//! Exact fractions of whole numbers.

use vstd::prelude::*;

verus! {

/// The fraction `num / den`. It is well formed when `den` is positive.
#[derive(Clone, Copy, Debug)]
pub struct Ratio {
    pub num: i64,
    pub den: i64,
}

impl Ratio {
    /// The denominator is positive.
    pub open spec fn wf(self) -> bool {
        self.den > 0
    }
}

} // verus!
