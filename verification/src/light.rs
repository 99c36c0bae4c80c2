//! Where on a light the shadow rays aim.
//!
//! A light with a radius is a disk, sampled along a spiral that starts at its
//! centre; a light without one is a single point. The pattern is fixed: the
//! same light and the same count give the same samples.

use crate::ratio::Ratio;
use crate::scalar::Scalar;
use vstd::prelude::*;

verus! {

/// How often the spiral winds round the centre of the light.
pub const REVOLUTIONS: u32 = 2;

/// How a light is sampled.
#[derive(Clone, Copy, Debug, PartialEq, Eq)]
pub enum Sampling {
    /// One sample, at the light's own position.
    Point,
    /// This many samples along the spiral over the light's disk.
    Spiral { samples: u32 },
}

impl Sampling {
    /// The number of samples taken.
    pub open spec fn count(self) -> nat {
        match self {
            Sampling::Point => 1,
            Sampling::Spiral { samples } => samples as nat,
        }
    }

    /// The number of samples taken.
    pub fn len(&self) -> (n: u32)
        ensures
            n == self.count(),
    {
        match self {
            Sampling::Point => 1,
            Sampling::Spiral { samples } => *samples,
        }
    }
}

/// The sampling of a light of this radius when `count` samples are asked for.
pub open spec fn sampling_of(radius: Scalar, count: u32) -> Sampling {
    if radius.positive() {
        Sampling::Spiral { samples: count }
    } else {
        Sampling::Point
    }
}

/// Chooses how a light of this radius is sampled: a light whose radius is
/// greater than zero along the spiral, with `count` samples, any other as a
/// point.
pub fn sampling(radius: Scalar, count: u32) -> (s: Sampling)
    requires
        count >= 1,
    ensures
        s == sampling_of(radius, count),
        s.count() >= 1,
{
    if radius.is_positive() {
        Sampling::Spiral { samples: count }
    } else {
        Sampling::Point
    }
}

/// Where a sample lies on the spiral.
#[derive(Clone, Copy, Debug)]
pub struct SpiralSample {
    /// Its distance from the centre, as a fraction of the light's radius.
    pub scaler: Ratio,
    /// Its angle, in full turns.
    pub turns: Ratio,
}

/// Sample `index` of `count`: at `index / count` of the radius, after
/// `REVOLUTIONS * index / count` turns. The first lies at the centre, and
/// every one within the disk.
pub fn spiral_sample(index: u32, count: u32) -> (s: SpiralSample)
    requires
        index < count,
    ensures
        s.scaler.wf(),
        s.turns.wf(),
        s.scaler.num == index,
        s.scaler.den == count,
        s.turns.num == REVOLUTIONS * index,
        s.turns.den == count,
        0 <= s.scaler.num < s.scaler.den,
{
    let i: i64 = index as i64;
    let n: i64 = count as i64;
    SpiralSample { scaler: Ratio { num: i, den: n }, turns: Ratio { num: 2 * i, den: n } }
}

} // verus!
