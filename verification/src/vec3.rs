//! Positions, directions and rays: the values that the renderer's decisions
//! carry from the arithmetic that made them to the arithmetic that uses them.

use crate::scalar::Scalar;
use vstd::prelude::*;

verus! {

/// Three coordinates.
#[derive(Clone, Copy, Debug)]
pub struct Vec3(pub Scalar, pub Scalar, pub Scalar);

/// A position in space.
#[derive(Clone, Copy, Debug)]
pub struct Point(pub Vec3);

/// A displacement in space. Where it serves as a surface normal or as the
/// direction of a ray it has unit length.
#[derive(Clone, Copy, Debug)]
pub struct Direction(pub Vec3);

/// A half-line: where it starts and where it heads.
#[derive(Clone, Copy, Debug)]
pub struct Ray(pub Point, pub Direction);

impl Vec3 {
    /// All three coordinates are zero.
    pub open spec fn zero(self) -> bool {
        self.0.zero() && self.1.zero() && self.2.zero()
    }
}

impl Point {
    /// The point whose three coordinates are positive zero.
    pub fn origin() -> (p: Point)
        ensures
            p == Point(Vec3(Scalar(0), Scalar(0), Scalar(0))),
            p.0.zero(),
    {
        Point(Vec3(Scalar(0), Scalar(0), Scalar(0)))
    }
}

impl Direction {
    /// The displacement that leads nowhere: three positive zeros.
    pub fn none() -> (d: Direction)
        ensures
            d == Direction(Vec3(Scalar(0), Scalar(0), Scalar(0))),
            d.0.zero(),
    {
        Direction(Vec3(Scalar(0), Scalar(0), Scalar(0)))
    }
}

} // verus!
