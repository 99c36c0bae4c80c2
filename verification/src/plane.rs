//! Whether a ray meets a plane.
//!
//! A ray with origin `L0` and direction `L` meets the plane through `Q` with
//! unit normal `N` at the distance `t = (Q - L0).N / (L.N)`. The caller works
//! out `L.N` and `t`; whether that is a hit is decided here.

use crate::scalar::Scalar;
use vstd::prelude::*;

verus! {

/// The ray runs along the plane: its direction has nothing of the normal.
pub open spec fn parallel(l_dot_n: Scalar) -> bool {
    l_dot_n.zero()
}

/// The distance at which the ray meets the plane, if it does.
pub open spec fn hit_of(l_dot_n: Scalar, distance: Scalar) -> Option<Scalar> {
    if l_dot_n.nan() || parallel(l_dot_n) {
        None
    } else if distance.positive() {
        Some(distance)
    } else {
        None
    }
}

/// Accepts the distance as a hit unless the ray is parallel to the plane or
/// the distance is not greater than zero.
pub fn find_intersection(l_dot_n: Scalar, distance: Scalar) -> (t: Option<Scalar>)
    ensures
        t == hit_of(l_dot_n, distance),
        parallel(l_dot_n) ==> t is None,
        t matches Some(d) ==> d == distance && d.positive(),
{
    if l_dot_n.is_nan() || l_dot_n.is_zero() {
        None
    } else if distance.is_positive() {
        Some(distance)
    } else {
        None
    }
}

} // verus!
