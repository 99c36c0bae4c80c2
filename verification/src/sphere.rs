//! Which root of the sphere equation is the hit.
//!
//! Along a ray with origin `O` and unit direction `D`, a sphere with centre `C`
//! and radius `R` is met at the distances `t` with `t^2 + b t + c = 0`, where
//! `b = 2 D.(O - C)` and `c = (O - C).(O - C) - R^2`. The caller works out the
//! discriminant `b^2 - 4c` and the roots; the choice among them is made here.

use crate::scalar::Scalar;
use vstd::prelude::*;

verus! {

/// The sphere equation along one ray, as the arithmetic solved it.
#[derive(Clone, Copy, Debug)]
pub struct Roots {
    /// `b^2 - 4c`.
    pub discriminant: Scalar,
    /// `-b / 2`: the one root where the discriminant is zero.
    pub tangent: Scalar,
    /// `(sqrt(discriminant) - b) / 2`.
    pub first: Scalar,
    /// `(sqrt(discriminant) + b) / -2`.
    pub second: Scalar,
}

/// The smaller of the two distances that are zero or more, if there is one.
/// A distance that is negative, or not a number, is no candidate.
pub open spec fn nearer(a: Scalar, b: Scalar) -> Option<Scalar> {
    if a.non_negative() && b.non_negative() {
        if b.below(a) {
            Some(b)
        } else {
            Some(a)
        }
    } else if a.non_negative() {
        Some(a)
    } else if b.non_negative() {
        Some(b)
    } else {
        None
    }
}

/// The distance at which the ray meets the sphere, if it does.
pub open spec fn hit_of(r: Roots) -> Option<Scalar> {
    if r.discriminant.zero() {
        if r.tangent.non_negative() {
            Some(r.tangent)
        } else {
            None
        }
    } else if r.discriminant.positive() {
        nearer(r.first, r.second)
    } else {
        None
    }
}

/// Chooses the hit among the roots: none where the discriminant is negative
/// or not a number; the tangent point where it is zero, unless that lies
/// behind the origin; else the nearer of the two roots that do not lie behind
/// the origin.
pub fn find_intersection(roots: &Roots) -> (t: Option<Scalar>)
    ensures
        t == hit_of(*roots),
{
    if roots.discriminant.is_zero() {
        if roots.tangent.is_non_negative() {
            Some(roots.tangent)
        } else {
            None
        }
    } else if roots.discriminant.is_positive() {
        let a: Scalar = roots.first;
        let b: Scalar = roots.second;
        let a_ok: bool = a.is_non_negative();
        let b_ok: bool = b.is_non_negative();
        if a_ok && b_ok {
            if b.lt(a) {
                Some(b)
            } else {
                Some(a)
            }
        } else if a_ok {
            Some(a)
        } else if b_ok {
            Some(b)
        } else {
            None
        }
    } else {
        None
    }
}

/// A hit is one of the roots, lies at a distance of zero or more, and no root
/// at a distance of zero or more lies nearer. There is no hit exactly when the
/// equation has no root at such a distance.
pub proof fn lemma_hit_is_nearest_root(r: Roots)
    ensures
        match hit_of(r) {
            Some(t) => {
                &&& t.non_negative()
                &&& !r.discriminant.nan() && r.discriminant.rank() >= 0
                &&& r.discriminant.zero() ==> t == r.tangent
                &&& r.discriminant.positive() ==> (t == r.first || t == r.second)
                &&& r.discriminant.positive() && r.first.non_negative() ==> t.at_most(r.first)
                &&& r.discriminant.positive() && r.second.non_negative() ==> t.at_most(r.second)
            },
            None => {
                &&& r.discriminant.zero() ==> !r.tangent.non_negative()
                &&& r.discriminant.positive() ==> !r.first.non_negative() && !r.second.non_negative()
            },
        },
{
}

/// Where every root lies behind the origin of the ray, the ray does not meet
/// the sphere.
pub proof fn lemma_roots_behind_miss(r: Roots)
    requires
        r.tangent.below(Scalar(0)),
        r.first.below(Scalar(0)),
        r.second.below(Scalar(0)),
    ensures
        hit_of(r) is None,
{
}

} // verus!
