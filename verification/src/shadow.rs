//! How much of a light reaches a point.

use crate::light::{sampling_of, Sampling};
use crate::scalar::Scalar;
use vstd::prelude::*;

verus! {

/// One shadow ray, cast from the shaded point towards a sample on a light.
#[derive(Clone, Copy, Debug)]
pub struct ShadowSample {
    /// The distance of the nearest surface along the ray, if it meets one.
    pub hit: Option<Scalar>,
    /// The distance of the sample itself.
    pub reach: Scalar,
}

impl ShadowSample {
    /// The ray meets a surface strictly before it reaches the sample.
    pub open spec fn blocked(self) -> bool {
        match self.hit {
            Some(d) => d.below(self.reach),
            None => false,
        }
    }

    /// Whether a surface lies strictly between the point and the sample.
    pub fn is_blocked(&self) -> (r: bool)
        ensures
            r == self.blocked(),
    {
        match self.hit {
            Some(d) => d.lt(self.reach),
            None => false,
        }
    }
}

/// The samples of a series that are blocked.
pub open spec fn blocked_samples(samples: Seq<ShadowSample>) -> Seq<ShadowSample> {
    samples.filter(|s: ShadowSample| s.blocked())
}

/// The outcome of a shadow test: how many of the samples are blocked. The
/// fraction of the light that arrives is `1 - blocked / total`.
#[derive(Clone, Copy, Debug)]
pub struct Coverage {
    pub blocked: usize,
    pub total: usize,
}

impl Coverage {
    /// No more samples are blocked than were taken.
    pub open spec fn wf(self) -> bool {
        self.blocked <= self.total
    }

    /// Nothing of the light arrives.
    pub open spec fn dark(self) -> bool {
        self.blocked == self.total
    }

    /// All of the light arrives.
    pub open spec fn lit(self) -> bool {
        self.blocked == 0
    }

    /// Whether every sample is blocked, so that the light adds nothing.
    pub fn fully_blocked(&self) -> (r: bool)
        ensures
            r == self.dark(),
    {
        self.blocked == self.total
    }

    /// The number of samples that see the light: the numerator of the
    /// fraction that arrives, over `total`.
    pub fn unblocked(&self) -> (n: usize)
        requires
            self.wf(),
        ensures
            n == self.total - self.blocked,
    {
        self.total - self.blocked
    }
}

/// Counts the blocked samples of a shadow test.
pub fn shadow_test(samples: &[ShadowSample]) -> (c: Coverage)
    ensures
        c.wf(),
        c.total == samples@.len(),
        c.blocked == blocked_samples(samples@).len(),
{
    let mut blocked: usize = 0;
    let mut i: usize = 0;
    while i < samples.len()
        invariant
            i <= samples@.len(),
            blocked <= i,
            blocked == blocked_samples(samples@.take(i as int)).len(),
        decreases samples@.len() - i,
    {
        proof {
            let next = samples@.take(i + 1);
            assert(next.drop_last() =~= samples@.take(i as int));
            assert(next.last() == samples@[i as int]);
            reveal(Seq::filter);
        }
        if samples[i].is_blocked() {
            blocked = blocked + 1;
        }
        i = i + 1;
    }
    assert(samples@.take(i as int) =~= samples@);
    Coverage { blocked, total: samples.len() }
}

/// A light without a radius is seen or not seen: its shadow test has one
/// sample, so its outcome is that all of the light arrives or none of it,
/// never a part.
pub proof fn lemma_point_light_is_binary(
    radius: Scalar,
    count: u32,
    samples: Seq<ShadowSample>,
    outcome: Coverage,
)
    requires
        radius.zero(),
        samples.len() == sampling_of(radius, count).count(),
        outcome.total == samples.len(),
        outcome.blocked == blocked_samples(samples).len(),
    ensures
        sampling_of(radius, count) == Sampling::Point,
        outcome.total == 1,
        outcome.lit() || outcome.dark(),
{
    samples.lemma_filter_len(|s: ShadowSample| s.blocked());
}

} // verus!
