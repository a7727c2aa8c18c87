use vstd::prelude::*;
use crate::vector::{Rgb, MAX_VALUE, ONE};

verus! {

/// One camera sample: the radiance the scene returned along the sampled ray,
/// the camera's geometric term for it, and the ray's sampling density
/// (all in fixed point).
#[derive(Clone, Copy, Debug, PartialEq, Eq, Structural)]
pub struct Sample {
    pub radiance: Rgb,
    pub g_term: u64,
    pub pdf: u64,
}

/// One channel's contribution: `(l * g_term) * (sensitivity / pdf)`.
pub open spec fn channel_contribution(l: u64, g_term: u64, pdf: u64, sensitivity: u64) -> int {
    (l * g_term * sensitivity) / (pdf * ONE)
}

/// The sample's estimate of the sensor irradiance.
pub open spec fn contribution(s: Sample, sensitivity: u64) -> Rgb {
    Rgb {
        r: channel_contribution(s.radiance.r, s.g_term, s.pdf, sensitivity) as u64,
        g: channel_contribution(s.radiance.g, s.g_term, s.pdf, sensitivity) as u64,
        b: channel_contribution(s.radiance.b, s.g_term, s.pdf, sensitivity) as u64,
    }
}

/// A sample the arithmetic admits: positive density, bounded factors, and a
/// contribution whose channels stay within `MAX_VALUE`.
pub open spec fn admissible(s: Sample, sensitivity: u64) -> bool {
    &&& s.pdf >= 1
    &&& s.radiance.bounded()
    &&& s.g_term <= MAX_VALUE
    &&& sensitivity <= MAX_VALUE
    &&& channel_contribution(s.radiance.r, s.g_term, s.pdf, sensitivity) <= MAX_VALUE
    &&& channel_contribution(s.radiance.g, s.g_term, s.pdf, sensitivity) <= MAX_VALUE
    &&& channel_contribution(s.radiance.b, s.g_term, s.pdf, sensitivity) <= MAX_VALUE
}

pub open spec fn channel(c: Rgb, k: int) -> int {
    if k == 0 { c.r as int } else if k == 1 { c.g as int } else { c.b as int }
}

/// Sum of channel `k` over the contributions of `samples`.
pub open spec fn contribution_sum(samples: Seq<Sample>, sensitivity: u64, k: int) -> int
    decreases samples.len(),
{
    if samples.len() == 0 {
        0
    } else {
        contribution_sum(samples.drop_last(), sensitivity, k)
            + channel(contribution(samples.last(), sensitivity), k)
    }
}

/// The estimate: the mean of the samples' contributions, channel by channel.
pub open spec fn mean_contribution(samples: Seq<Sample>, sensitivity: u64) -> Rgb {
    Rgb {
        r: (contribution_sum(samples, sensitivity, 0) / samples.len() as int) as u64,
        g: (contribution_sum(samples, sensitivity, 1) / samples.len() as int) as u64,
        b: (contribution_sum(samples, sensitivity, 2) / samples.len() as int) as u64,
    }
}

fn channel_contribution_exec(l: u64, g_term: u64, pdf: u64, sensitivity: u64) -> (r: u128)
    requires
        pdf >= 1,
        l <= MAX_VALUE,
        g_term <= MAX_VALUE,
        sensitivity <= MAX_VALUE,
    ensures
        r == channel_contribution(l, g_term, pdf, sensitivity),
{
    assert(l * g_term <= MAX_VALUE * MAX_VALUE) by (nonlinear_arith)
        requires l <= MAX_VALUE, g_term <= MAX_VALUE;
    assert(l * g_term * sensitivity <= MAX_VALUE * MAX_VALUE * MAX_VALUE) by (nonlinear_arith)
        requires l * g_term <= MAX_VALUE * MAX_VALUE, sensitivity <= MAX_VALUE;
    assert(pdf * ONE <= u64::MAX * ONE) by (nonlinear_arith)
        requires pdf <= u64::MAX;
    let num: u128 = (l as u128) * (g_term as u128) * (sensitivity as u128);
    let den: u128 = (pdf as u128) * (ONE as u128);
    num / den
}

/// Contribution of one sample: `(L * g_term) * (sensitivity / pdf)`.
pub fn sample_contribution(s: &Sample, sensitivity: u64) -> (r: Rgb)
    requires
        admissible(*s, sensitivity),
    ensures
        r == contribution(*s, sensitivity),
        r.bounded(),
{
    let r = channel_contribution_exec(s.radiance.r, s.g_term, s.pdf, sensitivity);
    let g = channel_contribution_exec(s.radiance.g, s.g_term, s.pdf, sensitivity);
    let b = channel_contribution_exec(s.radiance.b, s.g_term, s.pdf, sensitivity);
    Rgb { r: r as u64, g: g as u64, b: b as u64 }
}

/// Running Monte-Carlo estimate of one pixel: accumulates the contributions
/// of the samples handed to it and yields their mean.
pub struct Accumulator {
    sensitivity: u64,
    sum_r: u128,
    sum_g: u128,
    sum_b: u128,
    count: u64,
    samples: Ghost<Seq<Sample>>,
}

impl Accumulator {
    /// The samples taken so far, in order.
    pub closed spec fn samples_view(&self) -> Seq<Sample> {
        self.samples@
    }

    pub closed spec fn sensitivity_view(&self) -> u64 {
        self.sensitivity
    }

    pub closed spec fn wf(&self) -> bool {
        &&& self.sensitivity <= MAX_VALUE
        &&& self.count == self.samples@.len()
        &&& forall|i: int| 0 <= i < self.samples@.len() ==> #[trigger] admissible(
            self.samples@[i], self.sensitivity)
        &&& self.sum_r == contribution_sum(self.samples@, self.sensitivity, 0)
        &&& self.sum_g == contribution_sum(self.samples@, self.sensitivity, 1)
        &&& self.sum_b == contribution_sum(self.samples@, self.sensitivity, 2)
        &&& self.sum_r <= self.count * MAX_VALUE
        &&& self.sum_g <= self.count * MAX_VALUE
        &&& self.sum_b <= self.count * MAX_VALUE
    }

    pub fn new(sensitivity: u64) -> (a: Accumulator)
        requires
            sensitivity <= MAX_VALUE,
        ensures
            a.wf(),
            a.samples_view() == Seq::<Sample>::empty(),
            a.sensitivity_view() == sensitivity,
    {
        Accumulator {
            sensitivity,
            sum_r: 0,
            sum_g: 0,
            sum_b: 0,
            count: 0,
            samples: Ghost(Seq::empty()),
        }
    }

    /// The number of samples taken so far.
    pub fn count(&self) -> (n: u64)
        requires
            self.wf(),
        ensures
            n == self.samples_view().len(),
    {
        self.count
    }

    /// Adds one sample's contribution.
    pub fn add(&mut self, s: Sample)
        requires
            old(self).wf(),
            admissible(s, old(self).sensitivity_view()),
            old(self).samples_view().len() < u64::MAX,
        ensures
            final(self).wf(),
            final(self).samples_view() == old(self).samples_view().push(s),
            final(self).sensitivity_view() == old(self).sensitivity_view(),
    {
        let c = sample_contribution(&s, self.sensitivity);
        let ghost before = self.samples@;
        let ghost after = before.push(s);
        assert(after.drop_last() == before);
        assert(self.count * MAX_VALUE <= u64::MAX * MAX_VALUE) by (nonlinear_arith)
            requires self.count <= u64::MAX;
        self.sum_r = self.sum_r + c.r as u128;
        self.sum_g = self.sum_g + c.g as u128;
        self.sum_b = self.sum_b + c.b as u128;
        self.count = self.count + 1;
        self.samples = Ghost(after);
        assert forall|i: int| 0 <= i < after.len() implies #[trigger] admissible(
            after[i], self.sensitivity) by {
            if i < before.len() {
                assert(after[i] == before[i]);
            }
        }
    }

    /// The mean contribution of the samples taken.
    pub fn estimate(&self) -> (r: Rgb)
        requires
            self.wf(),
            self.samples_view().len() >= 1,
        ensures
            r == mean_contribution(self.samples_view(), self.sensitivity_view()),
            r.bounded(),
    {
        let n = self.count as u128;
        assert(self.sum_r / n <= MAX_VALUE) by (nonlinear_arith)
            requires self.sum_r <= n * MAX_VALUE, n >= 1;
        assert(self.sum_g / n <= MAX_VALUE) by (nonlinear_arith)
            requires self.sum_g <= n * MAX_VALUE, n >= 1;
        assert(self.sum_b / n <= MAX_VALUE) by (nonlinear_arith)
            requires self.sum_b <= n * MAX_VALUE, n >= 1;
        Rgb {
            r: (self.sum_r / n) as u64,
            g: (self.sum_g / n) as u64,
            b: (self.sum_b / n) as u64,
        }
    }
}

/// Estimate of a pixel from its samples: the mean of their contributions.
pub fn estimate(samples: &Vec<Sample>, sensitivity: u64) -> (r: Rgb)
    requires
        samples@.len() >= 1,
        sensitivity <= MAX_VALUE,
        forall|i: int| 0 <= i < samples@.len() ==> #[trigger] admissible(samples@[i], sensitivity),
    ensures
        r == mean_contribution(samples@, sensitivity),
        r.bounded(),
{
    let mut acc = Accumulator::new(sensitivity);
    let mut i: usize = 0;
    while i < samples.len()
        invariant
            0 <= i <= samples@.len(),
            acc.wf(),
            acc.sensitivity_view() == sensitivity,
            acc.samples_view() == samples@.subrange(0, i as int),
            forall|j: int| 0 <= j < samples@.len() ==> #[trigger] admissible(samples@[j], sensitivity),
        decreases samples@.len() - i,
    {
        assert(samples@.subrange(0, i as int + 1) == samples@.subrange(0, i as int).push(samples@[i as int]));
        acc.add(samples[i]);
        i = i + 1;
    }
    assert(samples@.subrange(0, samples@.len() as int) == samples@);
    acc.estimate()
}

/// With one sample the estimate is exactly that sample's contribution.
pub proof fn lemma_single_sample_estimate(s: Sample, sensitivity: u64)
    requires
        admissible(s, sensitivity),
    ensures
        mean_contribution(seq![s], sensitivity) == contribution(s, sensitivity),
{
    let one = seq![s];
    assert(one.drop_last() == Seq::<Sample>::empty());
    assert(one.last() == s);
    reveal_with_fuel(contribution_sum, 2);
}

} // verus!
