//! How latency-critical the tasks of a class behave.
//!
//! Fractions are held in millionths.

use vstd::prelude::*;

use crate::ratio::Ratio;

verus! {

/// `r` is the square root of `x`, rounded down.
pub open spec fn is_root(r: int, x: int) -> bool {
    0 <= r && r * r <= x < (r + 1) * (r + 1)
}

/// The square root of `x`, rounded down.
pub open spec fn root(x: int) -> int {
    choose|r: int| is_root(r, x)
}

proof fn lemma_root_is_unique(a: int, b: int, x: int)
    requires
        is_root(a, x),
        is_root(b, x),
    ensures
        a == b,
{
    if a < b {
        assert((a + 1) * (a + 1) <= b * b) by (nonlinear_arith)
            requires
                0 <= a < b,
        ;
    } else if b < a {
        assert((b + 1) * (b + 1) <= a * a) by (nonlinear_arith)
            requires
                0 <= b < a,
        ;
    }
}

proof fn lemma_root_exists(x: int)
    requires
        x >= 0,
    ensures
        is_root(root(x), x),
    decreases x,
{
    if x == 0 {
        assert(is_root(0, 0));
    } else {
        lemma_root_exists(x - 1);
        let r = root(x - 1);
        if (r + 1) * (r + 1) <= x {
            assert((r + 2) * (r + 2) > (r + 1) * (r + 1)) by (nonlinear_arith)
                requires
                    r >= 0,
            ;
            assert(is_root(r + 1, x));
        } else {
            assert(is_root(r, x));
        }
    }
}

/// The square root of `x`, rounded down.
pub fn square_root(x: u128) -> (r: u64)
    requires
        x < 0x1000_0000_0000_0000_0000_0000_0000_0000,
    ensures
        is_root(r as int, x as int),
        r == root(x as int),
{
    let mut lo: u128 = 0;
    let mut hi: u128 = 0x4000_0000_0000_0000;
    while hi - lo > 1
        invariant
            lo < hi <= 0x4000_0000_0000_0000,
            lo * lo <= x < hi * hi,
        decreases hi - lo,
    {
        let mid: u128 = lo + (hi - lo) / 2;
        assert(mid * mid <= 0x4000_0000_0000_0000 * 0x4000_0000_0000_0000) by (nonlinear_arith)
            requires
                0 <= mid <= 0x4000_0000_0000_0000,
        ;
        if mid * mid <= x {
            lo = mid;
        } else {
            hi = mid;
        }
    }
    proof {
        assert(is_root(lo as int, x as int));
        lemma_root_is_unique(lo as int, root(x as int), x as int);
    }
    lo as u64
}

/// How latency-critical a class behaves.
#[derive(Clone, Copy, Debug, PartialEq, Eq, Structural)]
pub struct LatencyCriticalityScore {
    /// Smoothed score, up to 1024.
    pub score: u32,
    /// Smoothed score in millionths.
    pub ewma_score: u64,
    /// Number of wakeups.
    pub wakeup_freq: u32,
    /// Coefficient of variation of the run time, at most one, in millionths.
    pub runtime_cv: u64,
}

/// A score before any sample.
pub open spec fn no_score() -> LatencyCriticalityScore {
    LatencyCriticalityScore { score: 0, ewma_score: 0, wakeup_freq: 0, runtime_cv: 0 }
}

/// The coefficient of variation of a run time: its standard deviation by its mean, at most
/// one, in millionths, rounded down; 0 where there is no mean.
pub open spec fn variation(mean_ns: u64, variance: u64) -> u64 {
    if mean_ns == 0 {
        0
    } else {
        let cv = root(variance * 1_000_000_000_000) / mean_ns as int;
        if cv > 1_000_000 {
            1_000_000
        } else {
            cv as u64
        }
    }
}

/// The part of wakeups in the score: 64 wakeups and more are all of it.
pub open spec fn wakeup_part(wakeups: u32) -> int {
    if wakeups >= 64 {
        1_000_000
    } else {
        wakeups * 1_000_000 / 64
    }
}

/// The score of a sample: seven parts of wakeups and three of variation, out of 1024,
/// rounded down.
pub open spec fn sample_score(wakeups: u32, mean_ns: u64, variance: u64) -> int {
    (wakeup_part(wakeups) * 7 + variation(mean_ns, variance) * 3) * 1024 / 10_000_000
}

impl LatencyCriticalityScore {
    /// The smoothed score is at most 1024.
    pub open spec fn wf(self) -> bool {
        self.ewma_score <= 1_024_000_000 && self.score <= 1024
    }

    /// A score before any sample.
    pub fn new() -> (r: Self)
        ensures
            r == no_score(),
            r.wf(),
    {
        LatencyCriticalityScore { score: 0, ewma_score: 0, wakeup_freq: 0, runtime_cv: 0 }
    }

    /// The score after a sample: three parts of its own score and seven of the smoothed one.
    pub open spec fn updated(self, wakeups: u32, mean_ns: u64, variance: u64) -> LatencyCriticalityScore {
        let ewma = (3 * sample_score(wakeups, mean_ns, variance) * 1_000_000 + 7 * self.ewma_score)
            / 10;
        LatencyCriticalityScore {
            score: (ewma / 1_000_000) as u32,
            ewma_score: ewma as u64,
            wakeup_freq: wakeups,
            runtime_cv: variation(mean_ns, variance),
        }
    }

    /// Takes in the wakeups, the mean run time and the variance of the run time.
    pub fn update(&mut self, wakeup_count: u32, runtime_ns: u64, runtime_variance: u64)
        requires
            old(self).wf(),
        ensures
            final(self).wf(),
            *final(self) == old(self).updated(wakeup_count, runtime_ns, runtime_variance),
    {
        let wakeups: u64 = if wakeup_count >= 64 {
            1_000_000
        } else {
            wakeup_count as u64 * 1_000_000 / 64
        };
        let cv: u64 = if runtime_ns == 0 {
            0
        } else {
            let deviation: u64 = square_root(runtime_variance as u128 * 1_000_000_000_000);
            let x: u64 = deviation / runtime_ns;
            if x > 1_000_000 {
                1_000_000
            } else {
                x
            }
        };
        let score: u64 = (wakeups * 7 + cv * 3) * 1024 / 10_000_000;
        let ewma: u64 = (3 * score * 1_000_000 + 7 * self.ewma_score) / 10;
        self.wakeup_freq = wakeup_count;
        self.runtime_cv = cv;
        self.ewma_score = ewma;
        self.score = (ewma / 1_000_000) as u32;
    }

    /// The score as a fraction of the largest.
    pub fn normalized(&self) -> (r: Ratio)
        ensures
            r == (Ratio { num: self.score as u64, den: 1024 }),
    {
        Ratio { num: self.score as u64, den: 1024 }
    }
}

impl Default for LatencyCriticalityScore {
    fn default() -> (r: Self)
        ensures
            r == no_score(),
            r.wf(),
    {
        LatencyCriticalityScore::new()
    }
}

/// Scores lie between 0 and 1024, and a class that wakes up more often never scores less.
pub proof fn scores_stay_in_range(wakeups: u32, more: u32, mean_ns: u64, variance: u64)
    requires
        wakeups <= more,
    ensures
        0 <= sample_score(wakeups, mean_ns, variance) <= sample_score(more, mean_ns, variance)
            <= 1024,
{
    let cv = variation(mean_ns, variance) as int;
    lemma_root_exists(variance * 1_000_000_000_000);
    if mean_ns > 0 {
        let (r, m) = (root(variance * 1_000_000_000_000), mean_ns as int);
        assert(r / m >= 0) by (nonlinear_arith)
            requires
                r >= 0,
                m > 0,
        ;
    }
    assert(0 <= cv <= 1_000_000);
    let (a, b) = (wakeup_part(wakeups), wakeup_part(more));
    assert(0 <= a <= b <= 1_000_000);
    let (x, y) = ((a * 7 + cv * 3) * 1024, (b * 7 + cv * 3) * 1024);
    assert(0 <= x <= y <= 10_000_000 * 1024);
}

/// The variation is the standard deviation by the mean, in millionths: the largest number
/// below a million and one whose product with the mean is not above the deviation.
pub proof fn variations_are_deviations_by_means(mean_ns: u64, variance: u64)
    ensures
        ({
            let (cv, m, v) = (variation(mean_ns, variance) as int, mean_ns as int, variance as int);
            &&& m == 0 ==> cv == 0
            &&& cv <= 1_000_000
            &&& (cv * m) * (cv * m) <= v * 1_000_000_000_000
            &&& m > 0 && cv < 1_000_000 ==> v * 1_000_000_000_000 < ((cv + 1) * m) * ((cv + 1) * m)
        }),
{
    let (m, x) = (mean_ns as int, variance * 1_000_000_000_000);
    lemma_root_exists(x);
    let r = root(x);
    let cv = variation(mean_ns, variance) as int;
    if m > 0 {
        let q = r / m;
        vstd::arithmetic::div_mod::lemma_fundamental_div_mod(r, m);
        vstd::arithmetic::div_mod::lemma_mod_bound(r, m);
        assert(q >= 0) by (nonlinear_arith)
            requires
                q == r / m,
                r >= 0,
                m > 0,
        ;
        assert(0 <= cv <= q);
        assert(0 <= cv * m <= r) by (nonlinear_arith)
            requires
                0 <= cv <= q,
                m * q <= r,
                m > 0,
        ;
        let p = cv * m;
        assert(p * p <= r * r) by (nonlinear_arith)
            requires
                0 <= p <= r,
        ;
        if cv < 1_000_000 {
            assert(cv == q);
            let p = (cv + 1) * m;
            assert(r + 1 <= p) by (nonlinear_arith)
                requires
                    p == (q + 1) * m,
                    r < m * q + m,
            ;
            assert((r + 1) * (r + 1) <= p * p) by (nonlinear_arith)
                requires
                    0 <= r + 1 <= p,
            ;
        }
    }
}

/// Without variation the score is seven tenths of 1024 times the wakeups by 64, and seven
/// tenths from 64 wakeups on. Variation adds up to three tenths.
pub proof fn wakeups_make_up_most_of_the_score(wakeups: u32, mean_ns: u64, variance: u64)
    ensures
        ({
            let s = sample_score(wakeups, mean_ns, variance);
            let calm = sample_score(wakeups, 0, 0);
            &&& wakeups <= 64 ==> 640 * calm <= 7168 * wakeups <= 640 * (calm + 1)
            &&& wakeups >= 64 ==> calm == 716
            &&& calm <= s <= calm + 308
            &&& variation(mean_ns, variance) == 1_000_000 ==> s >= calm + 307
        }),
{
    variations_are_deviations_by_means(mean_ns, variance);
    let cv = variation(mean_ns, variance) as int;
    assert(0 <= cv <= 1_000_000);
    let (part, w) = (wakeup_part(wakeups), wakeups as int);
    let s = sample_score(wakeups, mean_ns, variance);
    let calm = sample_score(wakeups, 0, 0);
    assert(variation(0, 0) == 0);
    assert(10_000_000 * s <= (part * 7 + cv * 3) * 1024 < 10_000_000 * s + 10_000_000);
    assert(10_000_000 * calm <= part * 7 * 1024 < 10_000_000 * calm + 10_000_000);
    if w < 64 {
        assert(64 * part <= w * 1_000_000 < 64 * part + 64);
    }
}

/// A sample weighs three tenths in the smoothed score and what was known seven; the score is
/// the smoothed one in whole numbers.
pub proof fn samples_weigh_three_tenths(
    s: LatencyCriticalityScore,
    wakeups: u32,
    mean_ns: u64,
    variance: u64,
)
    requires
        s.wf(),
    ensures
        ({
            let r = s.updated(wakeups, mean_ns, variance);
            let sample = 1_000_000 * sample_score(wakeups, mean_ns, variance);
            &&& 10 * r.ewma_score <= 3 * sample + 7 * s.ewma_score < 10 * r.ewma_score + 10
            &&& sample <= s.ewma_score ==> sample <= r.ewma_score <= s.ewma_score
            &&& sample >= s.ewma_score ==> s.ewma_score <= r.ewma_score <= sample
            &&& 1_000_000 * r.score <= r.ewma_score < 1_000_000 * r.score + 1_000_000
            &&& r.wakeup_freq == wakeups
            &&& r.runtime_cv == variation(mean_ns, variance)
        }),
{
    scores_stay_in_range(wakeups, wakeups, mean_ns, variance);
}

} // verus!
