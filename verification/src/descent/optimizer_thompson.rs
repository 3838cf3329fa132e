//! Optimization of parameters by Thompson sampling: of each parameter of each class on
//! each CPU there is an estimate of the best value with its uncertainty. Values that
//! were tried are learned from, and new ones are drawn around the estimate.
//!
//! Values and losses are held in thousandths. The draws themselves are made by the
//! caller.

use vstd::prelude::*;

use crate::descent::profiles::{DefaultParams, ParamBounds, Profile, DESCENT_CLASS_MAX, PARAM_COUNT};
use crate::table::{all_values, new_keys_come_last, properties_are_kept, stored, with_stored, Table};
use crate::text::same;

verus! {

/// The largest number of observations that counts.
pub const MAX_OBSERVATIONS: u64 = 1000;

/// An estimate of the best value of a parameter, in thousandths.
#[derive(Debug, Clone, Copy, PartialEq, Eq, Structural)]
pub struct ValuePosterior {
    /// The estimate.
    pub mean: u64,
    /// Its standard deviation.
    pub std: u64,
    /// Number of observations, at most `MAX_OBSERVATIONS`.
    pub n_observations: u64,
    /// Least value.
    pub min: u64,
    /// Largest value.
    pub max: u64,
}

/// `x` brought between `lo` and `hi`.
pub open spec fn clamped(x: int, lo: u64, hi: u64) -> u64 {
    if x < lo {
        lo
    } else if x > hi {
        hi
    } else {
        x as u64
    }
}

fn clamp_value(x: i128, lo: u64, hi: u64) -> (r: u64)
    ensures
        r == clamped(x as int, lo, hi),
{
    if x < lo as i128 {
        lo
    } else if x > hi as i128 {
        hi
    } else {
        x as u64
    }
}

/// The estimate before any observation: a tenth of the range, times the exploration factor
/// in thousandths, of uncertainty, and at least a hundredth of it.
pub open spec fn first_estimate(initial: u64, min: u64, max: u64, factor: u64) -> ValuePosterior {
    let wide = (max - min) * factor / 10_000;
    let least = (max - min) / 100;
    ValuePosterior {
        mean: clamped(initial as int, min, max),
        std: (if wide < least {
            least
        } else {
            wide
        }) as u64,
        n_observations: 0,
        min,
        max,
    }
}

impl ValuePosterior {
    /// The estimate lies within its bounds.
    pub open spec fn wf(self) -> bool {
        &&& self.min <= self.mean <= self.max
        &&& self.n_observations <= MAX_OBSERVATIONS
    }

    /// The estimate before any observation.
    pub fn new(initial_mean: u64, min: u64, max: u64, exploration_factor: u64) -> (r: Self)
        requires
            min <= max,
            (max - min) * exploration_factor <= 10_000 * u64::MAX,
        ensures
            r == first_estimate(initial_mean, min, max, exploration_factor),
            r.wf(),
    {
        proof {
            crate::ratio::lemma_product_fits((max - min) as u64, exploration_factor);
        }
        let wide: u64 = ((max - min) as u128 * exploration_factor as u128 / 10_000) as u64;
        let least: u64 = (max - min) / 100;
        ValuePosterior {
            mean: clamp_value(initial_mean as i128, min, max),
            std: if wide < least {
                least
            } else {
                wide
            },
            n_observations: 0,
            min,
            max,
        }
    }

    /// A drawn value brought within the bounds.
    pub fn clamp(&self, value: i128) -> (r: u64)
        ensures
            r == clamped(value as int, self.min, self.max),
    {
        clamp_value(value, self.min, self.max)
    }

    /// The estimate after an observation that improved on what was known: it moves toward
    /// the value that was tried, the less the more observations there are, and by the
    /// improvement in millionths; the uncertainty shrinks.
    pub open spec fn improved(self, value: u64, improvement: u64) -> ValuePosterior {
        let weight = if improvement > 1_000_000 {
            1_000_000
        } else {
            improvement as int
        };
        let n = self.n_observations as int;
        ValuePosterior {
            mean: clamped(
                self.mean + (value - self.mean) * 100 * weight / ((1000 + n) * 1_000_000),
                self.min,
                self.max,
            ),
            std: (self.std * (950 + n) / (1000 + n)) as u64,
            ..self
        }
    }

    /// The estimate after an observation that did not: the uncertainty grows by 15%, up to
    /// half the range.
    pub open spec fn disappointed(self) -> ValuePosterior {
        let grown = self.std * 115 / 100;
        let most = (self.max - self.min) / 2;
        ValuePosterior {
            std: (if grown > most {
                most
            } else {
                grown
            }) as u64,
            ..self
        }
    }

    /// The estimate with one more observation, and at least a hundredth of the range of
    /// uncertainty.
    pub open spec fn counted(self) -> ValuePosterior {
        let least = (self.max - self.min) / 100;
        ValuePosterior {
            std: if self.std < least {
                least as u64
            } else {
                self.std
            },
            n_observations: if self.n_observations + 1 > MAX_OBSERVATIONS {
                MAX_OBSERVATIONS
            } else {
                (self.n_observations + 1) as u64
            },
            ..self
        }
    }

    /// The estimate after an observation.
    pub open spec fn updated(self, value: u64, better: bool, improvement: u64) -> ValuePosterior {
        if better {
            self.improved(value, improvement).counted()
        } else {
            self.disappointed().counted()
        }
    }

    /// Takes in an observation: the value that was tried, whether it improved on what was
    /// known, and by how much in millionths.
    pub fn update(&mut self, param_value: u64, improved: bool, improvement: u64)
        requires
            old(self).wf(),
        ensures
            final(self).wf(),
            *final(self) == old(self).updated(param_value, improved, improvement),
    {
        let range: u64 = self.max - self.min;
        if improved {
            let weight: i128 = if improvement > 1_000_000 {
                1_000_000
            } else {
                improvement as i128
            };
            let n: u64 = self.n_observations;
            let distance: i128 = param_value as i128 - self.mean as i128;
            proof {
                let (d, w) = (distance as int, weight as int);
                assert(-0x1_0000_0000_0000_0000 * 100_000_000 <= d * 100 * w
                    <= 0x1_0000_0000_0000_0000 * 100_000_000) by (nonlinear_arith)
                    requires
                        -0x1_0000_0000_0000_0000 <= d <= 0x1_0000_0000_0000_0000,
                        0 <= w <= 1_000_000,
                ;
                assert(-0x1_0000_0000_0000_0000 * 100 <= d * 100 <= 0x1_0000_0000_0000_0000 * 100);
                let s = self.std as int;
                let m = n as int;
                assert(0 <= s * (950 + m) <= s * (1000 + m)) by (nonlinear_arith)
                    requires
                        s >= 0,
                        m >= 0,
                ;
                assert(s * (950 + m) <= u64::MAX * 2000) by (nonlinear_arith)
                    requires
                        0 <= s <= u64::MAX,
                        0 <= m <= 1000,
                ;
                assert(s * (950 + m) / (1000 + m) <= s) by (nonlinear_arith)
                    requires
                        s * (950 + m) <= s * (1000 + m),
                        m >= 0,
                        s >= 0,
                ;
            }
            let pull: i128 = crate::autoland::pid::floor_div(
                distance * 100 * weight,
                (1000 + n as i128) * 1_000_000,
            );
            proof {
                let (x, y) = (distance * 100 * weight, (1000 + n) * 1_000_000);
                assert(-0x1_0000_0000_0000_0000 * 100_000_000 <= x / y <= 0x1_0000_0000_0000_0000
                    * 100_000_000) by (nonlinear_arith)
                    requires
                        -0x1_0000_0000_0000_0000 * 100_000_000 <= x <= 0x1_0000_0000_0000_0000
                            * 100_000_000,
                        y >= 1,
                ;
            }
            self.mean = clamp_value(self.mean as i128 + pull, self.min, self.max);
            self.std = (self.std as u128 * (950 + n as u128) / (1000 + n as u128)) as u64;
        } else {
            let grown: u128 = self.std as u128 * 115 / 100;
            let most: u64 = range / 2;
            self.std = if grown > most as u128 {
                most
            } else {
                grown as u64
            };
        }
        let least: u64 = range / 100;
        if self.std < least {
            self.std = least;
        }
        self.n_observations = if self.n_observations + 1 > MAX_OBSERVATIONS {
            MAX_OBSERVATIONS
        } else {
            self.n_observations + 1
        };
    }

    /// The estimate with its uncertainty times a factor in thousandths, within a hundredth
    /// and half of the range.
    pub open spec fn boosted(self, factor: u64) -> ValuePosterior {
        ValuePosterior {
            std: clamped(
                self.std * factor / 1000,
                ((self.max - self.min) / 100) as u64,
                ((self.max - self.min) / 2) as u64,
            ),
            ..self
        }
    }

    /// Raises the uncertainty by a factor in thousandths.
    pub fn boost_exploration(&mut self, factor: u64)
        requires
            old(self).wf(),
        ensures
            final(self).wf(),
            *final(self) == old(self).boosted(factor),
    {
        proof {
            crate::ratio::lemma_product_fits(self.std, factor);
        }
        let range: u64 = self.max - self.min;
        let wide: u128 = self.std as u128 * factor as u128 / 1000;
        self.std = if wide < (range / 100) as u128 {
            range / 100
        } else if wide > (range / 2) as u128 {
            range / 2
        } else {
            wide as u64
        };
    }
}

/// An estimate never leaves its bounds, and a success moves it toward the value that was
/// tried and never beyond.
pub proof fn estimates_move_toward_successes(p: ValuePosterior, value: u64, improvement: u64)
    requires
        p.wf(),
        p.min <= value <= p.max,
    ensures
        p.mean <= value ==> p.mean <= p.updated(value, true, improvement).mean <= value,
        value <= p.mean ==> value <= p.updated(value, true, improvement).mean <= p.mean,
        p.updated(value, false, improvement).mean == p.mean,
        p.min <= p.updated(value, true, improvement).mean <= p.max,
{
    let w = if improvement > 1_000_000 {
        1_000_000
    } else {
        improvement as int
    };
    let n = p.n_observations as int;
    let d = value - p.mean;
    let y = (1000 + n) * 1_000_000;
    let x = d * 100 * w;
    if d >= 0 {
        assert(0 <= x <= d * 100_000_000) by (nonlinear_arith)
            requires
                d >= 0,
                0 <= w <= 1_000_000,
                x == d * 100 * w,
        ;
        assert(0 <= x / y <= d) by (nonlinear_arith)
            requires
                0 <= x <= d * 100_000_000,
                y >= 1_000_000_000,
                d >= 0,
        ;
    } else {
        assert(d * 100_000_000 <= x <= 0) by (nonlinear_arith)
            requires
                d <= 0,
                0 <= w <= 1_000_000,
                x == d * 100 * w,
        ;
        assert(d <= x / y <= 0) by (nonlinear_arith)
            requires
                d * 100_000_000 <= x <= 0,
                y >= 1_000_000_000,
                d <= -1,
        ;
    }
}

/// A success never raises the uncertainty above what it was or a hundredth of the range, and
/// a failure leaves it within half the range.
pub proof fn uncertainty_follows_success(p: ValuePosterior, value: u64, improvement: u64)
    requires
        p.wf(),
    ensures
        p.updated(value, true, improvement).std <= p.std || p.updated(value, true, improvement).std
            == (p.max - p.min) / 100,
        p.updated(value, false, improvement).std <= (p.max - p.min) / 2,
        p.updated(value, true, improvement).std >= (p.max - p.min) / 100,
        p.updated(value, false, improvement).std >= (p.max - p.min) / 100,
{
    let (s, m) = (p.std as int, p.n_observations as int);
    assert(0 <= s * (950 + m) / (1000 + m) <= s) by (nonlinear_arith)
        requires
            s >= 0,
            m >= 0,
    ;
}

/// What is known of a class on a CPU.
#[derive(Debug, Clone, Copy)]
pub struct PairRecord {
    /// Estimates of the parameters.
    pub posteriors: [Option<ValuePosterior>; PARAM_COUNT],
    /// Smoothed loss in thousandths.
    pub baseline_loss: Option<u64>,
    /// Parameters that were drawn last.
    pub last_params: Option<[u64; PARAM_COUNT]>,
}

impl PairRecord {
    /// Every estimate is well formed.
    pub open spec fn wf(self) -> bool {
        forall|p: int|
            0 <= p < PARAM_COUNT ==> (#[trigger] self.posteriors@[p] matches Some(v) ==> v.wf())
    }

    /// Nothing is known.
    pub open spec fn blank(self) -> bool {
        &&& forall|p: int| 0 <= p < PARAM_COUNT ==> #[trigger] self.posteriors@[p] is None
        &&& self.baseline_loss is None
        &&& self.last_params is None
    }
}

/// The number under which a class on a CPU is kept.
pub open spec fn pair_key(cpu: u32, class: u32) -> u64 {
    (cpu * 0x1_0000_0000 + class) as u64
}

fn key_of(cpu: u32, class: u32) -> (r: u64)
    ensures
        r == pair_key(cpu, class),
{
    cpu as u64 * 0x1_0000_0000 + class as u64
}

/// Different classes or CPUs are kept under different numbers.
pub proof fn pairs_are_kept_apart(cpu: u32, class: u32, other_cpu: u32, other_class: u32)
    requires
        pair_key(cpu, class) == pair_key(other_cpu, other_class),
    ensures
        cpu == other_cpu && class == other_class,
{
}

/// The records by number.
pub type Pairs = Seq<(u64, PairRecord)>;

/// The estimates of a record of number `key`, if there is one.
pub open spec fn estimate(s: Pairs, cpu: u32, class: u32, p: int) -> Option<ValuePosterior> {
    match stored(s, pair_key(cpu, class)) {
        Some(rec) => rec.posteriors@[p],
        None => None,
    }
}

/// The smoothed loss of a class on a CPU, if there is one.
pub open spec fn baseline_of(s: Pairs, cpu: u32, class: u32) -> Option<u64> {
    match stored(s, pair_key(cpu, class)) {
        Some(rec) => rec.baseline_loss,
        None => None,
    }
}

/// The parameters that were drawn last for a class on a CPU, if there are any.
pub open spec fn last_of(s: Pairs, cpu: u32, class: u32) -> Option<[u64; PARAM_COUNT]> {
    match stored(s, pair_key(cpu, class)) {
        Some(rec) => rec.last_params,
        None => None,
    }
}

/// The exploration factor of a profile in thousandths: twice for gaming, once for servers,
/// and in between otherwise.
pub open spec fn exploration_of(name: Seq<char>) -> u64 {
    if name == "gaming"@ {
        2000
    } else if name == "server"@ {
        1000
    } else {
        1500
    }
}

/// The bounds of a profile fit in thousandths and are in order.
pub open spec fn bounds_fit(bounds: ParamBounds, c: int, p: int) -> bool {
    bounds@[c]@[p].0 <= bounds@[c]@[p].1 <= u64::MAX / 10_000
}

/// The estimate of a parameter before any observation.
pub open spec fn first_of(
    defaults: DefaultParams,
    bounds: ParamBounds,
    factor: u64,
    c: int,
    p: int,
) -> ValuePosterior {
    let initial = defaults@[c]@[p] * 1000;
    let (lo, hi) = (bounds@[c]@[p].0 * 1000, bounds@[c]@[p].1 * 1000);
    ValuePosterior {
        mean: clamped(initial, lo as u64, hi as u64),
        ..first_estimate(0, lo as u64, hi as u64, factor)
    }
}

fn first_value(
    defaults: &DefaultParams,
    bounds: &ParamBounds,
    factor: u64,
    c: usize,
    p: usize,
) -> (r: ValuePosterior)
    requires
        c < DESCENT_CLASS_MAX,
        p < PARAM_COUNT,
        bounds_fit(*bounds, c as int, p as int),
        factor <= 10_000,
    ensures
        r == first_of(*defaults, *bounds, factor, c as int, p as int),
        r.wf(),
{
    let (lo, hi): (u64, u64) = bounds[c][p];
    let (min, max): (u64, u64) = (lo * 1000, hi * 1000);
    proof {
        let (d, f) = (max - min, factor as int);
        assert(d * f <= 10_000 * u64::MAX) by (nonlinear_arith)
            requires
                0 <= d <= u64::MAX,
                0 <= f <= 10_000,
        ;
    }
    let mut r = ValuePosterior::new(0, min, max, factor);
    r.mean = clamp_value(defaults[c][p] as i128 * 1000, min, max);
    r
}

/// `rec` is what is known of a class before any observation.
pub open spec fn is_first(rec: PairRecord, profile: Profile, factor: u64, class: int) -> bool {
    &&& forall|p: int|
        0 <= p < PARAM_COUNT ==> #[trigger] rec.posteriors@[p] == Some(
            first_of(profile.default_params, profile.bounds, factor, class, p),
        )
    &&& rec.baseline_loss == Some(0u64)
    &&& rec.last_params == Some(profile.default_params@[class])
}

/// Draws parameters around their estimates and learns from the losses.
pub struct ThompsonSampler {
    /// What is known of each class on each CPU.
    pub pairs: Table<PairRecord>,
    /// Time between updates in milliseconds.
    pub update_interval_ms: u64,
    /// Exploration factor in thousandths.
    pub exploration_factor: u64,
    /// Number of CPUs.
    pub cpu_count: usize,
}

fn blank_record() -> (r: PairRecord)
    ensures
        r.blank(),
        r.wf(),
{
    PairRecord { posteriors: [None; PARAM_COUNT], baseline_loss: None, last_params: None }
}

/// Whether a loss improves on the smoothed loss so far; the first one does.
pub open spec fn is_better(baseline: u64, loss: u64) -> bool {
    baseline == 0 || loss < baseline
}

/// By how much a loss improves on the smoothed loss so far, in millionths, rounded down.
pub open spec fn improvement_of(baseline: u64, loss: u64) -> u64 {
    if baseline > 0 && loss < baseline {
        ((baseline - loss) * 1_000_000 / baseline as int) as u64
    } else {
        0
    }
}

/// The smoothed loss after one more, rounded down.
pub open spec fn next_loss(baseline: u64, loss: u64) -> u64 {
    if baseline > 0 {
        ((3 * loss + 7 * baseline) / 10) as u64
    } else {
        loss
    }
}

/// An estimate after a loss: a loss of more than half again the smoothed one boosts the
/// uncertainty.
pub open spec fn learned(
    v: ValuePosterior,
    value: u64,
    baseline: u64,
    loss: u64,
    factor: u64,
) -> ValuePosterior {
    let u = v.updated(value, is_better(baseline, loss), improvement_of(baseline, loss));
    if baseline > 0 && 2 * loss > 3 * baseline {
        u.boosted(factor)
    } else {
        u
    }
}

/// `after` is what is known of a class on a CPU after a loss with the given parameters.
pub open spec fn has_learned(
    before: PairRecord,
    params: [u64; PARAM_COUNT],
    loss: u64,
    factor: u64,
    after: PairRecord,
) -> bool {
    let baseline = match before.baseline_loss {
        Some(b) => b,
        None => 0,
    };
    &&& forall|p: int|
        0 <= p < PARAM_COUNT ==> #[trigger] after.posteriors@[p] == match before.posteriors@[p] {
            Some(v) => Some(learned(v, (params@[p] * 1000) as u64, baseline, loss, factor)),
            None => None,
        }
    &&& after.baseline_loss == Some(next_loss(baseline, loss))
    &&& after.last_params == before.last_params
}

/// `rec` is what is kept of a class on a CPU; a blank record if there is nothing.
pub open spec fn is_known(s: Pairs, cpu: u32, class: u32, rec: PairRecord) -> bool {
    match stored(s, pair_key(cpu, class)) {
        Some(r) => rec == r,
        None => rec.blank(),
    }
}

/// The number of estimates in a record.
pub open spec fn estimates_in(rec: PairRecord, n: int) -> int
    decreases n,
{
    if n <= 0 {
        0
    } else {
        estimates_in(rec, n - 1) + (if rec.posteriors@[n - 1] is Some {
            1int
        } else {
            0int
        })
    }
}

/// The observations in a record.
pub open spec fn observations_in(rec: PairRecord, n: int) -> int
    decreases n,
{
    if n <= 0 {
        0
    } else {
        observations_in(rec, n - 1) + (match rec.posteriors@[n - 1] {
            Some(v) => v.n_observations as int,
            None => 0,
        })
    }
}

/// The sum of the uncertainties in a record.
pub open spec fn uncertainty_in(rec: PairRecord, n: int) -> int
    decreases n,
{
    if n <= 0 {
        0
    } else {
        uncertainty_in(rec, n - 1) + (match rec.posteriors@[n - 1] {
            Some(v) => v.std as int,
            None => 0,
        })
    }
}

/// Number of estimates, observations, and sum of uncertainties of the first `n` records.
pub open spec fn sums(s: Pairs, n: int) -> (int, int, int)
    decreases n,
{
    if n <= 0 {
        (0, 0, 0)
    } else {
        let before = sums(s, n - 1);
        let rec = s[n - 1].1;
        (
            before.0 + estimates_in(rec, PARAM_COUNT as int),
            before.1 + observations_in(rec, PARAM_COUNT as int),
            before.2 + uncertainty_in(rec, PARAM_COUNT as int),
        )
    }
}

proof fn lemma_record_sums(rec: PairRecord, n: int)
    requires
        0 <= n <= PARAM_COUNT,
        rec.wf(),
    ensures
        0 <= estimates_in(rec, n) <= n,
        0 <= observations_in(rec, n) <= n * 1000,
        0 <= uncertainty_in(rec, n) <= n * u64::MAX,
    decreases n,
{
    if n > 0 {
        lemma_record_sums(rec, n - 1);
        assert(rec.posteriors@[n - 1] matches Some(v) ==> v.wf());
    }
}

proof fn lemma_sums_grow(s: Pairs, a: int, b: int)
    requires
        0 <= a <= b <= s.len(),
        all_values(s, |r: PairRecord| r.wf()),
    ensures
        0 <= sums(s, a).0 <= sums(s, b).0,
        0 <= sums(s, a).1 <= sums(s, b).1,
        0 <= sums(s, a).2 <= sums(s, b).2,
    decreases b,
{
    if a < b {
        lemma_sums_grow(s, a, b - 1);
        assert((|r: PairRecord| r.wf())(s[b - 1].1));
        lemma_record_sums(s[b - 1].1, 5);
    } else if a > 0 {
        lemma_sums_grow(s, a - 1, b - 1);
        assert((|r: PairRecord| r.wf())(s[a - 1].1));
        lemma_record_sums(s[a - 1].1, 5);
    }
}

/// Statistics of an estimate.
#[derive(Debug, Clone, Copy, PartialEq, Eq, Structural)]
pub struct PosteriorStats {
    pub mean: u64,
    pub std: u64,
    pub n_observations: u64,
}

/// Statistics of a class on a CPU.
#[derive(Debug, Clone, Copy)]
pub struct ThompsonDetailedStats {
    /// Observations of all parameters.
    pub total_samples: u64,
    /// Smoothed loss in thousandths.
    pub baseline_loss: u64,
    /// Statistics of the parameters.
    pub posteriors: [PosteriorStats; PARAM_COUNT],
}

impl ThompsonSampler {
    /// What is known, by number.
    pub open spec fn pairs(self) -> Pairs {
        self.pairs.entries()
    }

    /// The number of CPUs.
    pub open spec fn cpus(self) -> usize {
        self.cpu_count
    }

    /// All estimates are well formed.
    pub open spec fn wf(self) -> bool {
        all_values(self.pairs(), |r: PairRecord| r.wf())
    }

    /// A sampler that knows the defaults and bounds of a profile for every class on every
    /// CPU.
    pub fn new(cpu_count: usize, profile: &Profile) -> (r: Self)
        requires
            cpu_count <= u32::MAX,
            forall|c: int, p: int|
                0 <= c < DESCENT_CLASS_MAX && 0 <= p < PARAM_COUNT ==> #[trigger] bounds_fit(
                    profile.bounds,
                    c,
                    p,
                ),
        ensures
            r.wf(),
            r.cpus() == cpu_count,
            r.update_interval_ms == profile.response_ms,
            r.exploration_factor == exploration_of(profile.name@),
            r.pairs().len() == cpu_count * 4,
            forall|n: int|
                0 <= n < cpu_count * 4 ==> (#[trigger] r.pairs()[n]).0 == pair_key(
                    (n / 4) as u32,
                    (n % 4) as u32,
                ) && is_first(r.pairs()[n].1, *profile, r.exploration_factor, n % 4),
    {
        let factor: u64 = if same(profile.name.as_str(), "gaming") {
            2000
        } else if same(profile.name.as_str(), "server") {
            1000
        } else {
            1500
        };
        let mut pairs: Table<PairRecord> = Table::new();
        let total: u64 = cpu_count as u64 * 4;
        let mut n: u64 = 0;
        while n < total
            invariant
                n <= total == cpu_count * 4 <= 4 * u32::MAX,
                factor == exploration_of(profile.name@),
                forall|c: int, p: int|
                    0 <= c < DESCENT_CLASS_MAX && 0 <= p < PARAM_COUNT ==> #[trigger] bounds_fit(
                        profile.bounds,
                        c,
                        p,
                    ),
                pairs.entries().len() == n,
                forall|m: int|
                    0 <= m < n ==> {
                        &&& (#[trigger] pairs.entries()[m]).0 == pair_key(
                            (m / 4) as u32,
                            (m % 4) as u32,
                        )
                        &&& is_first(pairs.entries()[m].1, *profile, factor, m % 4)
                        &&& pairs.entries()[m].1.wf()
                    },
            decreases total - n,
        {
            let class: usize = (n % 4) as usize;
            let mut rec = blank_record();
            rec.baseline_loss = Some(0);
            rec.last_params = Some(profile.default_params[class]);
            let mut p: usize = 0;
            while p < PARAM_COUNT
                invariant
                    p <= 5,
                    class < 4,
                    factor <= 10_000,
                    forall|c: int, q: int|
                        0 <= c < DESCENT_CLASS_MAX && 0 <= q < PARAM_COUNT ==> #[trigger] bounds_fit(
                            profile.bounds,
                            c,
                            q,
                        ),
                    rec.baseline_loss == Some(0u64),
                    rec.last_params == Some(profile.default_params@[class as int]),
                    rec.wf(),
                    forall|q: int|
                        0 <= q < p ==> #[trigger] rec.posteriors@[q] == Some(
                            first_of(
                                profile.default_params,
                                profile.bounds,
                                factor,
                                class as int,
                                q,
                            ),
                        ),
                decreases 5 - p,
            {
                assert(bounds_fit(profile.bounds, class as int, p as int));
                let v = first_value(&profile.default_params, &profile.bounds, factor, class, p);
                rec.posteriors[p] = Some(v);
                p = p + 1;
            }
            let key: u64 = key_of((n / 4) as u32, (n % 4) as u32);
            proof {
                assert forall|m: int| 0 <= m < pairs.entries().len() implies (
                #[trigger] pairs.entries()[m]).0 != key by {
                    if pair_key((m / 4) as u32, (m % 4) as u32) == key {
                        pairs_are_kept_apart(
                            (m / 4) as u32,
                            (m % 4) as u32,
                            (n / 4) as u32,
                            (n % 4) as u32,
                        );
                    }
                }
                new_keys_come_last(pairs.entries(), key, rec);
            }
            pairs.set(key, rec);
            n = n + 1;
        }
        ThompsonSampler {
            pairs,
            update_interval_ms: profile.response_ms,
            exploration_factor: factor,
            cpu_count,
        }
    }

    fn known(&self, cpu: u32, class: u32) -> (r: PairRecord)
        requires
            self.wf(),
        ensures
            is_known(self.pairs(), cpu, class, r),
            r.wf(),
    {
        let blank = blank_record();
        proof {
            properties_are_kept(
                self.pairs(),
                pair_key(cpu, class),
                blank,
                |r: PairRecord| r.wf(),
            );
        }
        match self.pairs.get(key_of(cpu, class)) {
            Some(rec) => *rec,
            None => blank,
        }
    }

    fn keep(&mut self, cpu: u32, class: u32, rec: PairRecord)
        requires
            old(self).wf(),
            rec.wf(),
        ensures
            final(self).wf(),
            final(self).pairs() == with_stored(old(self).pairs(), pair_key(cpu, class), rec),
            final(self).same_settings(*old(self)),
    {
        proof {
            properties_are_kept(self.pairs(), pair_key(cpu, class), rec, |r: PairRecord| r.wf());
        }
        self.pairs.set(key_of(cpu, class), rec);
    }

    /// The settings are the same.
    pub open spec fn same_settings(self, other: ThompsonSampler) -> bool {
        &&& self.update_interval_ms == other.update_interval_ms
        &&& self.exploration_factor == other.exploration_factor
        &&& self.cpus() == other.cpus()
    }

    /// The parameters of a class on a CPU that follow from values drawn around their
    /// estimates, in thousandths: brought within their bounds and rounded down; 0 without an
    /// estimate. They are kept.
    pub fn sample_params(&mut self, cpu: u32, class: u32, draws: &[i128; PARAM_COUNT]) -> (r: [u64;
        PARAM_COUNT])
        requires
            old(self).wf(),
        ensures
            final(self).wf(),
            final(self).same_settings(*old(self)),
            forall|p: int|
                0 <= p < PARAM_COUNT ==> #[trigger] r@[p] == match estimate(
                    old(self).pairs(),
                    cpu,
                    class,
                    p,
                ) {
                    Some(v) => clamped(draws@[p] as int, v.min, v.max) as int / 1000,
                    None => 0,
                },
            exists|rec: PairRecord| #[trigger]
                is_known(old(self).pairs(), cpu, class, rec) && final(self).pairs() == with_stored(
                    old(self).pairs(),
                    pair_key(cpu, class),
                    PairRecord { last_params: Some(r), ..rec },
                ),
    {
        let mut rec = self.known(cpu, class);
        let ghost before = rec;
        let mut r: [u64; PARAM_COUNT] = [0; PARAM_COUNT];
        let mut p: usize = 0;
        while p < PARAM_COUNT
            invariant
                p <= 5,
                rec == before,
                forall|q: int|
                    0 <= q < p ==> #[trigger] r@[q] == match rec.posteriors@[q] {
                        Some(v) => clamped(draws@[q] as int, v.min, v.max) as int / 1000,
                        None => 0,
                    },
                forall|q: int| p <= q < 5 ==> #[trigger] r@[q] == 0,
            decreases 5 - p,
        {
            if let Some(v) = rec.posteriors[p] {
                r[p] = v.clamp(draws[p]) / 1000;
            }
            p = p + 1;
        }
        assert forall|q: int| 0 <= q < 5 implies rec.posteriors@[q] == #[trigger] estimate(
            self.pairs(),
            cpu,
            class,
            q,
        ) by {
            assert(before.blank() ==> before.posteriors@[q] is None);
        }
        assert(is_known(self.pairs(), cpu, class, before));
        rec.last_params = Some(r);
        self.keep(cpu, class, rec);
        r
    }

    /// The parameters that were drawn last for a class on a CPU.
    pub fn get_last_params(&self, cpu: u32, class: u32) -> (r: Option<[u64; PARAM_COUNT]>)
        ensures
            r == last_of(self.pairs(), cpu, class),
    {
        match self.pairs.get(key_of(cpu, class)) {
            Some(rec) => rec.last_params,
            None => None,
        }
    }

    /// Learns from the loss, in thousandths, that parameters of a class on a CPU led to.
    pub fn update(&mut self, cpu: u32, class: u32, params: [u64; PARAM_COUNT], loss: u64)
        requires
            old(self).wf(),
            forall|p: int| 0 <= p < PARAM_COUNT ==> #[trigger] params@[p] <= u64::MAX / 1000,
        ensures
            final(self).wf(),
            final(self).same_settings(*old(self)),
            exists|before: PairRecord, after: PairRecord|
                is_known(old(self).pairs(), cpu, class, before) && #[trigger] has_learned(
                    before,
                    params,
                    loss,
                    old(self).exploration_factor,
                    after,
                ) && final(self).pairs() == with_stored(
                    old(self).pairs(),
                    pair_key(cpu, class),
                    after,
                ),
    {
        let mut rec = self.known(cpu, class);
        let ghost before = rec;
        let baseline: u64 = match rec.baseline_loss {
            Some(b) => b,
            None => 0,
        };
        let improved: bool = baseline == 0 || loss < baseline;
        let improvement: u64 = if baseline > 0 && loss < baseline {
            proof {
                let (x, b) = (baseline - loss, baseline as int);
                assert(0 <= x * 1_000_000 / b <= 1_000_000) by (nonlinear_arith)
                    requires
                        0 <= x <= b,
                        b > 0,
                ;
            }
            ((baseline - loss) as u128 * 1_000_000 / baseline as u128) as u64
        } else {
            0
        };
        let boost: bool = baseline > 0 && 2 * loss as u128 > 3 * baseline as u128;
        let mut p: usize = 0;
        while p < PARAM_COUNT
            invariant
                p <= 5,
                before.wf(),
                rec.wf(),
                rec.baseline_loss == before.baseline_loss,
                rec.last_params == before.last_params,
                improved == is_better(baseline, loss),
                improvement == improvement_of(baseline, loss),
                boost == (baseline > 0 && 2 * loss > 3 * baseline),
                forall|q: int| 0 <= q < PARAM_COUNT ==> #[trigger] params@[q] <= u64::MAX / 1000,
                forall|q: int|
                    0 <= q < 5 ==> #[trigger] rec.posteriors@[q] == if q < p {
                        match before.posteriors@[q] {
                            Some(v) => Some(
                                learned(
                                    v,
                                    (params@[q] * 1000) as u64,
                                    baseline,
                                    loss,
                                    self.exploration_factor,
                                ),
                            ),
                            None => None,
                        }
                    } else {
                        before.posteriors@[q]
                    },
            decreases 5 - p,
        {
            assert(params@[p as int] <= u64::MAX / 1000);
            assert(before.posteriors@[p as int] matches Some(v) ==> v.wf());
            if let Some(v) = rec.posteriors[p] {
                let mut next = v;
                next.update(params[p] * 1000, improved, improvement);
                if boost {
                    next.boost_exploration(self.exploration_factor);
                }
                rec.posteriors[p] = Some(next);
            }
            p = p + 1;
        }
        let new_baseline: u64 = if baseline > 0 {
            ((3 * loss as u128 + 7 * baseline as u128) / 10) as u64
        } else {
            loss
        };
        rec.baseline_loss = Some(new_baseline);
        assert(is_known(self.pairs(), cpu, class, before));
        assert(has_learned(before, params, loss, self.exploration_factor, rec));
        self.keep(cpu, class, rec);
    }

    /// The estimate of a parameter of a class on a CPU.
    pub fn get_posterior(&self, cpu: u32, class: u32, param_idx: usize) -> (r: Option<
        ValuePosterior,
    >)
        ensures
            r == if param_idx < PARAM_COUNT {
                estimate(self.pairs(), cpu, class, param_idx as int)
            } else {
                None
            },
    {
        if param_idx >= PARAM_COUNT {
            return None;
        }
        match self.pairs.get(key_of(cpu, class)) {
            Some(rec) => rec.posteriors[param_idx],
            None => None,
        }
    }

    /// The smoothed loss of a class on a CPU, in thousandths.
    pub fn get_baseline(&self, cpu: u32, class: u32) -> (r: Option<u64>)
        ensures
            r == baseline_of(self.pairs(), cpu, class),
    {
        match self.pairs.get(key_of(cpu, class)) {
            Some(rec) => rec.baseline_loss,
            None => None,
        }
    }

    /// The number of CPUs.
    pub fn cpu_count(&self) -> (r: usize)
        ensures
            r == self.cpus(),
    {
        self.cpu_count
    }

    /// Forgets all that was learned of a parameter of a class on a CPU.
    pub fn reset_posterior(
        &mut self,
        cpu: u32,
        class: u32,
        param_idx: usize,
        default_params: &DefaultParams,
        bounds: &ParamBounds,
    )
        requires
            old(self).wf(),
            old(self).exploration_factor <= 10_000,
            class < DESCENT_CLASS_MAX,
            param_idx < PARAM_COUNT,
            bounds_fit(*bounds, class as int, param_idx as int),
        ensures
            final(self).wf(),
            final(self).same_settings(*old(self)),
            exists|before: PairRecord, after: PairRecord|
                is_known(old(self).pairs(), cpu, class, before) && #[trigger] is_reset(
                    before,
                    after,
                    param_idx as int,
                    first_of(
                        *default_params,
                        *bounds,
                        old(self).exploration_factor,
                        class as int,
                        param_idx as int,
                    ),
                ) && final(self).pairs() == with_stored(
                    old(self).pairs(),
                    pair_key(cpu, class),
                    after,
                ),
    {
        let mut rec = self.known(cpu, class);
        let ghost before = rec;
        let v = first_value(
            default_params,
            bounds,
            self.exploration_factor,
            class as usize,
            param_idx,
        );
        rec.posteriors[param_idx] = Some(v);
        assert(is_known(self.pairs(), cpu, class, before));
        assert(rec.wf()) by {
            assert forall|p: int| 0 <= p < PARAM_COUNT implies (#[trigger] rec.posteriors@[p] matches Some(
                x,
            ) ==> x.wf()) by {
                assert(before.posteriors@[p] matches Some(x) ==> x.wf());
            }
        }
        assert(is_reset(before, rec, param_idx as int, v));
        self.keep(cpu, class, rec);
    }

    /// Forgets all that was learned of all parameters of a class on a CPU.
    pub fn reset_posteriors_for_cpu_class(
        &mut self,
        cpu: u32,
        class: u32,
        default_params: &DefaultParams,
        bounds: &ParamBounds,
    )
        requires
            old(self).wf(),
            old(self).exploration_factor <= 10_000,
            class < DESCENT_CLASS_MAX,
            forall|p: int| 0 <= p < PARAM_COUNT ==> #[trigger] bounds_fit(*bounds, class as int, p),
        ensures
            final(self).wf(),
            final(self).same_settings(*old(self)),
            forall|p: int|
                0 <= p < PARAM_COUNT ==> #[trigger] estimate(final(self).pairs(), cpu, class, p)
                    == Some(
                    first_of(
                        *default_params,
                        *bounds,
                        old(self).exploration_factor,
                        class as int,
                        p,
                    ),
                ),
            baseline_of(final(self).pairs(), cpu, class) == baseline_of(
                old(self).pairs(),
                cpu,
                class,
            ),
            last_of(final(self).pairs(), cpu, class) == last_of(old(self).pairs(), cpu, class),
            forall|key: u64|
                key != pair_key(cpu, class) ==> #[trigger] stored(final(self).pairs(), key)
                    == stored(old(self).pairs(), key),
    {
        let mut p: usize = 0;
        while p < PARAM_COUNT
            invariant
                p <= 5,
                self.wf(),
                self.same_settings(*old(self)),
                old(self).exploration_factor <= 10_000,
                class < 4,
                forall|q: int|
                    0 <= q < PARAM_COUNT ==> #[trigger] bounds_fit(*bounds, class as int, q),
                forall|q: int|
                    0 <= q < p ==> #[trigger] estimate(self.pairs(), cpu, class, q) == Some(
                        first_of(
                            *default_params,
                            *bounds,
                            old(self).exploration_factor,
                            class as int,
                            q,
                        ),
                    ),
                baseline_of(self.pairs(), cpu, class) == baseline_of(old(self).pairs(), cpu, class),
                last_of(self.pairs(), cpu, class) == last_of(old(self).pairs(), cpu, class),
                forall|key: u64|
                    key != pair_key(cpu, class) ==> #[trigger] stored(self.pairs(), key) == stored(
                        old(self).pairs(),
                        key,
                    ),
            decreases 5 - p,
        {
            assert(bounds_fit(*bounds, class as int, p as int));
            let ghost s = self.pairs();
            self.reset_posterior(cpu, class, p, default_params, bounds);
            proof {
                let v = first_of(
                    *default_params,
                    *bounds,
                    old(self).exploration_factor,
                    class as int,
                    p as int,
                );
                let (before, after) = choose|before: PairRecord, after: PairRecord|
                    is_known(s, cpu, class, before) && #[trigger] is_reset(
                        before,
                        after,
                        p as int,
                        v,
                    ) && self.pairs() == with_stored(s, pair_key(cpu, class), after);
                crate::table::stored_values_are_found(
                    s,
                    pair_key(cpu, class),
                    after,
                    pair_key(cpu, class),
                );
                assert forall|key: u64| key != pair_key(cpu, class) implies #[trigger] stored(
                    self.pairs(),
                    key,
                ) == stored(old(self).pairs(), key) by {
                    crate::table::stored_values_are_found(s, pair_key(cpu, class), after, key);
                    assert(stored(s, key) == stored(old(self).pairs(), key));
                }
                assert forall|q: int| 0 <= q < p + 1 implies #[trigger] estimate(
                    self.pairs(),
                    cpu,
                    class,
                    q,
                ) == Some(
                    first_of(
                        *default_params,
                        *bounds,
                        old(self).exploration_factor,
                        class as int,
                        q,
                    ),
                ) by {
                    if q < p {
                        assert(estimate(s, cpu, class, q) is Some);
                        assert(after.posteriors@[q] == before.posteriors@[q]);
                    }
                }
            }
            p = p + 1;
        }
    }

    /// All observations and uncertainties can be summed up.
    pub open spec fn sums_fit(self) -> bool {
        let t = sums(self.pairs(), self.pairs().len() as int);
        &&& t.0 <= usize::MAX
        &&& t.1 <= u64::MAX
        &&& t.2 <= u64::MAX
    }

    /// The number of estimates, the number of observations, and the mean uncertainty in
    /// thousandths.
    pub fn get_stats(&self) -> (r: (usize, u64, u64))
        requires
            self.wf(),
            self.sums_fit(),
        ensures
            ({
                let t = sums(self.pairs(), self.pairs().len() as int);
                &&& r.0 == t.0
                &&& r.1 == t.1
                &&& r.2 == if t.0 > 0 {
                    t.2 / t.0
                } else {
                    0
                }
            }),
    {
        let ghost s = self.pairs();
        let ghost all = s.len() as int;
        let mut count: usize = 0;
        let mut observations: u64 = 0;
        let mut uncertainty: u64 = 0;
        let mut i: usize = 0;
        while i < self.pairs.len()
            invariant
                i <= s.len() == all,
                s == self.pairs(),
                self.wf(),
                sums(s, all).0 <= usize::MAX,
                sums(s, all).1 <= u64::MAX,
                sums(s, all).2 <= u64::MAX,
                count == sums(s, i as int).0,
                observations == sums(s, i as int).1,
                uncertainty == sums(s, i as int).2,
            decreases s.len() - i,
        {
            let rec = *self.pairs.value_at(i);
            proof {
                lemma_sums_grow(s, i + 1, all);
                assert((|r: PairRecord| r.wf())(s[i as int].1));
            }
            let mut p: usize = 0;
            while p < PARAM_COUNT
                invariant
                    p <= 5,
                    i < all,
                    rec == s[i as int].1,
                    rec.wf(),
                    count == sums(s, i as int).0 + estimates_in(rec, p as int),
                    observations == sums(s, i as int).1 + observations_in(rec, p as int),
                    uncertainty == sums(s, i as int).2 + uncertainty_in(rec, p as int),
                    sums(s, i as int).0 + estimates_in(rec, 5) <= usize::MAX,
                    sums(s, i as int).1 + observations_in(rec, 5) <= u64::MAX,
                    sums(s, i as int).2 + uncertainty_in(rec, 5) <= u64::MAX,
                decreases 5 - p,
            {
                proof {
                    lemma_parts_grow(rec, p + 1, 5);
                }
                if let Some(v) = rec.posteriors[p] {
                    count = count + 1;
                    observations = observations + v.n_observations;
                    uncertainty = uncertainty + v.std;
                }
                p = p + 1;
            }
            i = i + 1;
        }
        let mean: u64 = if count > 0 {
            uncertainty / count as u64
        } else {
            0
        };
        (count, observations, mean)
    }

    /// Statistics of a class on a CPU, if there is any estimate for it.
    pub fn get_detailed_stats(&self, cpu: u32, class: u32) -> (r: Option<ThompsonDetailedStats>)
        requires
            self.wf(),
        ensures
            match stored(self.pairs(), pair_key(cpu, class)) {
                Some(rec) => if estimates_in(rec, PARAM_COUNT as int) > 0 {
                    r matches Some(d) && is_detail(rec, d)
                } else {
                    r is None
                },
                None => r is None,
            },
    {
        let rec = self.known(cpu, class);
        let mut found: usize = 0;
        let mut total: u64 = 0;
        let none = PosteriorStats { mean: 0, std: 0, n_observations: 0 };
        let mut posteriors: [PosteriorStats; PARAM_COUNT] = [none; PARAM_COUNT];
        let mut p: usize = 0;
        while p < PARAM_COUNT
            invariant
                p <= 5,
                rec.wf(),
                none == (PosteriorStats { mean: 0, std: 0, n_observations: 0 }),
                found == estimates_in(rec, p as int) <= p,
                total == observations_in(rec, p as int) <= p * 1000,
                forall|q: int|
                    0 <= q < p ==> #[trigger] posteriors@[q] == shown(rec.posteriors@[q]),
                forall|q: int| p <= q < 5 ==> #[trigger] posteriors@[q] == none,
            decreases 5 - p,
        {
            assert(rec.posteriors@[p as int] matches Some(v) ==> v.wf());
            if let Some(v) = rec.posteriors[p] {
                found = found + 1;
                total = total + v.n_observations;
                posteriors[p] = PosteriorStats {
                    mean: v.mean,
                    std: v.std,
                    n_observations: v.n_observations,
                };
            }
            p = p + 1;
        }
        if found == 0 {
            return None;
        }
        proof {
            if rec.blank() {
                lemma_blank(rec, 5);
            }
        }
        let baseline_loss: u64 = match rec.baseline_loss {
            Some(b) => b,
            None => 0,
        };
        Some(ThompsonDetailedStats { total_samples: total, baseline_loss, posteriors })
    }
}

/// Whatever is drawn, the parameter that follows from it lies within its bounds.
pub proof fn samples_stay_in_bounds(v: ValuePosterior, draw: i128)
    requires
        v.min <= v.max,
        v.min % 1000 == 0,
    ensures
        v.min / 1000 <= clamped(draw as int, v.min, v.max) as int / 1000 <= v.max / 1000,
{
}

/// A fresh sampler has an estimate for every parameter of every class on every CPU.
pub proof fn fresh_samplers_know_every_class(s: Pairs, cpu: u32, class: u32)
    requires
        s.len() <= 4 * u32::MAX,
        forall|n: int|
            0 <= n < s.len() ==> (#[trigger] s[n]).0 == pair_key((n / 4) as u32, (n % 4) as u32),
        class < DESCENT_CLASS_MAX,
        cpu * 4 + class < s.len(),
    ensures
        stored(s, pair_key(cpu, class)) == Some(s[cpu * 4 + class].1),
{
    let k = cpu * 4 + class;
    assert forall|j: int| 0 <= j < k implies (#[trigger] s[j]).0 != pair_key(cpu, class) by {
        if s[j].0 == pair_key(cpu, class) {
            pairs_are_kept_apart((j / 4) as u32, (j % 4) as u32, cpu, class);
        }
    }
    assert(s[k].0 == pair_key((k / 4) as u32, (k % 4) as u32));
    crate::table::first_mention_counts(s, pair_key(cpu, class), k, s[k].1);
}

/// What is shown of an estimate.
pub open spec fn shown(v: Option<ValuePosterior>) -> PosteriorStats {
    match v {
        Some(x) => PosteriorStats { mean: x.mean, std: x.std, n_observations: x.n_observations },
        None => PosteriorStats { mean: 0, std: 0, n_observations: 0 },
    }
}

/// `d` shows a record.
pub open spec fn is_detail(rec: PairRecord, d: ThompsonDetailedStats) -> bool {
    &&& d.total_samples == observations_in(rec, PARAM_COUNT as int)
    &&& d.baseline_loss == match rec.baseline_loss {
        Some(b) => b,
        None => 0,
    }
    &&& forall|p: int|
        0 <= p < PARAM_COUNT ==> #[trigger] d.posteriors@[p] == shown(rec.posteriors@[p])
}

proof fn lemma_blank(rec: PairRecord, n: int)
    requires
        rec.blank(),
        0 <= n <= PARAM_COUNT,
    ensures
        estimates_in(rec, n) == 0,
    decreases n,
{
    if n > 0 {
        lemma_blank(rec, n - 1);
        assert(rec.posteriors@[n - 1] is None);
    }
}

proof fn lemma_parts_grow(rec: PairRecord, a: int, b: int)
    requires
        0 <= a <= b <= PARAM_COUNT,
    ensures
        0 <= estimates_in(rec, a) <= estimates_in(rec, b),
        0 <= observations_in(rec, a) <= observations_in(rec, b),
        0 <= uncertainty_in(rec, a) <= uncertainty_in(rec, b),
    decreases b,
{
    if a < b {
        lemma_parts_grow(rec, a, b - 1);
    } else if a > 0 {
        lemma_parts_grow(rec, a - 1, b - 1);
    }
}

/// `after` is `before` with another estimate of one parameter.
pub open spec fn is_reset(before: PairRecord, after: PairRecord, p: int, v: ValuePosterior) -> bool {
    &&& after.posteriors@ == before.posteriors@.update(p, Some(v))
    &&& after.baseline_loss == before.baseline_loss
    &&& after.last_params == before.last_params
}

/// An estimate starts at the given value, as far as its bounds allow. Its uncertainty is a
/// tenth of the range times the factor in thousandths, and a hundredth of the range where that
/// is more.
pub proof fn estimates_start_where_they_are_told(initial: u64, min: u64, max: u64, factor: u64)
    requires
        min <= max,
        (max - min) * factor <= 10_000 * u64::MAX,
    ensures
        ({
            let (r, range) = (first_estimate(initial, min, max, factor), max - min);
            &&& min <= initial <= max ==> r.mean == initial
            &&& initial < min ==> r.mean == min
            &&& initial > max ==> r.mean == max
            &&& range * factor < 10_000 * r.std + 10_000
            &&& range < 100 * r.std + 100
            &&& 10_000 * r.std <= range * factor || 100 * r.std <= range
            &&& r.n_observations == 0 && r.min == min && r.max == max
        }),
{
    let x = (max - min) * factor;
    assert(x >= 0) by (nonlinear_arith)
        requires
            x == (max - min) * factor,
            max >= min,
            factor >= 0,
    ;
}

/// A success moves an estimate by a tenth of the distance to the value that was tried, times
/// the improvement in millionths and up to all of it, and less the more was observed.
pub proof fn successes_weigh_by_their_improvement(p: ValuePosterior, value: u64, improvement: u64)
    requires
        p.wf(),
        p.min <= value <= p.max,
    ensures
        ({
            let w: int = if improvement > 1_000_000 {
                1_000_000
            } else {
                improvement as int
            };
            let r = p.updated(value, true, improvement);
            let (step, whole) = (r.mean - p.mean, (1000 + p.n_observations) * 1_000_000);
            &&& step * whole <= (value - p.mean) * (100 * w) < step * whole + whole
            &&& r.min == p.min && r.max == p.max
        }),
{
    estimates_move_toward_successes(p, value, improvement);
    let w: int = if improvement > 1_000_000 {
        1_000_000
    } else {
        improvement as int
    };
    let y = (1000 + p.n_observations) * 1_000_000;
    let d = value - p.mean;
    let x = d * 100 * w;
    assert(d * (100 * w) == x) by (nonlinear_arith)
        requires
            x == d * 100 * w,
    ;
    let q = x / y;
    vstd::arithmetic::div_mod::lemma_fundamental_div_mod(x, y);
    vstd::arithmetic::div_mod::lemma_mod_bound(x, y);
    assert(y * q == q * y) by (nonlinear_arith);
    if d >= 0 {
        assert(0 <= x <= d * y) by (nonlinear_arith)
            requires
                x == d * 100 * w,
                d >= 0,
                0 <= w <= 1_000_000,
                y >= 1_000_000_000,
        ;
    } else {
        assert(d * y <= x <= 0) by (nonlinear_arith)
            requires
                x == d * 100 * w,
                d < 0,
                0 <= w <= 1_000_000,
                y >= 1_000_000_000,
        ;
    }
    assert(d >= 0 ==> 0 <= q <= d) by (nonlinear_arith)
        requires
            d >= 0 ==> 0 <= x <= d * y,
            q * y <= x < q * y + y,
            y > 0,
    ;
    assert(d < 0 ==> d <= q <= 0) by (nonlinear_arith)
        requires
            d < 0 ==> d * y <= x <= 0,
            q * y <= x < q * y + y,
            y > 0,
    ;
}

/// A success takes a twentieth off the uncertainty, and less the more was observed; a failure
/// adds 15%, up to half of the range. A hundredth of the range always stays. Up to a thousand
/// observations are counted.
pub proof fn outcomes_move_the_uncertainty(p: ValuePosterior, value: u64, improvement: u64)
    requires
        p.wf(),
    ensures
        ({
            let (good, bad) = (
                p.updated(value, true, improvement),
                p.updated(value, false, improvement),
            );
            let (range, n, s) = (p.max - p.min, p.n_observations as int, p.std as int);
            &&& good.std * (1000 + n) <= s * (950 + n) || 100 * good.std <= range
            &&& s * (950 + n) < good.std * (1000 + n) + (1000 + n)
            &&& 100 * bad.std <= 115 * s || 100 * bad.std <= range
            &&& 115 * s < 100 * bad.std + 100 || range < 2 * bad.std + 2
            &&& 2 * bad.std <= range
            &&& n < 1000 ==> good.n_observations == n + 1 && bad.n_observations == n + 1
            &&& n == 1000 ==> good.n_observations == n && bad.n_observations == n
            &&& bad.mean == p.mean && bad.min == p.min && bad.max == p.max
        }),
{
    let (n, s) = (p.n_observations as int, p.std as int);
    let (x, y) = (s * (950 + n), 1000 + n);
    let q = x / y;
    vstd::arithmetic::div_mod::lemma_fundamental_div_mod(x, y);
    vstd::arithmetic::div_mod::lemma_mod_bound(x, y);
    assert(y * q == q * y) by (nonlinear_arith);
    assert(0 <= q <= s) by (nonlinear_arith)
        requires
            q == x / y,
            x == s * (950 + n),
            y == 1000 + n,
            s >= 0,
            n >= 0,
    ;
    let good = p.updated(value, true, improvement);
    assert(good.std >= q);
    assert(good.std * y >= q * y) by (nonlinear_arith)
        requires
            good.std >= q,
            y > 0,
    ;
}

/// A boost multiplies the uncertainty by a factor in thousandths, between a hundredth and half
/// of the range, and changes nothing else.
pub proof fn boosts_multiply_the_uncertainty(p: ValuePosterior, factor: u64)
    requires
        p.wf(),
    ensures
        ({
            let (r, range) = (p.boosted(factor), p.max - p.min);
            &&& r == (ValuePosterior { std: r.std, ..p })
            &&& 2 * r.std <= range < 100 * r.std + 100
            &&& 1000 * r.std <= p.std * factor || 100 * r.std <= range
            &&& p.std * factor < 1000 * r.std + 1000 || range < 2 * r.std + 2
        }),
{
    let x = p.std * factor;
    assert(x >= 0) by (nonlinear_arith)
        requires
            x == p.std * factor,
            p.std >= 0,
            factor >= 0,
    ;
}

/// A loss is an improvement exactly where it lies below the smoothed one or is the first. The
/// improvement is the part of the smoothed loss that it saves, in millionths.
pub proof fn improvements_are_savings(baseline: u64, loss: u64)
    ensures
        ({
            let (gain, b) = (improvement_of(baseline, loss) as int, baseline as int);
            &&& is_better(baseline, loss) <==> b == 0 || loss < b
            &&& b == 0 || loss >= b ==> gain == 0
            &&& b > 0 && loss < b ==> gain * b <= (b - loss) * 1_000_000 < gain * b + b
        }),
{
    let (b, x) = (baseline as int, (baseline - loss) * 1_000_000);
    if b > 0 && loss < b {
        let q = x / b;
        vstd::arithmetic::div_mod::lemma_fundamental_div_mod(x, b);
        vstd::arithmetic::div_mod::lemma_mod_bound(x, b);
        assert(b * q == q * b) by (nonlinear_arith);
        assert(0 <= q <= 1_000_000) by (nonlinear_arith)
            requires
                q == x / b,
                0 <= x <= b * 1_000_000,
                b > 0,
        ;
    }
}

/// A loss weighs three tenths in the smoothed loss and what was known seven; the first loss
/// stands as it is.
pub proof fn losses_weigh_three_tenths(baseline: u64, loss: u64)
    ensures
        ({
            let r = next_loss(baseline, loss);
            &&& baseline == 0 ==> r == loss
            &&& baseline > 0 ==> 10 * r <= 3 * loss + 7 * baseline < 10 * r + 10
            &&& loss <= baseline ==> loss <= r <= baseline
            &&& loss >= baseline ==> baseline <= r <= loss
        }),
{
}

/// An estimate learns from an outcome, and is boosted where the loss is more than half again
/// the smoothed one. A boost changes the uncertainty alone.
pub proof fn bad_losses_boost_exploration(
    v: ValuePosterior,
    value: u64,
    baseline: u64,
    loss: u64,
    factor: u64,
)
    requires
        v.wf(),
    ensures
        ({
            let (r, range) = (learned(v, value, baseline, loss, factor), v.max - v.min);
            let failed = v.updated(value, false, 0);
            let gained = v.updated(value, true, improvement_of(baseline, loss));
            &&& baseline == 0 || loss < baseline ==> r == gained
            &&& 0 < baseline <= loss ==> r.mean == v.mean && r.n_observations
                == failed.n_observations
            &&& 0 < baseline <= loss && 2 * loss <= 3 * baseline ==> r == failed
            &&& 0 < baseline && 2 * loss > 3 * baseline ==> (1000 * r.std <= failed.std * factor
                || 100 * r.std <= range) && (failed.std * factor < 1000 * r.std + 1000 || range < 2
                * r.std + 2)
        }),
{
    let u = v.updated(value, is_better(baseline, loss), improvement_of(baseline, loss));
    lemma_estimates_stay_well_formed(v, value, is_better(baseline, loss), improvement_of(baseline, loss));
    boosts_multiply_the_uncertainty(u, factor);
}

proof fn lemma_estimates_stay_well_formed(v: ValuePosterior, value: u64, better: bool, improvement: u64)
    requires
        v.wf(),
    ensures
        v.updated(value, better, improvement).wf(),
{
}

/// The totals of a record are those of its five estimates.
pub proof fn records_total_their_estimates(rec: PairRecord)
    ensures
        ({
            let counts = |p: int| if rec.posteriors@[p] is Some { 1int } else { 0int };
            let seen = |p: int| match rec.posteriors@[p] {
                Some(v) => v.n_observations as int,
                None => 0int,
            };
            let open = |p: int| match rec.posteriors@[p] {
                Some(v) => v.std as int,
                None => 0int,
            };
            &&& estimates_in(rec, 5) == counts(0) + counts(1) + counts(2) + counts(3) + counts(4)
            &&& observations_in(rec, 5) == seen(0) + seen(1) + seen(2) + seen(3) + seen(4)
            &&& uncertainty_in(rec, 5) == open(0) + open(1) + open(2) + open(3) + open(4)
        }),
{
    reveal_with_fuel(estimates_in, 6);
    reveal_with_fuel(observations_in, 6);
    reveal_with_fuel(uncertainty_in, 6);
}

/// A class starts without losses, with the defaults of its profile as what was drawn last, and
/// with an estimate of each parameter at the default, in thousandths and within its bounds.
pub proof fn classes_start_from_their_defaults(
    rec: PairRecord,
    profile: Profile,
    factor: u64,
    class: int,
    p: int,
)
    requires
        0 <= class < 4,
        0 <= p < 5,
        bounds_fit(profile.bounds, class, p),
        is_first(rec, profile, factor, class),
    ensures
        ({
            let (lo, hi) = profile.bounds@[class]@[p];
            let default = profile.default_params@[class]@[p];
            &&& rec.baseline_loss == Some(0u64)
            &&& rec.last_params == Some(profile.default_params@[class])
            &&& rec.posteriors@[p] matches Some(v) && {
                &&& v.min == lo * 1000 && v.max == hi * 1000
                &&& v.n_observations == 0
                &&& lo <= default <= hi ==> v.mean == default * 1000
                &&& default < lo ==> v.mean == lo * 1000
                &&& default > hi ==> v.mean == hi * 1000
            }
        }),
{
}

} // verus!
