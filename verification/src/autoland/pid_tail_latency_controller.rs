//! Controller of the time slices by the tail latency of each class.

use vstd::prelude::*;

use crate::autoland::criticality::{no_score, LatencyCriticalityScore};
use crate::autoland::histogram::EmaHistogram;
use crate::autoland::pid::{floor_div, EmaPidController, MAX_ERROR, MAX_GAIN};
use crate::ratio::Ratio;
use crate::wire::{le_u32, le_u64, u32_at, u64_at};

verus! {

/// Number of buckets of a latency histogram.
pub const LATENCY_HISTOGRAM_BUCKETS: usize = 16;

/// Target of latency-critical tasks in microseconds.
pub const DEFAULT_LC_TARGET_US: u64 = 500;

/// Target of normal tasks in microseconds.
pub const DEFAULT_NORMAL_TARGET_US: u64 = 2000;

/// Largest latency of hogs in microseconds.
pub const DEFAULT_HOG_MAX_US: u64 = 50000;

/// Least slice in nanoseconds.
pub const MIN_SLICE_NS: u64 = 100_000;

/// Largest slice in nanoseconds.
pub const MAX_SLICE_NS: u64 = 100_000_000;

/// Latency target of a class with the range that is acceptable.
#[derive(Clone, Copy, Debug, PartialEq, Eq, Structural)]
pub struct ClassLatencyTarget {
    /// Target in nanoseconds.
    pub target_p99_ns: u64,
    /// Largest acceptable latency.
    pub max_acceptable_ns: u64,
    /// Least acceptable latency.
    pub min_acceptable_ns: u64,
}

/// A target with a range from a fifth of it to twice it.
pub open spec fn target_of(target_us: u64) -> ClassLatencyTarget {
    let ns = target_us * 1000;
    ClassLatencyTarget {
        target_p99_ns: ns as u64,
        max_acceptable_ns: (if ns * 2 > u64::MAX { u64::MAX as int } else { ns * 2 }) as u64,
        min_acceptable_ns: (ns / 5) as u64,
    }
}

/// A largest latency with a range from a tenth of it.
pub open spec fn bounded_target_of(max_us: u64) -> ClassLatencyTarget {
    let ns = max_us * 1000;
    ClassLatencyTarget {
        target_p99_ns: ns as u64,
        max_acceptable_ns: ns as u64,
        min_acceptable_ns: (ns / 10) as u64,
    }
}

impl ClassLatencyTarget {
    /// A target in microseconds, acceptable from a fifth of it to twice it.
    pub fn from_micros(target_us: u64) -> (r: Self)
        requires
            target_us * 1000 <= u64::MAX,
        ensures
            r == target_of(target_us),
    {
        let target_ns: u64 = target_us * 1000;
        ClassLatencyTarget {
            target_p99_ns: target_ns,
            max_acceptable_ns: target_ns.saturating_add(target_ns),
            min_acceptable_ns: target_ns / 5,
        }
    }

    /// A largest latency in microseconds, acceptable from a tenth of it.
    pub fn bounded_max(max_us: u64) -> (r: Self)
        requires
            max_us * 1000 <= u64::MAX,
        ensures
            r == bounded_target_of(max_us),
    {
        let max_ns: u64 = max_us * 1000;
        ClassLatencyTarget {
            target_p99_ns: max_ns,
            max_acceptable_ns: max_ns,
            min_acceptable_ns: max_ns / 10,
        }
    }
}

impl Default for ClassLatencyTarget {
    fn default() -> (r: Self)
        ensures
            r == target_of(DEFAULT_LC_TARGET_US),
    {
        ClassLatencyTarget::from_micros(DEFAULT_LC_TARGET_US)
    }
}

/// Task class.
#[derive(Clone, Copy, Debug, PartialEq, Eq, Structural)]
pub enum TaskClass {
    Normal,
    Hog,
    LatencyCritical,
}

impl TaskClass {
    /// The number of a class.
    pub open spec fn number(self) -> nat {
        match self {
            TaskClass::Normal => 0,
            TaskClass::Hog => 1,
            TaskClass::LatencyCritical => 2,
        }
    }

    /// The class with a number; normal for a number that no class has.
    pub fn from_u32(class: u32) -> (r: Self)
        ensures
            class <= 2 ==> r.number() == class,
            class > 2 ==> r == TaskClass::Normal,
    {
        match class {
            1 => TaskClass::Hog,
            2 => TaskClass::LatencyCritical,
            _ => TaskClass::Normal,
        }
    }

    /// The number of a class.
    pub fn as_usize(self) -> (r: usize)
        ensures
            r == self.number(),
    {
        match self {
            TaskClass::Normal => 0,
            TaskClass::Hog => 1,
            TaskClass::LatencyCritical => 2,
        }
    }

    /// Proportional, integral and derivative gain of a class, in thousandths:
    /// aggressive for latency-critical tasks, slow and stable for hogs.
    pub fn default_gains(self) -> (r: (u64, u64, u64))
        ensures
            r == gains_of(self),
    {
        match self {
            TaskClass::LatencyCritical => (1000, 50, 300),
            TaskClass::Normal => (500, 100, 200),
            TaskClass::Hog => (300, 150, 100),
        }
    }

    /// Least and largest output of the control loop of a class, in tenths.
    pub fn output_limits(self) -> (r: (u64, u64))
        ensures
            r == limits_of(self),
    {
        match self {
            TaskClass::LatencyCritical => (5, 20),
            TaskClass::Normal => (6, 18),
            TaskClass::Hog => (8, 15),
        }
    }
}

/// Proportional, integral and derivative gain of a class, in thousandths.
pub open spec fn gains_of(class: TaskClass) -> (u64, u64, u64) {
    match class {
        TaskClass::LatencyCritical => (1000u64, 50u64, 300u64),
        TaskClass::Normal => (500u64, 100u64, 200u64),
        TaskClass::Hog => (300u64, 150u64, 100u64),
    }
}

/// Least and largest output of the control loop of a class, in tenths.
pub open spec fn limits_of(class: TaskClass) -> (u64, u64) {
    match class {
        TaskClass::LatencyCritical => (5u64, 20u64),
        TaskClass::Normal => (6u64, 18u64),
        TaskClass::Hog => (8u64, 15u64),
    }
}

/// Latency statistics of a class, as the kernel side counts them.
#[derive(Clone, Copy, Debug)]
pub struct ClassLatencyStat {
    pub sum_ns: u64,
    pub count: u64,
    pub sum_squares_ns: u64,
    pub min_ns: u64,
    pub max_ns: u64,
    /// Bucket 0 holds latencies up to 1 microsecond, bucket `i` those up to 2 to the
    /// power of `i` microseconds.
    pub histogram: [u64; LATENCY_HISTOGRAM_BUCKETS],
}

/// Wakeups and run times of a class, as the kernel side counts them.
#[derive(Clone, Copy, Debug, PartialEq, Eq, Structural)]
pub struct ClassCriticalityMetrics {
    pub total_wakeup_count: u64,
    pub total_runtime_ns: u64,
    pub runtime_squared_sum: u64,
    pub sample_count: u32,
}

impl ClassLatencyStat {
    /// The statistics that the value of a kernel map holds; zeros if it is too short.
    pub fn from_bytes(data: &[u8]) -> (r: Self)
        ensures
            data@.len() >= 168 ==> {
                &&& r.sum_ns == le_u64(data@, 0)
                &&& r.count == le_u64(data@, 8)
                &&& r.sum_squares_ns == le_u64(data@, 16)
                &&& r.min_ns == le_u64(data@, 24)
                &&& r.max_ns == le_u64(data@, 32)
                &&& forall|i: int|
                    0 <= i < LATENCY_HISTOGRAM_BUCKETS ==> #[trigger] r.histogram[i] == le_u64(
                        data@,
                        40 + 8 * i,
                    )
            },
            data@.len() < 168 ==> {
                &&& r.sum_ns == 0
                &&& r.count == 0
                &&& r.sum_squares_ns == 0
                &&& r.min_ns == 0
                &&& r.max_ns == 0
                &&& forall|i: int|
                    0 <= i < LATENCY_HISTOGRAM_BUCKETS ==> #[trigger] r.histogram[i] == 0
            },
    {
        let mut histogram: [u64; LATENCY_HISTOGRAM_BUCKETS] = [0; LATENCY_HISTOGRAM_BUCKETS];
        if data.len() < 168 {
            return ClassLatencyStat {
                sum_ns: 0,
                count: 0,
                sum_squares_ns: 0,
                min_ns: 0,
                max_ns: 0,
                histogram,
            };
        }
        let mut i: usize = 0;
        while i < LATENCY_HISTOGRAM_BUCKETS
            invariant
                i <= 16,
                data@.len() >= 168,
                forall|j: int| 0 <= j < i ==> #[trigger] histogram[j] == le_u64(data@, 40 + 8 * j),
            decreases 16 - i,
        {
            histogram[i] = u64_at(data, 40 + i * 8);
            i = i + 1;
        }
        ClassLatencyStat {
            sum_ns: u64_at(data, 0),
            count: u64_at(data, 8),
            sum_squares_ns: u64_at(data, 16),
            min_ns: u64_at(data, 24),
            max_ns: u64_at(data, 32),
            histogram,
        }
    }
}

impl ClassCriticalityMetrics {
    /// The metrics that the value of a kernel map holds; zeros if it is too short.
    pub fn from_bytes(data: &[u8]) -> (r: Self)
        ensures
            r == if data@.len() >= 28 {
                ClassCriticalityMetrics {
                    total_wakeup_count: le_u64(data@, 0),
                    total_runtime_ns: le_u64(data@, 8),
                    runtime_squared_sum: le_u64(data@, 16),
                    sample_count: le_u32(data@, 24),
                }
            } else {
                ClassCriticalityMetrics {
                    total_wakeup_count: 0,
                    total_runtime_ns: 0,
                    runtime_squared_sum: 0,
                    sample_count: 0,
                }
            },
    {
        if data.len() >= 28 {
            ClassCriticalityMetrics {
                total_wakeup_count: u64_at(data, 0),
                total_runtime_ns: u64_at(data, 8),
                runtime_squared_sum: u64_at(data, 16),
                sample_count: u32_at(data, 24),
            }
        } else {
            ClassCriticalityMetrics {
                total_wakeup_count: 0,
                total_runtime_ns: 0,
                runtime_squared_sum: 0,
                sample_count: 0,
            }
        }
    }
}

/// The sum of the first `n` buckets.
pub open spec fn bucket_sum(h: Seq<u64>, n: int) -> int
    decreases n,
{
    if n <= 0 {
        0
    } else {
        bucket_sum(h, n - 1) + h[n - 1]
    }
}

/// 2 to the power of `n`.
pub open spec fn power_of_two(n: nat) -> nat
    decreases n,
{
    if n == 0 {
        1
    } else {
        2 * power_of_two((n - 1) as nat)
    }
}

/// The largest latency of a bucket in nanoseconds.
pub open spec fn bucket_bound(i: int) -> int {
    power_of_two(i as nat) as int * 1000
}

/// The largest latency of a bucket in nanoseconds.
pub fn bucket_bound_ns(idx: usize) -> (r: u64)
    requires
        idx < LATENCY_HISTOGRAM_BUCKETS,
    ensures
        r == bucket_bound(idx as int),
        1000 <= r <= 32_768_000,
{
    let mut us: u64 = 1;
    let mut i: usize = 0;
    proof {
        reveal_with_fuel(power_of_two, 16);
    }
    while i < idx
        invariant
            i <= idx < 16,
            us == power_of_two(i as nat) <= power_of_two(15),
            power_of_two(15) == 32768,
        decreases idx - i,
    {
        proof {
            lemma_power_grows((i + 1) as nat, 15);
        }
        us = us * 2;
        i = i + 1;
    }
    us * 1000
}

proof fn lemma_power_grows(a: nat, b: nat)
    requires
        a <= b,
    ensures
        power_of_two(a) <= power_of_two(b),
    decreases b,
{
    if a < b {
        lemma_power_grows(a, (b - 1) as nat);
    }
}

/// The first bucket from `i` on up to which at least `wanted` samples lie.
pub open spec fn bucket_reaching(h: Seq<u64>, wanted: int, i: int) -> Option<int>
    decreases h.len() - i,
{
    if i < 0 || i >= h.len() {
        None
    } else if bucket_sum(h, i + 1) >= wanted {
        Some(i)
    } else {
        bucket_reaching(h, wanted, i + 1)
    }
}

/// The 99th percentile of a histogram: the bound of the first bucket up to which at least
/// 99 of 100 samples lie; 0 without samples.
pub open spec fn p99_of(stat: ClassLatencyStat) -> int {
    let total = bucket_sum(stat.histogram@, LATENCY_HISTOGRAM_BUCKETS as int);
    if total == 0 {
        0
    } else {
        match bucket_reaching(stat.histogram@, (total * 99 + 99) / 100, 0) {
            Some(i) => bucket_bound(i),
            None => stat.max_ns as int,
        }
    }
}

proof fn lemma_bucket_sum_grows(h: Seq<u64>, a: int, b: int)
    requires
        0 <= a <= b <= h.len(),
    ensures
        0 <= bucket_sum(h, a) <= bucket_sum(h, b),
    decreases b,
{
    if a < b {
        lemma_bucket_sum_grows(h, a, b - 1);
    } else if a > 0 {
        lemma_bucket_sum_grows(h, a - 1, b - 1);
    }
}

/// The bucket that the percentile lies in holds samples, and there is one wherever there
/// are samples.
pub proof fn percentiles_lie_among_samples(stat: ClassLatencyStat)
    ensures
        ({
            let h = stat.histogram@;
            let total = bucket_sum(h, LATENCY_HISTOGRAM_BUCKETS as int);
            total > 0 ==> match bucket_reaching(h, (total * 99 + 99) / 100, 0) {
                Some(i) => 0 <= i < LATENCY_HISTOGRAM_BUCKETS && h[i] > 0 && bucket_sum(h, i + 1)
                    * 100 >= total * 99 && bucket_sum(h, i) * 100 < total * 99,
                None => false,
            }
        }),
{
    let h = stat.histogram@;
    let total = bucket_sum(h, LATENCY_HISTOGRAM_BUCKETS as int);
    if total > 0 {
        lemma_reaching(h, (total * 99 + 99) / 100, 0);
    }
}

proof fn lemma_reaching(h: Seq<u64>, wanted: int, i: int)
    requires
        0 <= i < h.len(),
        bucket_sum(h, i) < wanted <= bucket_sum(h, h.len() as int),
    ensures
        match bucket_reaching(h, wanted, i) {
            Some(k) => i <= k < h.len() && bucket_sum(h, k) < wanted <= bucket_sum(h, k + 1),
            None => false,
        },
    decreases h.len() - i,
{
    if bucket_sum(h, i + 1) < wanted {
        assert(i + 1 < h.len());
        lemma_reaching(h, wanted, i + 1);
    }
}

/// The 99th percentile of a histogram of samples, in nanoseconds.
pub fn calculate_p99(stat: &ClassLatencyStat) -> (r: u64)
    requires
        bucket_sum(stat.histogram@, LATENCY_HISTOGRAM_BUCKETS as int) * 99 <= u64::MAX,
    ensures
        r == p99_of(*stat),
{
    let ghost h = stat.histogram@;
    let mut total_count: u64 = 0;
    let mut i: usize = 0;
    while i < LATENCY_HISTOGRAM_BUCKETS
        invariant
            i <= 16,
            h == stat.histogram@,
            bucket_sum(h, 16) * 99 <= u64::MAX,
            total_count == bucket_sum(h, i as int),
        decreases 16 - i,
    {
        proof {
            lemma_bucket_sum_grows(h, i + 1, 16);
        }
        total_count = total_count + stat.histogram[i];
        i = i + 1;
    }
    if total_count == 0 {
        return 0;
    }
    let p99_count: u64 = total_count - total_count / 100;
    let mut cumulative: u64 = 0;
    let mut idx: usize = 0;
    while idx < LATENCY_HISTOGRAM_BUCKETS
        invariant
            idx <= 16,
            h == stat.histogram@,
            bucket_sum(h, 16) * 99 <= u64::MAX,
            cumulative == bucket_sum(h, idx as int),
            bucket_reaching(h, p99_count as int, 0) == bucket_reaching(
                h,
                p99_count as int,
                idx as int,
            ),
            total_count > 0,
            total_count == bucket_sum(h, 16),
            p99_count == (total_count * 99 + 99) / 100,
        decreases 16 - idx,
    {
        proof {
            lemma_bucket_sum_grows(h, idx + 1, 16);
        }
        cumulative = cumulative + stat.histogram[idx];
        if cumulative >= p99_count {
            return bucket_bound_ns(idx);
        }
        idx = idx + 1;
    }
    stat.max_ns
}

/// The samples that came into each bucket since `prev`; none where the count did not
/// grow.
pub open spec fn new_samples(new: u64, prev: u64) -> u64 {
    if new > prev {
        (new - prev) as u64
    } else {
        0
    }
}

/// Wakeups, mean run time and variance of the run time of a class.
pub struct RuntimeMoments {
    pub wakeup_count: u32,
    pub avg_runtime_ns: u64,
    pub variance: u64,
}

/// Divides safely by a number of samples.
pub open spec fn samples(m: ClassCriticalityMetrics) -> int {
    if m.sample_count == 0 {
        1
    } else {
        m.sample_count as int
    }
}

/// The wakeups, modulo 2 to the power of 32, the mean run time and the variance of
/// what was counted of a class. The variance is the mean of the squares less the
/// square of the mean, and not less than 0.
pub fn runtime_moments(metrics: &ClassCriticalityMetrics) -> (r: RuntimeMoments)
    requires
        (metrics.total_runtime_ns as int / samples(*metrics)) * (metrics.total_runtime_ns as int
            / samples(*metrics)) <= u64::MAX,
    ensures
        r.wakeup_count == metrics.total_wakeup_count as int % 0x1_0000_0000,
        r.avg_runtime_ns == metrics.total_runtime_ns as int / samples(*metrics),
        ({
            let mean_sq = metrics.runtime_squared_sum as int / samples(*metrics);
            let sq_mean = r.avg_runtime_ns * r.avg_runtime_ns;
            r.variance == if mean_sq > sq_mean { mean_sq - sq_mean } else { 0 }
        }),
{
    let sample_count: u64 = if metrics.sample_count == 0 { 1 } else { metrics.sample_count as u64 };
    let avg_runtime: u64 = metrics.total_runtime_ns / sample_count;
    let mean_sq: u64 = metrics.runtime_squared_sum / sample_count;
    let sq_mean: u64 = avg_runtime * avg_runtime;
    let variance: u64 = if mean_sq > sq_mean { mean_sq - sq_mean } else { 0 };
    RuntimeMoments {
        wakeup_count: (metrics.total_wakeup_count % 0x1_0000_0000) as u32,
        avg_runtime_ns: avg_runtime,
        variance,
    }
}

/// What is kept of a class.
#[derive(Clone, Copy, Debug)]
pub struct ClassControllerState {
    /// Latency target.
    pub target: ClassLatencyTarget,
    /// Control loop.
    pub pid: EmaPidController,
    /// Latency histogram.
    pub ema_histogram: EmaHistogram,
    /// How latency-critical the class behaves.
    pub criticality: LatencyCriticalityScore,
    /// Last measured 99th percentile in nanoseconds.
    pub measured_p99_ns: u64,
    /// Current slice in nanoseconds.
    pub current_slice_ns: u64,
    /// Slice before any adjustment.
    pub base_slice_ns: u64,
}

/// `v` brought between `lo` and `hi`.
pub open spec fn between(v: int, lo: int, hi: int) -> int {
    if v < lo {
        lo
    } else if v > hi {
        hi
    } else {
        v
    }
}

/// A control loop with the gains, in thousandths, of a class. Its output is how much of the
/// slice is taken away: at most what the output limits of the class leave above one, at
/// least what they leave below.
pub open spec fn loop_of(class: TaskClass, gains: (u64, u64, u64)) -> EmaPidController {
    EmaPidController {
        kp: gains.0,
        ki: gains.1,
        kd: gains.2,
        ema_error: 0,
        prev_error: 0,
        min_output: (limits_of(class).0 * 100_000 - 1_000_000) as i64,
        max_output: (limits_of(class).1 * 100_000 - 1_000_000) as i64,
    }
}

fn class_loop(class: TaskClass, gains: (u64, u64, u64)) -> (r: EmaPidController)
    ensures
        r == loop_of(class, gains),
        gains.0 <= MAX_GAIN && gains.1 <= MAX_GAIN && gains.2 <= MAX_GAIN ==> r.wf(),
{
    let (lo, hi) = class.output_limits();
    EmaPidController::new(
        gains.0,
        gains.1,
        gains.2,
        lo as i64 * 100_000 - 1_000_000,
        hi as i64 * 100_000 - 1_000_000,
    )
}

/// What was counted of a class can be squared.
pub open spec fn runtime_fits(m: ClassCriticalityMetrics) -> bool {
    (m.total_runtime_ns as int / samples(m)) * (m.total_runtime_ns as int / samples(m)) <= u64::MAX
}

/// The variance of the run time.
pub open spec fn runtime_variance(m: ClassCriticalityMetrics) -> u64 {
    let mean_sq = m.runtime_squared_sum as int / samples(m);
    let mean = m.total_runtime_ns as int / samples(m);
    (if mean_sq > mean * mean {
        mean_sq - mean * mean
    } else {
        0
    }) as u64
}

impl ClassControllerState {
    /// The parts are well formed, the target is one, and the loop can be run on.
    pub open spec fn wf(self) -> bool {
        &&& self.target.target_p99_ns > 0
        &&& self.pid.wf()
        &&& self.ema_histogram.wf()
        &&& self.criticality.wf()
    }

    /// A class at its base slice.
    pub fn new(class: TaskClass, target: ClassLatencyTarget, base_slice_us: u64) -> (r: Self)
        requires
            base_slice_us * 1000 <= u64::MAX,
        ensures
            is_starting(r, class, target, base_slice_us),
            target.target_p99_ns > 0 ==> r.wf(),
    {
        ClassControllerState {
            target,
            pid: class_loop(class, class.default_gains()),
            ema_histogram: EmaHistogram::new(200),
            criticality: LatencyCriticalityScore::new(),
            measured_p99_ns: 0,
            current_slice_ns: base_slice_us * 1000,
            base_slice_ns: base_slice_us * 1000,
        }
    }

    /// The score after what was counted of the class.
    pub open spec fn next_score(self, m: ClassCriticalityMetrics) -> LatencyCriticalityScore {
        self.criticality.updated(
            (m.total_wakeup_count as int % 0x1_0000_0000) as u32,
            (m.total_runtime_ns as int / samples(m)) as u64,
            runtime_variance(m),
        )
    }

    /// Takes in what was counted of the class.
    pub fn update_criticality(&mut self, metrics: &ClassCriticalityMetrics)
        requires
            old(self).wf(),
            runtime_fits(*metrics),
        ensures
            final(self).wf(),
            *final(self) == (ClassControllerState {
                criticality: old(self).next_score(*metrics),
                ..*old(self)
            }),
    {
        let m = runtime_moments(metrics);
        self.criticality.update(m.wakeup_count, m.avg_runtime_ns, m.variance);
    }

    /// Nothing but the histogram differs.
    pub open spec fn same_but_histogram(self, other: ClassControllerState) -> bool {
        self == (ClassControllerState { ema_histogram: self.ema_histogram, ..other })
    }

    /// Takes in the latency histogram of the class.
    pub fn update_histogram(&mut self, stat: &ClassLatencyStat)
        requires
            old(self).wf(),
        ensures
            final(self).wf(),
            final(self).same_but_histogram(*old(self)),
            final(self).ema_histogram.follows(old(self).ema_histogram, stat.histogram@),
    {
        self.ema_histogram.update(&stat.histogram);
    }

    /// The 99th percentile of the histogram, if there are enough samples.
    pub fn calculate_p99_ema(&self) -> (r: Option<u64>)
        requires
            self.wf(),
        ensures
            r == self.ema_histogram.p99(),
            r matches Some(p) ==> 1000 <= p <= 32_768_000,
    {
        self.ema_histogram.calculate_p99()
    }

    /// The class whose limits a base slice falls under.
    pub open spec fn limit_class(self) -> TaskClass {
        if self.base_slice_ns <= 500_000 {
            TaskClass::LatencyCritical
        } else if self.base_slice_ns <= 2_000_000 {
            TaskClass::Normal
        } else {
            TaskClass::Hog
        }
    }

    /// The class whose limits the base slice falls under.
    pub fn as_class_idx(&self) -> (r: TaskClass)
        ensures
            r == self.limit_class(),
    {
        if self.base_slice_ns <= 500_000 {
            TaskClass::LatencyCritical
        } else if self.base_slice_ns <= 2_000_000 {
            TaskClass::Normal
        } else {
            TaskClass::Hog
        }
    }

    /// The relative error of a percentile, in millionths, weighted with half the
    /// criticality on top.
    pub open spec fn weighted_error(self, p99_ns: u64) -> int {
        (p99_ns - self.target.target_p99_ns) * 1_000_000 / self.target.target_p99_ns as int * (2048
            + self.criticality.score) / 2048
    }

    fn error_of(&self, p99_ns: u64) -> (r: i128)
        requires
            self.wf(),
        ensures
            r == self.weighted_error(p99_ns),
            -MAX_ERROR <= r <= MAX_ERROR,
    {
        let target: i128 = self.target.target_p99_ns as i128;
        let distance: i128 = (p99_ns as i128 - target) * 1_000_000;
        let error: i128 = floor_div(distance, target);
        proof {
            let (n, d) = (distance as int, target as int);
            assert(-1_000_000 <= n / d <= 0x1_0000_0000_0000_0000 * 1_000_000) by (nonlinear_arith)
                requires
                    -1_000_000 * d <= n <= 0x1_0000_0000_0000_0000 * 1_000_000,
                    d >= 1,
            ;
            let (e, w) = (error as int, 2048 + self.criticality.score);
            assert(-1_000_000 * 3072 <= e * w <= 0x1_0000_0000_0000_0000 * 1_000_000 * 3072)
                by (nonlinear_arith)
                requires
                    -1_000_000 <= e <= 0x1_0000_0000_0000_0000 * 1_000_000,
                    2048 <= w <= 3072,
            ;
        }
        floor_div(error * (2048 + self.criticality.score as i128), 2048)
    }

    /// The slice after a percentile: the base slice less the part that the loop takes away,
    /// within the limits of the base slice. Where nothing was measured, the base slice.
    pub open spec fn next_slice(self, p99_ns: u64, dt_ns: u64) -> int {
        if p99_ns == 0 {
            self.base_slice_ns as int
        } else {
            let (lo, hi) = limits_of(self.limit_class());
            let output = self.pid.output(self.weighted_error(p99_ns) as i128, dt_ns);
            let scale = if output > 1_000_000 {
                0
            } else {
                1_000_000 - output
            };
            let most = self.base_slice_ns * hi / 10;
            let slice = between(
                self.base_slice_ns * scale / 1_000_000,
                self.base_slice_ns * lo / 10,
                most,
            );
            if slice > u64::MAX {
                u64::MAX as int
            } else {
                slice
            }
        }
    }

    /// The state after a percentile.
    pub open spec fn controlled(self, p99_ns: u64, dt_ns: u64) -> ClassControllerState {
        if p99_ns == 0 {
            ClassControllerState { measured_p99_ns: 0, ..self }
        } else {
            ClassControllerState {
                measured_p99_ns: p99_ns,
                pid: self.pid.after(self.weighted_error(p99_ns) as i128, dt_ns),
                current_slice_ns: self.next_slice(p99_ns, dt_ns) as u64,
                ..self
            }
        }
    }

    /// Takes in a percentile, and returns the slice.
    pub fn compute_control(&mut self, measured_p99_ns: u64, dt_ns: u64) -> (r: u64)
        requires
            old(self).wf(),
        ensures
            final(self).wf(),
            r == old(self).next_slice(measured_p99_ns, dt_ns),
            *final(self) == old(self).controlled(measured_p99_ns, dt_ns),
    {
        self.measured_p99_ns = measured_p99_ns;
        if measured_p99_ns == 0 {
            return self.base_slice_ns;
        }
        let error: i128 = self.error_of(measured_p99_ns);
        let output: i64 = self.pid.compute(error, dt_ns);
        let scale: u128 = if output > 1_000_000 {
            0
        } else {
            (1_000_000 - output as i128) as u128
        };
        let base: u128 = self.base_slice_ns as u128;
        let (lo, hi) = self.as_class_idx().output_limits();
        proof {
            let (b, s) = (base as int, scale as int);
            assert(0 <= b * s <= 0xffff_ffff_ffff_ffff * 0x8000_0000_0020_0000) by (nonlinear_arith)
                requires
                    0 <= b <= 0xffff_ffff_ffff_ffff,
                    0 <= s <= 0x8000_0000_0020_0000,
            ;
            assert(0 <= b * lo <= 20 * u64::MAX) by (nonlinear_arith)
                requires
                    0 <= b <= u64::MAX,
                    0 <= lo <= 20,
            ;
            assert(0 <= b * hi <= 20 * u64::MAX) by (nonlinear_arith)
                requires
                    0 <= b <= u64::MAX,
                    0 <= hi <= 20,
            ;
        }
        let wanted: u128 = base * scale / 1_000_000;
        let least: u128 = base * lo as u128 / 10;
        let most: u128 = base * hi as u128 / 10;
        let within: u128 = if wanted < least {
            least
        } else if wanted > most {
            most
        } else {
            wanted
        };
        let slice: u64 = if within > u64::MAX as u128 {
            u64::MAX
        } else {
            within as u64
        };
        self.current_slice_ns = slice;
        slice
    }

    /// The current slice in microseconds.
    pub fn get_slice_us(&self) -> (r: u64)
        ensures
            r == self.current_slice_ns as int / 1000,
    {
        self.current_slice_ns / 1000
    }
}

/// Controller of all classes.
#[derive(Clone, Copy, Debug)]
pub struct PidTailLatencyController {
    /// Normal, hog, latency critical.
    pub class_states: [ClassControllerState; 3],
    /// Time between adjustments.
    pub control_interval_ns: u64,
    /// Time of the last adjustment.
    pub last_update_ns: u64,
    /// Preemption threshold.
    pub preempt_threshold: u32,
    /// Whether the controller adjusts anything.
    pub enabled: bool,
}

/// The next preemption threshold: lower, for easier preemption, the further the
/// latency of latency-critical tasks lies above its target; higher where it is
/// below half of it.
pub open spec fn next_threshold(current: u32, latency_ns: u64, target_ns: u64) -> int {
    if latency_ns == 0 {
        current as int
    } else if latency_ns > 2 * target_ns {
        if current - 32 >= 64 { current - 32 } else { 64 }
    } else if 2 * latency_ns > 3 * target_ns {
        if current - 16 >= 64 { current - 16 } else { 64 }
    } else if 2 * latency_ns < target_ns {
        if current + 16 <= 256 { current + 16 } else { 256 }
    } else {
        current as int
    }
}

impl PidTailLatencyController {
    /// The state of each class is well formed.
    pub open spec fn wf(self) -> bool {
        forall|i: int| 0 <= i < 3 ==> (#[trigger] self.class_states@[i]).wf()
    }

    /// A controller with the default targets and an interval of half a second.
    pub fn new(
        lc_base_slice_us: u64,
        normal_base_slice_us: u64,
        hog_base_slice_us: u64,
        enabled: bool,
        now_ns: u64,
    ) -> (r: Self)
        requires
            lc_base_slice_us * 1000 <= u64::MAX,
            normal_base_slice_us * 1000 <= u64::MAX,
            hog_base_slice_us * 1000 <= u64::MAX,
        ensures
            r.wf(),
            is_starting(
                r.class_states[0],
                TaskClass::Normal,
                target_of(DEFAULT_NORMAL_TARGET_US),
                normal_base_slice_us,
            ),
            is_starting(
                r.class_states[1],
                TaskClass::Hog,
                bounded_target_of(DEFAULT_HOG_MAX_US),
                hog_base_slice_us,
            ),
            is_starting(
                r.class_states[2],
                TaskClass::LatencyCritical,
                target_of(DEFAULT_LC_TARGET_US),
                lc_base_slice_us,
            ),
            r.control_interval_ns == 500_000_000,
            r.last_update_ns == now_ns,
            r.preempt_threshold == 128,
            r.enabled == enabled,
    {
        let lc_target = ClassLatencyTarget::from_micros(DEFAULT_LC_TARGET_US);
        let normal_target = ClassLatencyTarget::from_micros(DEFAULT_NORMAL_TARGET_US);
        let hog_target = ClassLatencyTarget::bounded_max(DEFAULT_HOG_MAX_US);
        PidTailLatencyController {
            class_states: [
                ClassControllerState::new(TaskClass::Normal, normal_target, normal_base_slice_us),
                ClassControllerState::new(TaskClass::Hog, hog_target, hog_base_slice_us),
                ClassControllerState::new(
                    TaskClass::LatencyCritical,
                    lc_target,
                    lc_base_slice_us,
                ),
            ],
            control_interval_ns: 500_000_000,
            last_update_ns: now_ns,
            preempt_threshold: 128,
            enabled,
        }
    }

    /// The controller with other targets.
    pub fn with_targets(self, lc_target_us: u64, normal_target_us: u64, hog_max_us: u64) -> (r: Self)
        requires
            lc_target_us * 1000 <= u64::MAX,
            normal_target_us * 1000 <= u64::MAX,
            hog_max_us * 1000 <= u64::MAX,
        ensures
            r.class_states[0] == (ClassControllerState {
                target: target_of(normal_target_us),
                ..self.class_states[0]
            }),
            r.class_states[1] == (ClassControllerState {
                target: bounded_target_of(hog_max_us),
                ..self.class_states[1]
            }),
            r.class_states[2] == (ClassControllerState {
                target: target_of(lc_target_us),
                ..self.class_states[2]
            }),
            r.same_but_states(self),
            self.wf() && lc_target_us > 0 && normal_target_us > 0 && hog_max_us > 0 ==> r.wf(),
    {
        let mut c = self;
        assert(c.class_states@[0] == c.class_states[0] && c.class_states@[1] == c.class_states[1]
            && c.class_states@[2] == c.class_states[2]);
        let mut normal = c.class_states[0];
        normal.target = ClassLatencyTarget::from_micros(normal_target_us);
        c.class_states[0] = normal;
        let mut hog = c.class_states[1];
        hog.target = ClassLatencyTarget::bounded_max(hog_max_us);
        c.class_states[1] = hog;
        let mut lc = c.class_states[2];
        lc.target = ClassLatencyTarget::from_micros(lc_target_us);
        c.class_states[2] = lc;
        c
    }

    /// The controller with other gains, in thousandths, for the loop of a class.
    pub fn with_pid_gains(self, class: TaskClass, kp: u64, ki: u64, kd: u64) -> (r: Self)
        ensures
            r.class_states@ == self.class_states@.update(
                class.number() as int,
                ClassControllerState {
                    pid: loop_of(class, (kp, ki, kd)),
                    ..self.class_states@[class.number() as int]
                },
            ),
            r.same_but_states(self),
            self.wf() && kp <= MAX_GAIN && ki <= MAX_GAIN && kd <= MAX_GAIN ==> r.wf(),
    {
        let mut c = self;
        let idx: usize = class.as_usize();
        let mut state = c.class_states[idx];
        state.pid = class_loop(class, (kp, ki, kd));
        c.class_states[idx] = state;
        c
    }

    /// Nothing but class states differs.
    pub open spec fn same_but_states(self, other: PidTailLatencyController) -> bool {
        &&& self.control_interval_ns == other.control_interval_ns
        &&& self.last_update_ns == other.last_update_ns
        &&& self.preempt_threshold == other.preempt_threshold
        &&& self.enabled == other.enabled
    }

    /// The controller with another interval.
    pub fn with_interval(self, interval_ns: u64) -> (r: Self)
        ensures
            r == (PidTailLatencyController { control_interval_ns: interval_ns, ..self }),
    {
        let mut c = self;
        c.control_interval_ns = interval_ns;
        c
    }

    /// An adjustment is due: the controller is on, and the interval has passed.
    pub open spec fn due(self, now_ns: u64) -> bool {
        self.enabled && now_ns - self.last_update_ns >= self.control_interval_ns
    }

    /// Whether an adjustment is due.
    pub fn is_due(&self, now_ns: u64) -> (r: bool)
        requires
            now_ns >= self.last_update_ns,
        ensures
            r == self.due(now_ns),
    {
        self.enabled && now_ns - self.last_update_ns >= self.control_interval_ns
    }

    /// Adjusts all classes if that is due, by what the kernel side measured of each.
    /// Returns the slices of latency-critical tasks, normal tasks and hogs in
    /// microseconds, and the preemption threshold.
    pub fn update(
        &mut self,
        latency_stats: &[ClassLatencyStat; 3],
        criticality_stats: &[ClassCriticalityMetrics; 3],
        now_ns: u64,
    ) -> (r: (u64, u64, u64, u32))
        requires
            old(self).wf(),
            now_ns >= old(self).last_update_ns,
            forall|i: int| 0 <= i < 3 ==> #[trigger] runtime_fits(criticality_stats@[i]),
        ensures
            final(self).wf(),
            r == final(self).values(),
            is_round(*old(self), latency_stats@, criticality_stats@, now_ns, *final(self)),
    {
        if !self.is_due(now_ns) {
            return self.get_current_values();
        }
        let dt_ns: u64 = now_ns - self.last_update_ns;
        let mut i: usize = 0;
        while i < 3
            invariant
                i <= 3,
                old(self).wf(),
                self.wf(),
                self.same_but_states(*old(self)),
                forall|k: int| 0 <= k < 3 ==> #[trigger] runtime_fits(criticality_stats@[k]),
                forall|k: int|
                    0 <= k < i ==> is_adjusted(
                        old(self).class_states@[k],
                        latency_stats@[k],
                        criticality_stats@[k],
                        dt_ns,
                        #[trigger] self.class_states@[k],
                    ),
                forall|k: int|
                    i <= k < 3 ==> #[trigger] self.class_states@[k] == old(self).class_states@[k],
            decreases 3 - i,
        {
            let mut state = self.class_states[i];
            assert(state == self.class_states@[i as int]);
            assert(runtime_fits(criticality_stats@[i as int]));
            adjust(&mut state, &latency_stats[i], &criticality_stats[i], dt_ns);
            self.class_states[i] = state;
            i = i + 1;
        }
        let preempt: u32 = self.adjust_preemption_threshold(
            self.class_states[2].measured_p99_ns,
            self.class_states[2].target.target_p99_ns,
        );
        self.preempt_threshold = preempt;
        self.last_update_ns = now_ns;
        self.get_current_values()
    }

    /// The next preemption threshold for a latency of latency-critical tasks and its
    /// target.
    pub fn adjust_preemption_threshold(&self, lc_latency_ns: u64, lc_target_ns: u64) -> (r: u32)
        ensures
            r == next_threshold(self.preempt_threshold, lc_latency_ns, lc_target_ns),
    {
        let current: u32 = self.preempt_threshold;
        if lc_latency_ns == 0 {
            return current;
        }
        let latency: u128 = lc_latency_ns as u128;
        let target: u128 = lc_target_ns as u128;
        if latency > 2 * target {
            current.saturating_sub(32).max(64)
        } else if 2 * latency > 3 * target {
            current.saturating_sub(16).max(64)
        } else if 2 * latency < target {
            current.saturating_add(16).min(256)
        } else {
            current
        }
    }

    /// The slices of latency-critical tasks, normal tasks and hogs in microseconds, and
    /// the preemption threshold.
    pub open spec fn values(self) -> (u64, u64, u64, u32) {
        (
            (self.class_states[2].current_slice_ns as int / 1000) as u64,
            (self.class_states[0].current_slice_ns as int / 1000) as u64,
            (self.class_states[1].current_slice_ns as int / 1000) as u64,
            self.preempt_threshold,
        )
    }

    /// The slices in microseconds, and the preemption threshold.
    pub fn get_current_values(&self) -> (r: (u64, u64, u64, u32))
        ensures
            r == self.values(),
    {
        (
            self.class_states[2].get_slice_us(),
            self.class_states[0].get_slice_us(),
            self.class_states[1].get_slice_us(),
            self.preempt_threshold,
        )
    }

    /// Of each class its target and its last percentile in microseconds, its criticality
    /// score, and that as a fraction of the largest.
    pub fn get_telemetry(&self) -> (r: Vec<(TaskClass, u64, u64, u32, Ratio)>)
        ensures
            r@.len() == 3,
            forall|i: int|
                0 <= i < 3 ==> (#[trigger] r@[i]).0.number() == i && r@[i].1
                    == self.class_states[i].target.target_p99_ns as int / 1000 && r@[i].2
                    == self.class_states[i].measured_p99_ns as int / 1000 && r@[i].3
                    == self.class_states[i].criticality.score && r@[i].4 == (Ratio {
                    num: r@[i].3 as u64,
                    den: 1024,
                }),
    {
        let mut out: Vec<(TaskClass, u64, u64, u32, Ratio)> = Vec::new();
        let mut i: usize = 0;
        while i < 3
            invariant
                i <= 3,
                out@.len() == i,
                forall|j: int|
                    0 <= j < i ==> (#[trigger] out@[j]).0.number() == j && out@[j].1
                        == self.class_states[j].target.target_p99_ns as int / 1000 && out@[j].2
                        == self.class_states[j].measured_p99_ns as int / 1000 && out@[j].3
                        == self.class_states[j].criticality.score && out@[j].4 == (Ratio {
                        num: out@[j].3 as u64,
                        den: 1024,
                    }),
            decreases 3 - i,
        {
            let state = self.class_states[i];
            out.push(
                (
                    TaskClass::from_u32(i as u32),
                    state.target.target_p99_ns / 1000,
                    state.measured_p99_ns / 1000,
                    state.criticality.score,
                    state.criticality.normalized(),
                ),
            );
            i = i + 1;
        }
        out
    }

    /// Whether the controller adjusts anything.
    pub fn is_enabled(&self) -> (r: bool)
        ensures
            r == self.enabled,
    {
        self.enabled
    }

    /// Turns the controller on or off.
    pub fn set_enabled(&mut self, enabled: bool)
        ensures
            *final(self) == (PidTailLatencyController { enabled, ..*old(self) }),
    {
        self.enabled = enabled;
    }

    /// Lets the loops forget all errors, and starts a new interval.
    pub fn reset(&mut self, now_ns: u64)
        requires
            old(self).wf(),
        ensures
            final(self).wf(),
            forall|i: int|
                0 <= i < 3 ==> #[trigger] final(self).class_states@[i] == (ClassControllerState {
                    pid: EmaPidController {
                        ema_error: 0,
                        prev_error: 0,
                        ..old(self).class_states@[i].pid
                    },
                    ..old(self).class_states@[i]
                }),
            final(self).last_update_ns == now_ns,
            final(self).control_interval_ns == old(self).control_interval_ns,
            final(self).preempt_threshold == old(self).preempt_threshold,
            final(self).enabled == old(self).enabled,
    {
        let mut i: usize = 0;
        while i < 3
            invariant
                i <= 3,
                old(self).wf(),
                self.wf(),
                self.same_but_states(*old(self)),
                forall|k: int|
                    0 <= k < 3 ==> #[trigger] self.class_states@[k] == if k < i {
                        ClassControllerState {
                            pid: EmaPidController {
                                ema_error: 0,
                                prev_error: 0,
                                ..old(self).class_states@[k].pid
                            },
                            ..old(self).class_states@[k]
                        }
                    } else {
                        old(self).class_states@[k]
                    },
            decreases 3 - i,
        {
            let mut state = self.class_states[i];
            assert(state == self.class_states@[i as int]);
            state.pid.reset();
            self.class_states[i] = state;
            i = i + 1;
        }
        self.last_update_ns = now_ns;
    }
}

/// `r` is a class at its base slice.
pub open spec fn is_starting(
    r: ClassControllerState,
    class: TaskClass,
    target: ClassLatencyTarget,
    base_slice_us: u64,
) -> bool {
    &&& r.target == target
    &&& r.pid == loop_of(class, gains_of(class))
    &&& r.ema_histogram.empty()
    &&& r.ema_histogram.alpha == 200
    &&& r.criticality == no_score()
    &&& r.measured_p99_ns == 0
    &&& r.current_slice_ns == base_slice_us * 1000
    &&& r.base_slice_ns == base_slice_us * 1000
}

/// `after` is the state of a class after what was measured of it: its score and its
/// histogram are brought up to date, and if that gives a percentile, the slice follows
/// from it within the limits of all slices.
pub open spec fn is_adjusted(
    before: ClassControllerState,
    stat: ClassLatencyStat,
    crit: ClassCriticalityMetrics,
    dt_ns: u64,
    after: ClassControllerState,
) -> bool {
    let seen = ClassControllerState {
        criticality: before.next_score(crit),
        ema_histogram: after.ema_histogram,
        ..before
    };
    &&& after.ema_histogram.follows(before.ema_histogram, stat.histogram@)
    &&& after == match after.ema_histogram.p99() {
        Some(p99) => ClassControllerState {
            current_slice_ns: between(
                seen.next_slice(p99, dt_ns),
                MIN_SLICE_NS as int,
                MAX_SLICE_NS as int,
            ) as u64,
            ..seen.controlled(p99, dt_ns)
        },
        None => seen,
    }
}

fn adjust(
    state: &mut ClassControllerState,
    stat: &ClassLatencyStat,
    crit: &ClassCriticalityMetrics,
    dt_ns: u64,
)
    requires
        old(state).wf(),
        runtime_fits(*crit),
    ensures
        final(state).wf(),
        is_adjusted(*old(state), *stat, *crit, dt_ns, *final(state)),
{
    state.update_criticality(crit);
    state.update_histogram(stat);
    if let Some(p99_ns) = state.calculate_p99_ema() {
        let slice: u64 = state.compute_control(p99_ns, dt_ns);
        state.current_slice_ns = if slice < MIN_SLICE_NS {
            MIN_SLICE_NS
        } else if slice > MAX_SLICE_NS {
            MAX_SLICE_NS
        } else {
            slice
        };
    }
}

/// A slice that follows from a percentile lies within the limits of its base slice, and
/// after an adjustment every such slice lies within the limits of all slices.
pub proof fn slices_stay_within_limits(
    before: ClassControllerState,
    stat: ClassLatencyStat,
    crit: ClassCriticalityMetrics,
    dt_ns: u64,
    after: ClassControllerState,
    p99_ns: u64,
)
    requires
        is_adjusted(before, stat, crit, dt_ns, after),
    ensures
        after.ema_histogram.p99() is Some ==> MIN_SLICE_NS <= after.current_slice_ns <= MAX_SLICE_NS,
        after.ema_histogram.p99() is None ==> after.current_slice_ns == before.current_slice_ns,
        p99_ns > 0 && before.base_slice_ns * limits_of(before.limit_class()).1 / 10 <= u64::MAX ==> {
            let (lo, hi) = limits_of(before.limit_class());
            before.base_slice_ns * lo / 10 <= before.next_slice(p99_ns, dt_ns)
                <= before.base_slice_ns * hi / 10
        },
{
    let (lo, hi) = limits_of(before.limit_class());
    let base = before.base_slice_ns as int;
    assert(base * lo <= base * hi) by (nonlinear_arith)
        requires
            base >= 0,
            lo <= hi,
    ;
}

proof fn lemma_error_fits(s: ClassControllerState, p99_ns: u64)
    requires
        s.wf(),
    ensures
        -MAX_ERROR <= s.weighted_error(p99_ns) <= MAX_ERROR,
{
    let t = s.target.target_p99_ns as int;
    let n = (p99_ns - t) * 1_000_000;
    let (e, w) = (n / t, 2048 + s.criticality.score);
    assert(-1_000_000 <= n / t <= 0x1_0000_0000_0000_0000 * 1_000_000) by (nonlinear_arith)
        requires
            -1_000_000 * t <= n <= 0x1_0000_0000_0000_0000 * 1_000_000,
            t >= 1,
    ;
    assert(-1_000_000 * 3072 <= e * w <= 0x1_0000_0000_0000_0000 * 1_000_000 * 3072) by (nonlinear_arith)
        requires
            -1_000_000 <= e <= 0x1_0000_0000_0000_0000 * 1_000_000,
            2048 <= w <= 3072,
    ;
}

/// A loop at rest leaves the base slice of a class that is exactly at its target alone.
pub proof fn slices_rest_at_the_target(s: ClassControllerState, dt_ns: u64)
    requires
        s.wf(),
        s.pid.ema_error == 0,
        s.pid.prev_error == 0,
        s.pid.min_output <= 0 <= s.pid.max_output,
    ensures
        s.next_slice(s.target.target_p99_ns, dt_ns) == s.base_slice_ns,
        s.controlled(s.target.target_p99_ns, dt_ns).pid == s.pid,
{
    let w = s.pid.weight(dt_ns);
    assert(s.weighted_error(s.target.target_p99_ns) == 0) by {
        let t = s.target.target_p99_ns as int;
        assert(0int / t == 0) by (nonlinear_arith)
            requires
                t > 0,
        ;
    }
    assert(0 * (1_000_000 - w) + 0 * w == 0) by (nonlinear_arith);
    assert(s.pid.next_ema(0, dt_ns) == 0);
    assert(0int / crate::autoland::pid::time_step(dt_ns) == 0) by (nonlinear_arith)
        requires
            crate::autoland::pid::time_step(dt_ns) > 0,
    ;
    assert(s.pid.kp * 0 == 0 && s.pid.ki * 0 == 0 && s.pid.kd * 0 == 0);
    assert(s.pid.output(0, dt_ns) == 0);
    let base = s.base_slice_ns as int;
    let (lo, hi) = limits_of(s.limit_class());
    assert(base * lo / 10 <= base <= base * hi / 10) by (nonlinear_arith)
        requires
            base >= 0,
            0 <= lo <= 8,
            hi >= 15,
    ;
    let scale = 1_000_000 - s.pid.output(0, dt_ns);
    assert(base * scale / 1_000_000 == base) by (nonlinear_arith)
        requires
            scale == 1_000_000,
    ;
    assert(s.weighted_error(s.target.target_p99_ns) as i128 == 0);
}

/// A higher percentile never gives a class a longer slice.
pub proof fn higher_latency_never_lengthens_slices(
    s: ClassControllerState,
    p99_ns: u64,
    higher_ns: u64,
    dt_ns: u64,
)
    requires
        s.wf(),
        0 < p99_ns <= higher_ns,
    ensures
        s.next_slice(higher_ns, dt_ns) <= s.next_slice(p99_ns, dt_ns),
{
    let t = s.target.target_p99_ns as int;
    let (a, b) = ((p99_ns - t) * 1_000_000 / t, (higher_ns - t) * 1_000_000 / t);
    vstd::arithmetic::div_mod::lemma_div_is_ordered(
        (p99_ns - t) * 1_000_000,
        (higher_ns - t) * 1_000_000,
        t,
    );
    let w = 2048 + s.criticality.score;
    assert(a * w <= b * w) by (nonlinear_arith)
        requires
            a <= b,
            w >= 0,
    ;
    vstd::arithmetic::div_mod::lemma_div_is_ordered(a * w, b * w, 2048);
    lemma_error_fits(s, p99_ns);
    lemma_error_fits(s, higher_ns);
    let (e, f) = (s.weighted_error(p99_ns) as i128, s.weighted_error(higher_ns) as i128);
    crate::autoland::pid::outputs_follow_the_error(s.pid, e, f, dt_ns);
    let (x, y) = (s.pid.output(e, dt_ns), s.pid.output(f, dt_ns));
    let scale_x: int = if x > 1_000_000 { 0 } else { 1_000_000 - x };
    let scale_y: int = if y > 1_000_000 { 0 } else { 1_000_000 - y };
    let base = s.base_slice_ns as int;
    assert(base * scale_y <= base * scale_x) by (nonlinear_arith)
        requires
            base >= 0,
            scale_y <= scale_x,
    ;
    vstd::arithmetic::div_mod::lemma_div_is_ordered(base * scale_y, base * scale_x, 1_000_000);
    let (lo, hi) = limits_of(s.limit_class());
    assert(base * lo <= base * hi) by (nonlinear_arith)
        requires
            base >= 0,
            lo <= hi,
    ;
}

/// A threshold within its range stays there.
pub proof fn threshold_stays_in_range(current: u32, latency_ns: u64, target_ns: u64)
    requires
        64 <= current <= 256,
    ensures
        64 <= next_threshold(current, latency_ns, target_ns) <= 256,
{
}

/// Every target lies within the range that is acceptable for it.
pub proof fn targets_are_acceptable(us: u64)
    requires
        us * 1000 <= u64::MAX,
    ensures
        target_of(us).min_acceptable_ns <= target_of(us).target_p99_ns
            <= target_of(us).max_acceptable_ns,
        bounded_target_of(us).min_acceptable_ns <= bounded_target_of(us).target_p99_ns
            <= bounded_target_of(us).max_acceptable_ns,
{
}

/// The bound of the first bucket is a microsecond, and each bucket goes up to twice the
/// latency of the one before it.
pub proof fn bounds_double_from_bucket_to_bucket(i: int)
    requires
        i >= 0,
    ensures
        bucket_bound(0) == 1000,
        bucket_bound(i + 1) == 2 * bucket_bound(i),
        1000 <= bucket_bound(i),
        i <= 15 ==> bucket_bound(i) <= 32_768_000,
{
    reveal_with_fuel(power_of_two, 17);
    assert(power_of_two((i + 1) as nat) == 2 * power_of_two(i as nat));
    lemma_power_grows(0, i as nat);
    if i <= 15 {
        lemma_power_grows(i as nat, 15);
    }
}

/// The percentile of raw samples is the bound of a bucket that holds some: up to it lie at
/// least 99 hundredths of all samples, and before it less. Without samples it is 0.
pub proof fn raw_percentiles_split_the_samples(stat: ClassLatencyStat)
    ensures
        ({
            let h = stat.histogram@;
            let total = bucket_sum(h, 16);
            &&& total == 0 ==> p99_of(stat) == 0
            &&& total > 0 ==> exists|b: int|
                {
                    &&& 0 <= b < 16
                    &&& p99_of(stat) == #[trigger] bucket_bound(b)
                    &&& h[b] > 0
                    &&& bucket_sum(h, b + 1) * 100 >= total * 99
                    &&& bucket_sum(h, b) * 100 < total * 99
                }
            &&& total == h[0] + h[1] + h[2] + h[3] + h[4] + h[5] + h[6] + h[7] + h[8] + h[9] + h[10]
                + h[11] + h[12] + h[13] + h[14] + h[15]
            &&& forall|n: int|
                0 <= n < 16 ==> #[trigger] bucket_sum(h, n + 1) == bucket_sum(h, n) + h[n]
        }),
{
    percentiles_lie_among_samples(stat);
    reveal_with_fuel(bucket_sum, 17);
    let h = stat.histogram@;
    let total = bucket_sum(h, 16);
    if total > 0 {
        let b = bucket_reaching(h, (total * 99 + 99) / 100, 0)->0;
        assert(p99_of(stat) == bucket_bound(b));
    }
}

/// `after` is a controller after what was measured of its classes. Before its interval has
/// passed nothing changes.
pub open spec fn is_round(
    before: PidTailLatencyController,
    latency: Seq<ClassLatencyStat>,
    criticality: Seq<ClassCriticalityMetrics>,
    now_ns: u64,
    after: PidTailLatencyController,
) -> bool {
    &&& !before.due(now_ns) ==> after == before
    &&& before.due(now_ns) ==> {
        &&& forall|i: int|
            0 <= i < 3 ==> is_adjusted(
                before.class_states@[i],
                latency[i],
                criticality[i],
                (now_ns - before.last_update_ns) as u64,
                #[trigger] after.class_states@[i],
            )
        &&& after.preempt_threshold == next_threshold(
            before.preempt_threshold,
            after.class_states@[2].measured_p99_ns,
            after.class_states@[2].target.target_p99_ns,
        )
        &&& after.last_update_ns == now_ns
        &&& after.control_interval_ns == before.control_interval_ns
        &&& after.enabled == before.enabled
    }
}

/// Rounds of a controller that is on come no sooner than its interval. In each, a class with
/// ten samples and more of weight takes the percentile of its own histogram as what was
/// measured, and the preemption threshold follows latency-critical tasks alone: it falls by
/// 32 above twice their target, by 16 above one and a half times it, rises by 16 below half
/// of it, and rests in between.
pub proof fn rounds_answer_the_tails(
    before: PidTailLatencyController,
    latency: Seq<ClassLatencyStat>,
    criticality: Seq<ClassCriticalityMetrics>,
    now_ns: u64,
    after: PidTailLatencyController,
    i: int,
)
    requires
        is_round(before, latency, criticality, now_ns, after),
        before.wf(),
        now_ns >= before.last_update_ns,
        64 <= before.preempt_threshold <= 256,
        0 <= i < 3,
    ensures
        !before.enabled || now_ns - before.last_update_ns < before.control_interval_ns ==> after == before,
        before.enabled && now_ns - before.last_update_ns >= before.control_interval_ns ==> {
            let (s, t) = (before.class_states@[i], after.class_states@[i]);
            let (lc, target) = (
                after.class_states@[2].measured_p99_ns as int,
                after.class_states@[2].target.target_p99_ns as int,
            );
            let (old_bar, new_bar) = (before.preempt_threshold, after.preempt_threshold);
            &&& after.last_update_ns == now_ns
            &&& t.target == s.target
            &&& t.base_slice_ns == s.base_slice_ns
            &&& t.ema_histogram.p99() is None ==> t.current_slice_ns == s.current_slice_ns
                && t.measured_p99_ns == s.measured_p99_ns && t.pid == s.pid
            &&& t.ema_histogram.p99() matches Some(p) ==> t.measured_p99_ns == p && 100_000
                <= t.current_slice_ns <= 100_000_000
            &&& lc > 2 * target ==> new_bar == old_bar - 32 || new_bar == 64 && old_bar < 96
            &&& 3 * target < 2 * lc <= 4 * target ==> new_bar == old_bar - 16 || new_bar == 64
                && old_bar < 80
            &&& 0 < 2 * lc < target ==> new_bar == old_bar + 16 || new_bar == 256 && old_bar > 240
            &&& target <= 2 * lc <= 3 * target || lc == 0 ==> new_bar == old_bar
        },
{
    if before.due(now_ns) {
        let (s, t) = (before.class_states@[i], after.class_states@[i]);
        if let Some(p) = t.ema_histogram.p99() {
            bounds_double_from_bucket_to_bucket(0);
        }
    }
}

/// A higher latency of latency-critical tasks never makes preemption harder.
pub proof fn higher_tails_never_harden_preemption(
    current: u32,
    latency_ns: u64,
    higher_ns: u64,
    target_ns: u64,
)
    requires
        64 <= current <= 256,
        0 < latency_ns <= higher_ns,
    ensures
        next_threshold(current, higher_ns, target_ns) <= next_threshold(
            current,
            latency_ns,
            target_ns,
        ),
{
}

/// The error of a percentile has the sign of what it lies off its target. For a class that
/// does not behave as latency critical it is the relative distance, in millionths; for the
/// most critical one it is one and a half times that.
pub proof fn errors_are_relative(s: ClassControllerState, p99_ns: u64)
    requires
        s.target.target_p99_ns > 0,
        s.criticality.score <= 1024,
    ensures
        ({
            let (e, target) = (s.weighted_error(p99_ns), s.target.target_p99_ns as int);
            &&& p99_ns == target ==> e == 0
            &&& p99_ns >= target ==> e >= 0
            &&& p99_ns < target ==> e < 0
            &&& s.criticality.score == 0 ==> e * target <= (p99_ns - target) * 1_000_000 < e * target
                + target
            &&& s.criticality.score == 1024 ==> {
                let plain = (ClassControllerState {
                    criticality: crate::autoland::criticality::no_score(),
                    ..s
                }).weighted_error(p99_ns);
                2 * e <= 3 * plain < 2 * e + 2
            }
        }),
{
    let t = s.target.target_p99_ns as int;
    let n = (p99_ns - t) * 1_000_000;
    let q = n / t;
    vstd::arithmetic::div_mod::lemma_fundamental_div_mod(n, t);
    vstd::arithmetic::div_mod::lemma_mod_bound(n, t);
    assert(t * q == q * t) by (nonlinear_arith);
    if n >= 0 {
        assert(q >= 0) by (nonlinear_arith)
            requires
                q * t + t > n,
                n >= 0,
                t > 0,
        ;
    } else {
        assert(q < 0) by (nonlinear_arith)
            requires
                q * t <= n,
                n < 0,
                t > 0,
        ;
    }
    if n == 0 {
        assert(q == 0) by (nonlinear_arith)
            requires
                q * t <= 0,
                q * t + t > 0,
                q >= 0,
                t > 0,
        ;
    }
    let w = 2048 + s.criticality.score;
    if q >= 0 {
        assert(q * w >= 0) by (nonlinear_arith)
            requires
                q >= 0,
                w >= 0,
        ;
    } else {
        assert(q * w <= -w) by (nonlinear_arith)
            requires
                q <= -1,
                w >= 0,
        ;
    }
    assert(q == 0 ==> q * w == 0) by (nonlinear_arith);
    assert(w == 2048 ==> q * w == 2048 * q) by (nonlinear_arith);
    assert(w == 3072 ==> q * w == 3072 * q) by (nonlinear_arith);
    if s.criticality.score == 1024 {
        let plain = ClassControllerState {
            criticality: crate::autoland::criticality::no_score(),
            ..s
        };
        assert(plain.weighted_error(p99_ns) == q * 2048 / 2048);
    }
}

/// A class above its target whose error does not fall, and whose smoothed error is not
/// negative, gets no more than its base slice; one below its target whose error does not
/// rise, and whose smoothed error is not positive, gets no less.
pub proof fn slices_answer_the_side_of_the_target(s: ClassControllerState, p99_ns: u64, dt_ns: u64)
    requires
        s.wf(),
        p99_ns > 0,
        s.pid.min_output <= 0 <= s.pid.max_output,
    ensures
        p99_ns >= s.target.target_p99_ns && s.pid.ema_error >= 0 && s.pid.prev_error
            <= s.weighted_error(p99_ns) ==> s.next_slice(p99_ns, dt_ns) <= s.base_slice_ns,
        p99_ns <= s.target.target_p99_ns && s.pid.ema_error <= 0 && s.pid.prev_error
            >= s.weighted_error(p99_ns) ==> s.next_slice(p99_ns, dt_ns) >= s.base_slice_ns,
{
    lemma_error_fits(s, p99_ns);
    errors_are_relative(s, p99_ns);
    let e = s.weighted_error(p99_ns);
    crate::autoland::pid::smoothed_errors_stay_between(s.pid, e as i128, dt_ns);
    let ema = s.pid.next_ema(e as i128, dt_ns);
    let step = crate::autoland::pid::time_step(dt_ns);
    let rise = (e - s.pid.prev_error) * 1_000_000_000;
    let d = rise / step;
    assert(rise >= 0 ==> d >= 0) by (nonlinear_arith)
        requires
            d == rise / step,
            step > 0,
    ;
    assert(rise <= 0 ==> d <= 0) by (nonlinear_arith)
        requires
            d == rise / step,
            step > 0,
    ;
    let (kp, ki, kd) = (s.pid.kp as int, s.pid.ki as int, s.pid.kd as int);
    assert(e >= 0 ==> kp * e >= 0) by (nonlinear_arith)
        requires
            kp >= 0,
    ;
    assert(e <= 0 ==> kp * e <= 0) by (nonlinear_arith)
        requires
            kp >= 0,
    ;
    assert(ema >= 0 ==> ki * ema >= 0) by (nonlinear_arith)
        requires
            ki >= 0,
    ;
    assert(ema <= 0 ==> ki * ema <= 0) by (nonlinear_arith)
        requires
            ki >= 0,
    ;
    assert(d >= 0 ==> kd * d >= 0) by (nonlinear_arith)
        requires
            kd >= 0,
    ;
    assert(d <= 0 ==> kd * d <= 0) by (nonlinear_arith)
        requires
            kd >= 0,
    ;
    let output = s.pid.output(e as i128, dt_ns);
    let scale: int = if output > 1_000_000 { 0 } else { 1_000_000 - output };
    let base = s.base_slice_ns as int;
    let (lo, hi) = limits_of(s.limit_class());
    assert(base * lo / 10 <= base <= base * hi / 10) by (nonlinear_arith)
        requires
            base >= 0,
            0 <= lo <= 8,
            hi >= 15,
    ;
    let slice = base * scale / 1_000_000;
    assert(scale <= 1_000_000 ==> slice <= base) by (nonlinear_arith)
        requires
            slice == base * scale / 1_000_000,
            base >= 0,
    ;
    assert(scale >= 1_000_000 ==> slice >= base) by (nonlinear_arith)
        requires
            slice == base * scale / 1_000_000,
            base >= 0,
    ;
}

/// Latency-critical tasks have the most aggressive loop and the widest limits, hogs the
/// slowest loop and the narrowest limits.
pub proof fn classes_have_their_gains()
    ensures
        ({
            let (lc, normal, hog) = (
                gains_of(TaskClass::LatencyCritical),
                gains_of(TaskClass::Normal),
                gains_of(TaskClass::Hog),
            );
            &&& lc.0 == 1000 && normal.0 == 500 && hog.0 == 300
            &&& lc.1 == 50 && normal.1 == 100 && hog.1 == 150
            &&& lc.2 == 300 && normal.2 == 200 && hog.2 == 100
            &&& limits_of(TaskClass::LatencyCritical) == (5u64, 20u64)
            &&& limits_of(TaskClass::Normal) == (6u64, 18u64)
            &&& limits_of(TaskClass::Hog) == (8u64, 15u64)
        }),
{
}

/// The values that are reported are the slices of latency-critical tasks, normal tasks and
/// hogs in whole microseconds, and the preemption threshold.
pub proof fn reported_slices_are_microseconds(c: PidTailLatencyController)
    ensures
        ({
            let (lc, normal, hog, bar) = c.values();
            &&& 1000 * lc <= c.class_states[2].current_slice_ns < 1000 * lc + 1000
            &&& 1000 * normal <= c.class_states[0].current_slice_ns < 1000 * normal + 1000
            &&& 1000 * hog <= c.class_states[1].current_slice_ns < 1000 * hog + 1000
            &&& bar == c.preempt_threshold
        }),
{
}

/// A score is updated with what was counted of the class by the number of its samples, of
/// which there is at least one: the mean run time, and as its variance the mean square less
/// the square of the mean, or nothing where that is negative.
pub proof fn moments_describe_the_samples(s: ClassControllerState, m: ClassCriticalityMetrics)
    requires
        runtime_fits(m),
        m.total_wakeup_count <= u32::MAX,
    ensures
        exists|mean: u64, variance: u64|
            {
                let n: int = if m.sample_count == 0 {
                    1
                } else {
                    m.sample_count as int
                };
                let square = variance + mean * mean;
                &&& s.next_score(m) == #[trigger] s.criticality.updated(
                    m.total_wakeup_count as u32,
                    mean,
                    variance,
                )
                &&& mean * n <= m.total_runtime_ns < mean * n + n
                &&& m.runtime_squared_sum < square * n + n
                &&& variance > 0 ==> square * n <= m.runtime_squared_sum
            },
{
    let n = samples(m);
    let (total, squares) = (m.total_runtime_ns as int, m.runtime_squared_sum as int);
    let (mean, mean_sq) = (total / n, squares / n);
    vstd::arithmetic::div_mod::lemma_fundamental_div_mod(total, n);
    vstd::arithmetic::div_mod::lemma_mod_bound(total, n);
    vstd::arithmetic::div_mod::lemma_fundamental_div_mod(squares, n);
    vstd::arithmetic::div_mod::lemma_mod_bound(squares, n);
    assert(n * mean == mean * n && n * mean_sq == mean_sq * n) by (nonlinear_arith);
    assert(0 <= mean <= total && 0 <= mean_sq <= squares && mean * mean >= 0) by (nonlinear_arith)
        requires
            mean == total / n,
            mean_sq == squares / n,
            total >= 0,
            squares >= 0,
            n >= 1,
    ;
    let variance = runtime_variance(m);
    let square = variance + mean * mean;
    assert(square >= mean_sq);
    assert(square * n >= mean_sq * n) by (nonlinear_arith)
        requires
            square >= mean_sq,
            n >= 1,
    ;
    let mean_ns = mean as u64;
    assert(mean_ns * mean_ns == mean * mean);
    assert(s.next_score(m) == s.criticality.updated(m.total_wakeup_count as u32, mean_ns, variance));
}

/// Base slices of up to half a millisecond may halve and double, those of up to two
/// milliseconds move between six tenths and eighteen, and longer ones between eight tenths
/// and fifteen.
pub proof fn shorter_base_slices_move_further(s: ClassControllerState, p99_ns: u64, dt_ns: u64)
    requires
        p99_ns > 0,
        s.base_slice_ns <= 1_000_000_000_000,
    ensures
        ({
            let (base, slice) = (s.base_slice_ns as int, s.next_slice(p99_ns, dt_ns));
            &&& base <= 500_000 ==> 5 * base < 10 * slice + 10 && 10 * slice <= 20 * base
            &&& 500_000 < base <= 2_000_000 ==> 6 * base < 10 * slice + 10 && 10 * slice <= 18 * base
            &&& base > 2_000_000 ==> 8 * base < 10 * slice + 10 && 10 * slice <= 15 * base
        }),
{
    let base = s.base_slice_ns as int;
    let (lo, hi) = limits_of(s.limit_class());
    assert(lo == 5 && hi == 20 || lo == 6 && hi == 18 || lo == 8 && hi == 15);
    assert(base * lo <= base * hi) by (nonlinear_arith)
        requires
            base >= 0,
            lo <= hi,
    ;
    assert(lo == 5 ==> base * lo == 5 * base) by (nonlinear_arith);
    assert(lo == 6 ==> base * lo == 6 * base) by (nonlinear_arith);
    assert(lo == 8 ==> base * lo == 8 * base) by (nonlinear_arith);
    assert(hi == 20 ==> base * hi == 20 * base) by (nonlinear_arith);
    assert(hi == 18 ==> base * hi == 18 * base) by (nonlinear_arith);
    assert(hi == 15 ==> base * hi == 15 * base) by (nonlinear_arith);
}

/// A target in microseconds is acceptable from a fifth of it to twice it, as far as that can
/// be held; a largest latency from a tenth of it to itself.
pub proof fn ranges_follow_the_target(us: u64)
    requires
        us * 1000 <= u64::MAX,
    ensures
        target_of(us).target_p99_ns == us * 1000,
        target_of(us).min_acceptable_ns == us * 200,
        us * 2000 <= u64::MAX ==> target_of(us).max_acceptable_ns == us * 2000,
        us * 2000 > u64::MAX ==> target_of(us).max_acceptable_ns == u64::MAX,
        bounded_target_of(us).target_p99_ns == us * 1000,
        bounded_target_of(us).min_acceptable_ns == us * 100,
        bounded_target_of(us).max_acceptable_ns == us * 1000,
{
}

} // verus!
