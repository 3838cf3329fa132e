//! Autorate: how the share of CPU time of each task class follows its load and
//! its delay over an adaptive latency baseline.
//!
//! Shares, rates and smoothing factors of the configuration are held in
//! thousandths; the shares that move are in [`crate::descent::shares`].

use vstd::prelude::*;

use crate::descent::profiles::{DESCENT_CLASS_MAX, PARAM_COUNT};
use crate::ratio::Ratio;

verus! {

/// The whole, in thousandths.
pub const WHOLE: u64 = 1000;

/// A signed number of thousandths brought into the range from nothing to the
/// whole.
pub open spec fn unit_clamp(x: int) -> int {
    if x < 0 {
        0
    } else if x > WHOLE {
        WHOLE as int
    } else {
        x
    }
}

fn clamp_unit(x: i64) -> (r: u64)
    ensures
        r == unit_clamp(x as int),
{
    if x < 0 {
        0
    } else if x > 1000 {
        1000
    } else {
        x as u64
    }
}

/// CPU share configuration of a class, in thousandths.
#[derive(Debug, Clone, Copy, PartialEq, Eq, Structural)]
pub struct ShareConfig {
    /// Smallest share, used during heavy congestion.
    pub min_share: u64,
    /// Share at the normal operating point.
    pub base_share: u64,
    /// Largest share allowed during high load.
    pub max_share: u64,
    /// Factor by which the share grows under load.
    pub ramp_up_rate: u64,
    /// Factor by which the share shrinks under congestion.
    pub ramp_down_rate: u64,
    /// Factor by which the distance to the base share shrinks when idle.
    pub decay_rate: u64,
}

impl ShareConfig {
    /// A share configuration; the three shares are brought into the range from
    /// nothing to the whole.
    pub fn new(
        min_share: i64,
        base_share: i64,
        max_share: i64,
        ramp_up_rate: u64,
        ramp_down_rate: u64,
        decay_rate: u64,
    ) -> (r: Self)
        ensures
            r.min_share == unit_clamp(min_share as int),
            r.base_share == unit_clamp(base_share as int),
            r.max_share == unit_clamp(max_share as int),
            r.ramp_up_rate == ramp_up_rate,
            r.ramp_down_rate == ramp_down_rate,
            r.decay_rate == decay_rate,
    {
        ShareConfig {
            min_share: clamp_unit(min_share),
            base_share: clamp_unit(base_share),
            max_share: clamp_unit(max_share),
            ramp_up_rate,
            ramp_down_rate,
            decay_rate,
        }
    }

    /// The shares are in order: smallest, base, largest.
    pub open spec fn valid(self) -> bool {
        self.min_share <= self.base_share <= self.max_share
    }

    /// Whether the shares are in order.
    pub fn is_valid(&self) -> (r: bool)
        ensures
            r == self.valid(),
    {
        self.min_share <= self.base_share && self.base_share <= self.max_share
    }
}

impl Default for ShareConfig {
    fn default() -> (r: Self)
        ensures
            r == (ShareConfig {
                min_share: 100,
                base_share: 250,
                max_share: 500,
                ramp_up_rate: 1100,
                ramp_down_rate: 900,
                decay_rate: 990,
            }),
    {
        ShareConfig {
            min_share: 100,
            base_share: 250,
            max_share: 500,
            ramp_up_rate: 1100,
            ramp_down_rate: 900,
            decay_rate: 990,
        }
    }
}

/// The share configuration of each class unless a configuration sets another:
/// latency critical, normal, hog, background.
pub open spec fn default_shares(class: int) -> ShareConfig {
    if class == 0 {
        ShareConfig { min_share: 150, base_share: 250, max_share: 400, ramp_up_rate: 1080, ramp_down_rate: 850, decay_rate: 980 }
    } else if class == 1 {
        ShareConfig { min_share: 150, base_share: 250, max_share: 350, ramp_up_rate: 1050, ramp_down_rate: 850, decay_rate: 980 }
    } else if class == 2 {
        ShareConfig { min_share: 200, base_share: 350, max_share: 600, ramp_up_rate: 1100, ramp_down_rate: 800, decay_rate: 980 }
    } else {
        ShareConfig { min_share: 50, base_share: 100, max_share: 150, ramp_up_rate: 1050, ramp_down_rate: 900, decay_rate: 950 }
    }
}

/// The share configuration of each class unless a configuration sets another.
pub fn default_share_configs() -> (r: [ShareConfig; DESCENT_CLASS_MAX])
    ensures
        forall|c: int| 0 <= c < DESCENT_CLASS_MAX ==> #[trigger] r[c] == default_shares(c),
{
    [
        ShareConfig::new(150, 250, 400, 1080, 850, 980),
        ShareConfig::new(150, 250, 350, 1050, 850, 980),
        ShareConfig::new(200, 350, 600, 1100, 800, 980),
        ShareConfig::new(50, 100, 150, 1050, 900, 950),
    ]
}

/// Configuration of the autorate controller.
#[derive(Debug, Clone, Copy)]
pub struct AutorateConfig {
    /// Whether autorate control is on.
    pub enabled: bool,
    /// Parameters per class at the smallest share.
    pub min_params: [[u64; PARAM_COUNT]; DESCENT_CLASS_MAX],
    /// Parameters per class at the base share.
    pub baseline_params: [[u64; PARAM_COUNT]; DESCENT_CLASS_MAX],
    /// Parameters per class at the largest share.
    pub max_params: [[u64; PARAM_COUNT]; DESCENT_CLASS_MAX],
    /// Load above which it counts as high, in thousandths.
    pub high_load_threshold: u64,
    /// Load below which it counts as low, in thousandths.
    pub low_load_threshold: u64,
    /// Factor of an upward step, in thousandths.
    pub ramp_up_rate: u64,
    /// Factor of a downward step, in thousandths.
    pub ramp_down_rate: u64,
    /// Factor of the decay toward the baseline, in thousandths.
    pub decay_rate: u64,
    /// Rest after an upward adjustment, in milliseconds.
    pub adjust_up_refractory_ms: u64,
    /// Rest after a downward adjustment, in milliseconds.
    pub adjust_down_refractory_ms: u64,
    /// Multiple of the target latency that counts as bufferbloat, in thousandths.
    pub bufferbloat_threshold: u64,
    /// Share configuration per class.
    pub share_configs: [ShareConfig; DESCENT_CLASS_MAX],
}

/// The configuration that a controller has unless a profile sets another.
pub open spec fn is_default_config(c: AutorateConfig) -> bool {
    &&& c.enabled
    &&& c.min_params == [[0u64; PARAM_COUNT]; DESCENT_CLASS_MAX]
    &&& c.baseline_params == [[0u64; PARAM_COUNT]; DESCENT_CLASS_MAX]
    &&& c.max_params == [[0u64; PARAM_COUNT]; DESCENT_CLASS_MAX]
    &&& c.high_load_threshold == HIGH_LOAD_THRESHOLD
    &&& c.low_load_threshold == IDLE_LOAD_THRESHOLD
    &&& c.ramp_up_rate == 1100
    &&& c.ramp_down_rate == 900
    &&& c.decay_rate == 990
    &&& c.adjust_up_refractory_ms == 100
    &&& c.adjust_down_refractory_ms == 50
    &&& c.bufferbloat_threshold == 1500
    &&& forall|i: int| 0 <= i < DESCENT_CLASS_MAX ==> #[trigger] c.share_configs[i] == default_shares(i)
}

impl AutorateConfig {
    /// A configuration with the default share of each class.
    pub fn new_with_default_shares() -> (r: Self)
        ensures
            is_default_config(r),
    {
        AutorateConfig {
            enabled: true,
            min_params: [[0; PARAM_COUNT]; DESCENT_CLASS_MAX],
            baseline_params: [[0; PARAM_COUNT]; DESCENT_CLASS_MAX],
            max_params: [[0; PARAM_COUNT]; DESCENT_CLASS_MAX],
            high_load_threshold: HIGH_LOAD_THRESHOLD,
            low_load_threshold: IDLE_LOAD_THRESHOLD,
            ramp_up_rate: 1100,
            ramp_down_rate: 900,
            decay_rate: 990,
            adjust_up_refractory_ms: 100,
            adjust_down_refractory_ms: 50,
            bufferbloat_threshold: 1500,
            share_configs: default_share_configs(),
        }
    }
}

impl Default for AutorateConfig {
    fn default() -> (r: Self)
        ensures
            is_default_config(r),
    {
        AutorateConfig::new_with_default_shares()
    }
}

/// Load below which the latency baseline follows the measurements, in thousandths.
pub const LOW_LOAD_THRESHOLD: u64 = 250;

/// Load above which a class explores a larger share, in thousandths.
pub const HIGH_LOAD_THRESHOLD: u64 = 700;

/// Load below which a class is idle, in thousandths.
pub const IDLE_LOAD_THRESHOLD: u64 = 200;

/// Weight of a new measurement in the latency baseline, in thousandths.
pub const BASELINE_EWMA_ALPHA: u64 = 200;

/// Weight of a new measurement in the smoothed latency, in thousandths.
pub const LATENCY_EWMA_ALPHA: u64 = 200;

/// Delay over the baseline below which latency counts as good.
pub const DELAY_THRESHOLD_NS: i64 = 500_000;

/// Delay over the baseline above which a class counts as starved.
pub const BUFFERBLOAT_THRESHOLD_NS: i64 = 2_000_000;

/// Number of consecutive readings before a state changes.
pub const STATE_HYSTERESIS_THRESHOLD: u32 = 2;

/// The mean of `new` and `old` with weight `alpha`, in thousandths, on `new`,
/// rounded down.
pub open spec fn blend(alpha: u64, new: u64, old: u64) -> int {
    (alpha * new + (WHOLE - alpha) * old) / WHOLE as int
}

/// A mean lies between what it is made of.
pub proof fn blend_stays_between(alpha: u64, new: u64, old: u64)
    requires
        alpha <= WHOLE,
    ensures
        new <= old ==> new <= blend(alpha, new, old) <= old,
        old <= new ==> old <= blend(alpha, new, old) <= new,
{
    let (a, n, o) = (alpha as int, new as int, old as int);
    let sum = a * n + (1000 - a) * o;
    assert(sum == 1000 * o + a * (n - o)) by (nonlinear_arith)
        requires
            sum == a * n + (1000 - a) * o,
    ;
    if n >= o {
        assert(0 <= a * (n - o) <= 1000 * (n - o)) by (nonlinear_arith)
            requires
                0 <= a <= 1000,
                n >= o,
        ;
    } else {
        assert(1000 * (n - o) <= a * (n - o) <= 0) by (nonlinear_arith)
            requires
                0 <= a <= 1000,
                n < o,
        ;
    }
}

pub(crate) fn mean(alpha: u64, new: u64, old_value: u64) -> (r: u64)
    requires
        alpha <= WHOLE,
    ensures
        r == blend(alpha, new, old_value),
{
    proof {
        blend_stays_between(alpha, new, old_value);
        crate::ratio::lemma_product_fits(alpha, new);
        assert(0 <= alpha * new <= 1000 * u64::MAX) by (nonlinear_arith)
            requires
                0 <= alpha <= 1000,
                0 <= new <= u64::MAX,
        ;
        assert(0 <= (1000 - alpha) * old_value <= 1000 * u64::MAX) by (nonlinear_arith)
            requires
                0 <= alpha <= 1000,
                0 <= old_value <= u64::MAX,
        ;
    }
    let sum: u128 = alpha as u128 * new as u128 + (1000 - alpha) as u128 * old_value as u128;
    (sum / 1000) as u64
}

/// Adaptive latency baseline of a class: it follows the measurements only while
/// load is low, so that it does not drift during congestion.
#[derive(Debug, Clone, Copy, PartialEq, Eq, Structural)]
pub struct LatencyBaseline {
    /// Baseline in nanoseconds.
    pub baseline_ns: u64,
    /// Time of the last update.
    pub last_update_ns: u64,
    /// Weight of a new measurement, in thousandths.
    pub alpha: u64,
}

impl LatencyBaseline {
    /// The weight is no more than the whole.
    pub open spec fn wf(self) -> bool {
        self.alpha <= WHOLE
    }

    /// A baseline with the default weight.
    pub fn new(initial_baseline_ns: u64) -> (r: Self)
        ensures
            r == (LatencyBaseline {
                baseline_ns: initial_baseline_ns,
                last_update_ns: 0,
                alpha: BASELINE_EWMA_ALPHA,
            }),
            r.wf(),
    {
        LatencyBaseline {
            baseline_ns: initial_baseline_ns,
            last_update_ns: 0,
            alpha: BASELINE_EWMA_ALPHA,
        }
    }

    /// A baseline with the given weight, brought between nothing and the whole.
    pub fn with_alpha(initial_baseline_ns: u64, alpha: i64) -> (r: Self)
        ensures
            r.baseline_ns == initial_baseline_ns,
            r.last_update_ns == 0,
            r.alpha == unit_clamp(alpha as int),
            r.wf(),
    {
        LatencyBaseline {
            baseline_ns: initial_baseline_ns,
            last_update_ns: 0,
            alpha: clamp_unit(alpha),
        }
    }

    /// The baseline after a measurement that it follows.
    pub open spec fn followed(self, measured_ns: u64, now_ns: u64) -> LatencyBaseline {
        LatencyBaseline {
            baseline_ns: blend(self.alpha, measured_ns, self.baseline_ns) as u64,
            last_update_ns: now_ns,
            alpha: self.alpha,
        }
    }

    /// The baseline after a measurement under the given load.
    pub open spec fn updated(self, measured_ns: u64, load: Ratio, now_ns: u64) -> LatencyBaseline {
        if load.below_milli(LOW_LOAD_THRESHOLD) {
            self.followed(measured_ns, now_ns)
        } else {
            self
        }
    }

    /// Follows a measurement if load is low.
    pub fn update(&mut self, measured_ns: u64, load: Ratio, now_ns: u64)
        requires
            old(self).wf(),
        ensures
            *final(self) == old(self).updated(measured_ns, load, now_ns),
            final(self).wf(),
    {
        if load.falls_below_milli(LOW_LOAD_THRESHOLD) {
            self.force_update(measured_ns, now_ns);
        }
    }

    /// Follows a measurement whatever the load.
    pub fn force_update(&mut self, measured_ns: u64, now_ns: u64)
        requires
            old(self).wf(),
        ensures
            *final(self) == old(self).followed(measured_ns, now_ns),
            final(self).wf(),
    {
        self.baseline_ns = mean(self.alpha, measured_ns, self.baseline_ns);
        self.last_update_ns = now_ns;
    }

    /// How far a measurement lies above the baseline.
    pub fn get_delay_delta(&self, measured_ns: u64) -> (r: i64)
        requires
            measured_ns <= i64::MAX,
            self.baseline_ns <= i64::MAX,
        ensures
            r == measured_ns - self.baseline_ns,
    {
        measured_ns as i64 - self.baseline_ns as i64
    }

    /// The ratio of a measurement to the baseline; one to one without a baseline.
    pub fn get_delay_ratio(&self, measured_ns: u64) -> (r: Ratio)
        ensures
            r == if self.baseline_ns == 0 {
                Ratio { num: 1, den: 1 }
            } else {
                Ratio { num: measured_ns, den: self.baseline_ns }
            },
            r.valid(),
    {
        if self.baseline_ns == 0 {
            return Ratio { num: 1, den: 1 };
        }
        Ratio { num: measured_ns, den: self.baseline_ns }
    }

    /// Whether the last update is longer ago than `max_age_ns`.
    pub fn is_stale(&self, now_ns: u64, max_age_ns: u64) -> (r: bool)
        ensures
            r == (now_ns - self.last_update_ns > max_age_ns),
    {
        now_ns.saturating_sub(self.last_update_ns) > max_age_ns
    }
}

impl Default for LatencyBaseline {
    fn default() -> (r: Self)
        ensures
            r == (LatencyBaseline { baseline_ns: 0, last_update_ns: 0, alpha: BASELINE_EWMA_ALPHA }),
    {
        LatencyBaseline { baseline_ns: 0, last_update_ns: 0, alpha: BASELINE_EWMA_ALPHA }
    }
}

/// What the autorate control of a class is doing.
#[derive(Debug, Clone, Copy, PartialEq, Eq, Hash, Structural)]
pub enum AutorateState {
    /// Little load: the share decays to its base.
    Idle,
    /// Tries larger shares.
    Exploring,
    /// Shrinks the share because of congestion.
    BackingOff,
    /// Keeps the share.
    Steady,
}

impl AutorateState {
    /// The name of the state.
    pub fn name(&self) -> (r: &'static str)
        ensures
            r@ == match *self {
                AutorateState::Idle => "IDLE"@,
                AutorateState::Exploring => "EXPLORING"@,
                AutorateState::BackingOff => "BACKING_OFF"@,
                AutorateState::Steady => "STEADY"@,
            },
    {
        match self {
            AutorateState::Idle => "IDLE",
            AutorateState::Exploring => "EXPLORING",
            AutorateState::BackingOff => "BACKING_OFF",
            AutorateState::Steady => "STEADY",
        }
    }

    /// Whether the latency baseline may be updated in this state.
    pub fn allows_baseline_update(&self) -> (r: bool)
        ensures
            r == (*self == AutorateState::Idle || *self == AutorateState::Steady),
    {
        matches!(self, AutorateState::Idle | AutorateState::Steady)
    }

    /// Whether the share changes on purpose in this state.
    pub fn is_adjusting(&self) -> (r: bool)
        ensures
            r == (*self == AutorateState::Exploring || *self == AutorateState::BackingOff),
    {
        matches!(self, AutorateState::Exploring | AutorateState::BackingOff)
    }
}

/// Direction of the last adjustment of a share.
#[derive(Debug, Clone, Copy, PartialEq, Eq, Structural)]
pub enum AdjustmentDirection {
    /// Toward the largest share.
    Up,
    /// Toward the smallest share.
    Down,
    /// Toward the base share.
    Neutral,
}

/// State of a class under control of a rate. No controller keeps such states any more; see
/// [`crate::descent::autorate_state::ClassAutorateState`].
#[derive(Debug, Clone, Copy, PartialEq, Eq, Structural)]
pub struct AutorateClassState {
    /// Rate in thousandths: nothing is the least, half the baseline, the whole the largest.
    pub current_rate: u64,
    /// Load as of the last update.
    pub load: Ratio,
    /// What the control is doing.
    pub state: AutorateState,
    /// Time of the last adjustment.
    pub last_adjustment_ns: u64,
    /// Direction of the last adjustment.
    pub last_adjustment_dir: AdjustmentDirection,
    /// Smoothed latency.
    pub latency_ewma_ns: u64,
    /// Latency measured before.
    pub prev_latency_ns: u64,
    /// Number of consecutive readings that asked for the pending state.
    pub consecutive_state_count: u32,
    /// State that the last readings asked for.
    pub pending_state: AutorateState,
}

/// A mean weighs what is new by its weight in thousandths and what was known by the rest.
pub proof fn means_weigh_in_thousandths(alpha: u64, new: u64, old: u64)
    ensures
        ({
            let r = blend(alpha, new, old);
            1000 * r <= alpha * new + (1000 - alpha) * old < 1000 * r + 1000
        }),
{
}

} // verus!
