//! The autorate state of one class: its share of CPU time, what its control is
//! doing, and its latency baseline.

use vstd::prelude::*;

use crate::descent::autorate::{
    blend, mean, AdjustmentDirection, AutorateState, LatencyBaseline, ShareConfig,
    BUFFERBLOAT_THRESHOLD_NS, DELAY_THRESHOLD_NS, HIGH_LOAD_THRESHOLD, IDLE_LOAD_THRESHOLD,
    LATENCY_EWMA_ALPHA, STATE_HYSTERESIS_THRESHOLD,
};
use crate::descent::profiles::DESCENT_CLASS_MAX;
use crate::descent::shares::{
    clamp_share, share_from_milli, share_of, unit_share, ShareMove, ONE,
};
use crate::ratio::Ratio;

verus! {

/// Autorate state of a class.
#[derive(Debug, Clone, Copy, PartialEq, Eq, Structural)]
pub struct ClassAutorateState {
    /// Share of CPU time, in billionths.
    pub current_share: u64,
    /// What the control is doing.
    pub state: AutorateState,
    /// Adaptive latency baseline.
    pub latency_baseline: LatencyBaseline,
    /// Time of the last change of state.
    pub last_state_change_ns: u64,
    /// Time of the last adjustment of the share.
    pub last_adjustment_ns: u64,
    /// Load as of the last update.
    pub load: Ratio,
    /// Last measured latency.
    pub measured_latency_ns: u64,
    /// How far it lay above the baseline.
    pub delay_delta_ns: i64,
    /// Smoothed latency.
    pub latency_ewma_ns: u64,
    /// Target latency.
    pub target_latency_ns: u64,
    /// State that the last readings asked for.
    pub pending_state: AutorateState,
    /// Number of consecutive readings that asked for it.
    pub consecutive_state_count: u32,
    /// Direction of the last adjustment.
    pub last_direction: AdjustmentDirection,
}

/// A class at rest at time `now_ns` with the given share and baseline.
pub open spec fn at_rest(share: u64, baseline: LatencyBaseline, now_ns: u64) -> ClassAutorateState {
    ClassAutorateState {
        current_share: share,
        state: AutorateState::Idle,
        latency_baseline: baseline,
        last_state_change_ns: now_ns,
        last_adjustment_ns: now_ns,
        load: Ratio { num: 0, den: 1 },
        measured_latency_ns: 0,
        delay_delta_ns: 0,
        latency_ewma_ns: 0,
        target_latency_ns: baseline.baseline_ns,
        pending_state: AutorateState::Idle,
        consecutive_state_count: 0,
        last_direction: AdjustmentDirection::Neutral,
    }
}

impl ClassAutorateState {
    /// The share is at most the whole, latencies fit a signed number, the load is a
    /// ratio, the count of readings can go on.
    pub open spec fn wf(self) -> bool {
        &&& self.current_share <= ONE
        &&& self.latency_baseline.wf()
        &&& self.latency_baseline.baseline_ns <= i64::MAX
        &&& self.measured_latency_ns <= i64::MAX
        &&& self.load.valid()
        &&& self.consecutive_state_count < u32::MAX
    }

    /// A class at rest; its share is brought between nothing and the whole.
    pub fn new(base_share: i64, initial_baseline_ns: u64, now_ns: u64) -> (r: Self)
        ensures
            r == at_rest(
                unit_share(base_share as int),
                LatencyBaseline {
                    baseline_ns: initial_baseline_ns,
                    last_update_ns: 0,
                    alpha: crate::descent::autorate::BASELINE_EWMA_ALPHA,
                },
                now_ns,
            ),
            initial_baseline_ns <= i64::MAX ==> r.wf(),
    {
        ClassAutorateState::resting(base_share, LatencyBaseline::new(initial_baseline_ns), now_ns)
    }

    /// A class at rest whose baseline gives new measurements the weight `alpha`, in
    /// thousandths.
    pub fn with_alpha(base_share: i64, initial_baseline_ns: u64, alpha: i64, now_ns: u64) -> (r:
        Self)
        ensures
            r == at_rest(unit_share(base_share as int), r.latency_baseline, now_ns),
            r.latency_baseline.baseline_ns == initial_baseline_ns,
            r.latency_baseline.last_update_ns == 0,
            r.latency_baseline.alpha == crate::descent::autorate::unit_clamp(alpha as int),
            initial_baseline_ns <= i64::MAX ==> r.wf(),
    {
        ClassAutorateState::resting(
            base_share,
            LatencyBaseline::with_alpha(initial_baseline_ns, alpha),
            now_ns,
        )
    }

    fn resting(base_share: i64, baseline: LatencyBaseline, now_ns: u64) -> (r: Self)
        ensures
            r == at_rest(unit_share(base_share as int), baseline, now_ns),
    {
        ClassAutorateState {
            current_share: clamp_share(base_share),
            state: AutorateState::Idle,
            latency_baseline: baseline,
            last_state_change_ns: now_ns,
            last_adjustment_ns: now_ns,
            load: Ratio { num: 0, den: 1 },
            measured_latency_ns: 0,
            delay_delta_ns: 0,
            latency_ewma_ns: 0,
            target_latency_ns: baseline.baseline_ns,
            pending_state: AutorateState::Idle,
            consecutive_state_count: 0,
            last_direction: AdjustmentDirection::Neutral,
        }
    }

    /// The state after a latency measurement was smoothed in; the first one is taken
    /// as it is.
    pub open spec fn measured(self, measured_ns: u64) -> ClassAutorateState {
        ClassAutorateState {
            latency_ewma_ns: if self.latency_ewma_ns == 0 {
                measured_ns
            } else {
                blend(LATENCY_EWMA_ALPHA, measured_ns, self.latency_ewma_ns) as u64
            },
            measured_latency_ns: measured_ns,
            ..self
        }
    }

    /// Smooths a latency measurement in.
    pub fn update_latency_ewma(&mut self, measured_ns: u64)
        ensures
            *final(self) == old(self).measured(measured_ns),
    {
        if self.latency_ewma_ns == 0 {
            self.latency_ewma_ns = measured_ns;
        } else {
            self.latency_ewma_ns = mean(
                LATENCY_EWMA_ALPHA,
                measured_ns,
                self.latency_ewma_ns,
            );
        }
        self.measured_latency_ns = measured_ns;
    }

    /// The state with another baseline, and the delay over it.
    pub open spec fn rebased(self, baseline: LatencyBaseline) -> ClassAutorateState {
        ClassAutorateState {
            latency_baseline: baseline,
            delay_delta_ns: (self.measured_latency_ns - baseline.baseline_ns) as i64,
            ..self
        }
    }

    /// Lets the baseline follow the last measurement if load is low, and takes the
    /// delay over it.
    pub fn update_baseline(&mut self, now_ns: u64)
        requires
            old(self).wf(),
        ensures
            *final(self) == old(self).rebased(
                old(self).latency_baseline.updated(
                    old(self).measured_latency_ns,
                    old(self).load,
                    now_ns,
                ),
            ),
            final(self).wf(),
    {
        let mut baseline = self.latency_baseline;
        proof {
            crate::descent::autorate::blend_stays_between(
                baseline.alpha,
                self.measured_latency_ns,
                baseline.baseline_ns,
            );
        }
        baseline.update(self.measured_latency_ns, self.load, now_ns);
        self.latency_baseline = baseline;
        self.delay_delta_ns = baseline.get_delay_delta(self.measured_latency_ns);
    }

    /// Lets the baseline follow the last measurement, and takes the delay over it.
    pub fn force_update_baseline(&mut self, now_ns: u64)
        requires
            old(self).wf(),
        ensures
            *final(self) == old(self).rebased(
                old(self).latency_baseline.followed(old(self).measured_latency_ns, now_ns),
            ),
            final(self).wf(),
    {
        let mut baseline = self.latency_baseline;
        proof {
            crate::descent::autorate::blend_stays_between(
                baseline.alpha,
                self.measured_latency_ns,
                baseline.baseline_ns,
            );
        }
        baseline.force_update(self.measured_latency_ns, now_ns);
        self.latency_baseline = baseline;
        self.delay_delta_ns = baseline.get_delay_delta(self.measured_latency_ns);
    }

    /// The state after it was set to `new_state`.
    pub open spec fn switched(self, new_state: AutorateState, now_ns: u64) -> ClassAutorateState {
        if self.state != new_state {
            ClassAutorateState {
                state: new_state,
                last_state_change_ns: now_ns,
                pending_state: new_state,
                consecutive_state_count: 0,
                ..self
            }
        } else {
            self
        }
    }

    /// Sets the state at once.
    pub fn transition_to(&mut self, new_state: AutorateState, now_ns: u64)
        ensures
            *final(self) == old(self).switched(new_state, now_ns),
    {
        if self.state != new_state {
            self.state = new_state;
            self.last_state_change_ns = now_ns;
            self.pending_state = new_state;
            self.consecutive_state_count = 0;
        }
    }

    /// The state after a reading that asks for `new_state`: it changes once
    /// `STATE_HYSTERESIS_THRESHOLD` consecutive readings ask for the same.
    pub open spec fn asked(self, new_state: AutorateState, now_ns: u64) -> ClassAutorateState {
        if self.state == new_state {
            ClassAutorateState {
                pending_state: new_state,
                consecutive_state_count: 0,
                ..self
            }
        } else if self.pending_state == new_state {
            let counted = ClassAutorateState {
                consecutive_state_count: (self.consecutive_state_count + 1) as u32,
                ..self
            };
            if counted.consecutive_state_count >= STATE_HYSTERESIS_THRESHOLD {
                counted.switched(new_state, now_ns)
            } else {
                counted
            }
        } else {
            ClassAutorateState { pending_state: new_state, consecutive_state_count: 1, ..self }
        }
    }

    /// Takes in a reading that asks for `new_state`.
    pub fn ask(&mut self, new_state: AutorateState, now_ns: u64)
        requires
            old(self).consecutive_state_count < u32::MAX,
        ensures
            *final(self) == old(self).asked(new_state, now_ns),
            old(self).wf() ==> final(self).wf(),
    {
        if self.state == new_state {
            self.pending_state = new_state;
            self.consecutive_state_count = 0;
            return;
        }
        if self.pending_state == new_state {
            self.consecutive_state_count = self.consecutive_state_count + 1;
            if self.consecutive_state_count >= STATE_HYSTERESIS_THRESHOLD {
                self.transition_to(new_state, now_ns);
            }
        } else {
            self.pending_state = new_state;
            self.consecutive_state_count = 1;
        }
    }

    /// The state after its share was adjusted.
    pub open spec fn adjusted(
        self,
        share: u64,
        direction: AdjustmentDirection,
        now_ns: u64,
    ) -> ClassAutorateState {
        ClassAutorateState {
            current_share: share,
            last_adjustment_ns: now_ns,
            last_direction: direction,
            ..self
        }
    }

    /// Sets the share, brought between nothing and the whole, and notes the adjustment.
    pub fn record_adjustment(&mut self, new_share: i64, direction: AdjustmentDirection, now_ns: u64)
        ensures
            *final(self) == old(self).adjusted(unit_share(new_share as int), direction, now_ns),
            old(self).wf() ==> final(self).wf(),
    {
        self.current_share = clamp_share(new_share);
        self.last_adjustment_ns = now_ns;
        self.last_direction = direction;
    }

    /// Time since the last change of state.
    pub fn time_in_state(&self, now_ns: u64) -> (r: u64)
        ensures
            r == if now_ns >= self.last_state_change_ns {
                now_ns - self.last_state_change_ns
            } else {
                0
            },
    {
        now_ns.saturating_sub(self.last_state_change_ns)
    }

    /// Time since the last adjustment of the share.
    pub fn time_since_adjustment(&self, now_ns: u64) -> (r: u64)
        ensures
            r == if now_ns >= self.last_adjustment_ns {
                now_ns - self.last_adjustment_ns
            } else {
                0
            },
    {
        now_ns.saturating_sub(self.last_adjustment_ns)
    }

    /// The ratio of the last measurement to the baseline.
    pub fn get_delay_ratio(&self) -> (r: Ratio)
        ensures
            r == if self.latency_baseline.baseline_ns == 0 {
                Ratio { num: 1, den: 1 }
            } else {
                Ratio { num: self.measured_latency_ns, den: self.latency_baseline.baseline_ns }
            },
    {
        self.latency_baseline.get_delay_ratio(self.measured_latency_ns)
    }

    /// Whether the baseline was last updated longer ago than `max_age_ns`.
    pub fn is_baseline_stale(&self, now_ns: u64, max_age_ns: u64) -> (r: bool)
        ensures
            r == (now_ns - self.latency_baseline.last_update_ns > max_age_ns),
    {
        self.latency_baseline.is_stale(now_ns, max_age_ns)
    }

    /// The share has reached 95% of the largest one.
    pub open spec fn near_max(self, config: ShareConfig) -> bool {
        self.current_share * 100 >= share_of(config.max_share) * 95
    }

    /// The state that a reading asks for.
    pub open spec fn desired(self, load: Ratio, config: ShareConfig) -> AutorateState {
        if load.below_milli(IDLE_LOAD_THRESHOLD) {
            AutorateState::Idle
        } else if self.delay_delta_ns > BUFFERBLOAT_THRESHOLD_NS {
            AutorateState::BackingOff
        } else if load.above_milli(HIGH_LOAD_THRESHOLD) && self.delay_delta_ns < DELAY_THRESHOLD_NS {
            AutorateState::Exploring
        } else if self.delay_delta_ns < DELAY_THRESHOLD_NS && (self.state
            == AutorateState::BackingOff || self.state == AutorateState::Exploring && self.near_max(config)) {
            AutorateState::Steady
        } else {
            self.state
        }
    }

    /// The state that a reading asks for.
    pub fn desired_state(&self, load: Ratio, config: &ShareConfig) -> (r: AutorateState)
        requires
            self.current_share <= ONE,
        ensures
            r == self.desired(load, *config),
    {
        let near_max: bool = self.current_share * 100 >= share_from_milli(config.max_share) * 95;
        let delay_delta: i64 = self.delay_delta_ns;
        if load.falls_below_milli(IDLE_LOAD_THRESHOLD) {
            AutorateState::Idle
        } else if delay_delta > BUFFERBLOAT_THRESHOLD_NS {
            AutorateState::BackingOff
        } else if load.exceeds_milli(HIGH_LOAD_THRESHOLD) && delay_delta < DELAY_THRESHOLD_NS {
            AutorateState::Exploring
        } else if self.state == AutorateState::Exploring && near_max && delay_delta
            < DELAY_THRESHOLD_NS {
            AutorateState::Steady
        } else if self.state == AutorateState::BackingOff && delay_delta < DELAY_THRESHOLD_NS {
            AutorateState::Steady
        } else {
            self.state
        }
    }

    /// The state after a reading of load and latency, before any decision.
    pub open spec fn observed(self, load: Ratio, latency_ns: u64, now_ns: u64) -> ClassAutorateState {
        let s = (ClassAutorateState { load, ..self }).measured(latency_ns);
        s.rebased(s.latency_baseline.updated(latency_ns, load, now_ns))
    }

    /// The state after a move of its share; nothing changes if the share does not.
    pub open spec fn stepped(self, step: ShareMove, config: ShareConfig, now_ns: u64) -> ClassAutorateState {
        let share = step.moved(config, self.current_share);
        if share != self.current_share {
            self.adjusted(share, step.direction_spec(), now_ns)
        } else {
            self
        }
    }

    /// Moves the share, and says whether it changed.
    pub fn step(&mut self, step: ShareMove, config: &ShareConfig, now_ns: u64) -> (r: bool)
        requires
            old(self).current_share <= ONE,
            config.min_share <= config.max_share,
        ensures
            *final(self) == old(self).stepped(step, *config, now_ns),
            r == (final(self).current_share != old(self).current_share),
            old(self).wf() ==> final(self).wf(),
    {
        let share: u64 = step.apply(config, self.current_share);
        if share == self.current_share {
            return false;
        }
        self.record_adjustment(share as i64, step.direction(), now_ns);
        true
    }

    /// Takes in a reading of load and latency.
    pub fn observe(&mut self, load: Ratio, latency_ns: u64, now_ns: u64)
        requires
            old(self).wf(),
            load.valid(),
            latency_ns <= i64::MAX,
        ensures
            *final(self) == old(self).observed(load, latency_ns, now_ns),
            final(self).wf(),
    {
        self.load = load;
        self.update_latency_ewma(latency_ns);
        self.update_baseline(now_ns);
    }
}

impl Default for ClassAutorateState {
    /// A class at rest at time 0, with a quarter of the CPU time and a baseline of a
    /// millisecond.
    fn default() -> (r: Self)
        ensures
            r == at_rest(
                250_000_000,
                LatencyBaseline {
                    baseline_ns: 1_000_000,
                    last_update_ns: 0,
                    alpha: crate::descent::autorate::BASELINE_EWMA_ALPHA,
                },
                0,
            ),
    {
        ClassAutorateState::new(250_000_000, 1_000_000, 0)
    }
}

/// One reading alone never changes the state of a class that asked for nothing
/// else before, and two consecutive readings that ask for the same always do.
pub proof fn states_change_after_two_readings(
    s: ClassAutorateState,
    wanted: AutorateState,
    first_ns: u64,
    second_ns: u64,
)
    requires
        s.consecutive_state_count < u32::MAX,
        s.consecutive_state_count == 0 || s.pending_state != wanted,
    ensures
        s.asked(wanted, first_ns).state == s.state,
        s.asked(wanted, first_ns).asked(wanted, second_ns).state == wanted,
        s.asked(wanted, first_ns).asked(wanted, second_ns).consecutive_state_count == 0,
{
}

/// Under high load the baseline does not move, so that congestion cannot hide
/// itself.
pub proof fn baseline_rests_under_load(s: ClassAutorateState, load: Ratio, latency_ns: u64, now_ns: u64)
    requires
        !load.below_milli(crate::descent::autorate::LOW_LOAD_THRESHOLD),
    ensures
        s.observed(load, latency_ns, now_ns).latency_baseline == s.latency_baseline,
{
}

/// What was measured of a class in an interval.
#[derive(Debug, Clone, Copy, PartialEq, Eq, Structural)]
pub struct ClassMetrics {
    /// The class.
    pub class_id: u32,
    /// CPU cycles spent by the class.
    pub cycles_spent: u64,
    /// Number of latency samples.
    pub sample_count: u64,
    /// Sum of the latency samples in nanoseconds.
    pub total_latency_ns: u64,
    /// Mean latency in nanoseconds.
    pub avg_latency_ns: u64,
    /// Largest latency in nanoseconds.
    pub max_latency_ns: u64,
    /// Load over all CPUs.
    pub load: Ratio,
    /// Delay over the baseline in nanoseconds.
    pub delay_delta_ns: i64,
}

impl ClassMetrics {
    /// Metrics of a class of which nothing was measured.
    pub fn new(class_id: u32) -> (r: Self)
        ensures
            r == (ClassMetrics {
                class_id,
                cycles_spent: 0,
                sample_count: 0,
                total_latency_ns: 0,
                avg_latency_ns: 0,
                max_latency_ns: 0,
                load: Ratio { num: 0, den: 1 },
                delay_delta_ns: 0,
            }),
    {
        ClassMetrics {
            class_id,
            cycles_spent: 0,
            sample_count: 0,
            total_latency_ns: 0,
            avg_latency_ns: 0,
            max_latency_ns: 0,
            load: Ratio { num: 0, den: 1 },
            delay_delta_ns: 0,
        }
    }

    /// Whether the class exists and has samples.
    pub fn is_valid(&self) -> (r: bool)
        ensures
            r == (self.class_id < DESCENT_CLASS_MAX && self.sample_count > 0),
    {
        (self.class_id as usize) < DESCENT_CLASS_MAX && self.sample_count > 0
    }

    /// Whether there are at least `min_samples` samples.
    pub fn has_min_samples(&self, min_samples: u64) -> (r: bool)
        ensures
            r == (self.sample_count >= min_samples),
    {
        self.sample_count >= min_samples
    }

    /// The latency fits a signed number and the load is a ratio.
    pub open spec fn wf(self) -> bool {
        self.avg_latency_ns <= i64::MAX && self.load.valid()
    }
}

/// A class below a fifth of load asks to be idle, whatever its delay. Else a delay of more
/// than 2 ms asks for backing off. Load above seven tenths with less than half a millisecond
/// of delay asks for exploring. In between, a class that backed off, or that explored up to
/// 95% of its largest share, asks for rest once the delay is below half a millisecond. Where
/// nothing of that holds, the state stays.
pub proof fn load_and_delay_ask_for_states(s: ClassAutorateState, load: Ratio, config: ShareConfig)
    requires
        load.valid(),
    ensures
        ({
            let wanted = s.desired(load, config);
            let idle = 5 * load.num < load.den;
            let busy = 10 * load.num > 7 * load.den;
            let (slow, quick) = (s.delay_delta_ns > 2_000_000, s.delay_delta_ns < 500_000);
            &&& idle ==> wanted == AutorateState::Idle
            &&& !idle && slow ==> wanted == AutorateState::BackingOff
            &&& !idle && quick && busy ==> wanted == AutorateState::Exploring
            &&& !idle && !slow && !quick ==> wanted == s.state
            &&& !idle && quick && !busy && s.state == AutorateState::BackingOff ==> wanted
                == AutorateState::Steady
            &&& !idle && quick && !busy && s.state == AutorateState::Exploring ==> wanted == if 100
                * s.current_share >= 95 * share_of(config.max_share) {
                AutorateState::Steady
            } else {
                AutorateState::Exploring
            }
            &&& !idle && quick && !busy && (s.state == AutorateState::Idle || s.state
                == AutorateState::Steady) ==> wanted == s.state
        }),
{
}

/// A reading is kept as it is, enters the smoothed latency with a fifth of its weight, or as
/// it is where it is the first, and its delay is what it lies above the baseline. The
/// baseline follows the reading with its own weight while the load is below a quarter, and
/// rests otherwise.
pub proof fn readings_are_taken_in(s: ClassAutorateState, load: Ratio, latency_ns: u64, now_ns: u64)
    requires
        s.wf(),
        latency_ns <= i64::MAX,
    ensures
        ({
            let t = s.observed(load, latency_ns, now_ns);
            let (b, c) = (s.latency_baseline, t.latency_baseline);
            &&& t.load == load
            &&& t.measured_latency_ns == latency_ns
            &&& t.delay_delta_ns == latency_ns - c.baseline_ns
            &&& s.latency_ewma_ns == 0 ==> t.latency_ewma_ns == latency_ns
            &&& s.latency_ewma_ns > 0 ==> 5 * t.latency_ewma_ns <= latency_ns + 4
                * s.latency_ewma_ns < 5 * t.latency_ewma_ns + 5
            &&& 4 * load.num < load.den ==> c.last_update_ns == now_ns && 1000 * c.baseline_ns
                <= b.alpha * latency_ns + (1000 - b.alpha) * b.baseline_ns < 1000 * c.baseline_ns
                + 1000
            &&& 4 * load.num >= load.den ==> c == b
            &&& t.current_share == s.current_share
            &&& t.state == s.state
            &&& t.pending_state == s.pending_state
            &&& t.consecutive_state_count == s.consecutive_state_count
            &&& t.target_latency_ns == s.target_latency_ns
        }),
{
    crate::descent::autorate::blend_stays_between(
        s.latency_baseline.alpha,
        latency_ns,
        s.latency_baseline.baseline_ns,
    );
    crate::descent::autorate::blend_stays_between(200, latency_ns, s.latency_ewma_ns);
    let (a, n, o) = (
        s.latency_baseline.alpha as int,
        latency_ns as int,
        s.latency_baseline.baseline_ns as int,
    );
    assert(blend(200, latency_ns, s.latency_ewma_ns) == (200 * latency_ns + 800
        * s.latency_ewma_ns) / 1000);
    assert(blend(s.latency_baseline.alpha, latency_ns, s.latency_baseline.baseline_ns) == (a * n + (
    1000 - a) * o) / 1000);
}

/// A reading that asks for the state a class is in leaves it there and forgets what was
/// pending. A class only ever changes to the state that the reading asks for, and only if
/// the reading before asked for the same.
pub proof fn states_change_only_as_asked(s: ClassAutorateState, wanted: AutorateState, now_ns: u64)
    requires
        s.consecutive_state_count < u32::MAX,
    ensures
        ({
            let t = s.asked(wanted, now_ns);
            &&& s.state == wanted ==> t.state == s.state && t.consecutive_state_count == 0
            &&& t.state != s.state ==> t.state == wanted && s.pending_state == wanted
                && s.consecutive_state_count >= 1 && t.last_state_change_ns == now_ns
            &&& s.state != wanted && s.pending_state == wanted && s.consecutive_state_count >= 1
                ==> t.state == wanted
            &&& t.pending_state == wanted
            &&& t.current_share == s.current_share
        }),
{
}

} // verus!
