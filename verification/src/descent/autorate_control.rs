//! The autorate controller: from the load and latency of each class to the state
//! of the class, its share of CPU time, and its parameters.

use vstd::prelude::*;

use crate::descent::autorate::{
    AdjustmentDirection, AutorateClassState, AutorateConfig, AutorateState, LatencyBaseline,
    ShareConfig, BUFFERBLOAT_THRESHOLD_NS, HIGH_LOAD_THRESHOLD,
};
use crate::descent::autorate_state::{at_rest, ClassAutorateState, ClassMetrics};
use crate::descent::profiles::{DESCENT_CLASS_MAX, PARAM_COUNT};
use crate::descent::shares::{
    interpolate, map_share, mapped, mapping_of, nearest, normalize, normalized, on_line, param_at,
    param_floor, param_mapping, share_from_milli, share_of, share_sum, Mapping, ShareMove, ONE,
};
use crate::ratio::Ratio;

verus! {

/// Counters of the controller.
#[derive(Debug, Clone, Copy, PartialEq, Eq, Structural)]
pub struct AutorateStats {
    /// Number of classes.
    pub total_classes: usize,
    /// Number of upward adjustments.
    pub adjustments_up: u64,
    /// Number of downward adjustments.
    pub adjustments_down: u64,
    /// Number of blocked adjustments.
    pub adjustments_blocked: u64,
    /// Mean share of the classes, in billionths.
    pub avg_share: u64,
    /// Number of baseline updates.
    pub baseline_updates: u64,
    /// Class that drives the adjustments.
    pub controlling_class: Option<u32>,
    /// Class that was backed off.
    pub backed_off_class: Option<u32>,
}

/// Counters before anything happened.
pub open spec fn no_adjustments() -> AutorateStats {
    AutorateStats {
        total_classes: DESCENT_CLASS_MAX,
        adjustments_up: 0,
        adjustments_down: 0,
        adjustments_blocked: 0,
        avg_share: 250_000_000,
        baseline_updates: 0,
        controlling_class: None,
        backed_off_class: None,
    }
}

impl AutorateStats {
    /// One more upward adjustment.
    pub open spec fn one_up(self) -> AutorateStats {
        AutorateStats { adjustments_up: (self.adjustments_up + 1) as u64, ..self }
    }

    /// One more downward adjustment.
    pub open spec fn one_down(self) -> AutorateStats {
        AutorateStats { adjustments_down: (self.adjustments_down + 1) as u64, ..self }
    }
}

impl Default for AutorateStats {
    fn default() -> (r: Self)
        ensures
            r == no_adjustments(),
    {
        AutorateStats {
            total_classes: DESCENT_CLASS_MAX,
            adjustments_up: 0,
            adjustments_down: 0,
            adjustments_blocked: 0,
            avg_share: 250_000_000,
            baseline_updates: 0,
            controlling_class: None,
            backed_off_class: None,
        }
    }
}

/// Decides how shares move.
#[derive(Debug, Clone, Copy)]
pub struct AutorateController {
    /// State of each class.
    pub class_states: [ClassAutorateState; DESCENT_CLASS_MAX],
    /// Configuration.
    pub config: AutorateConfig,
    /// Update interval in milliseconds.
    pub interval_ms: u64,
    /// Class that drives the adjustments.
    pub controlling_class: Option<u32>,
    /// Class that was backed off.
    pub backed_off_class: Option<u32>,
    /// Counters.
    pub stats: AutorateStats,
}

/// The class with the highest load among the first `n`, leaving out one class; the
/// first of several, and none without load.
pub open spec fn controlling(states: Seq<ClassAutorateState>, exclude: int, n: int) -> Option<u32>
    decreases n,
{
    if n <= 0 {
        None
    } else {
        let best = controlling(states, exclude, n - 1);
        if n - 1 == exclude {
            best
        } else {
            match best {
                Some(k) => if states[n - 1].load.above(states[k as int].load) {
                    Some((n - 1) as u32)
                } else {
                    best
                },
                None => if states[n - 1].load.num > 0 {
                    Some((n - 1) as u32)
                } else {
                    None
                },
            }
        }
    }
}

/// The controlling class is another class than the excluded one, has load, and no
/// other class has more; without one no other class has any load.
pub proof fn controlling_class_has_the_highest_load(
    states: Seq<ClassAutorateState>,
    exclude: int,
    n: int,
)
    requires
        0 <= n <= states.len() <= u32::MAX,
        forall|k: int| 0 <= k < states.len() ==> (#[trigger] states[k]).load.valid(),
    ensures
        match controlling(states, exclude, n) {
            Some(c) => {
                &&& 0 <= c < n
                &&& c != exclude
                &&& states[c as int].load.num > 0
                &&& forall|k: int|
                    0 <= k < n && k != exclude ==> !(#[trigger] states[k]).load.above(
                        states[c as int].load,
                    )
            },
            None => forall|k: int|
                0 <= k < n && k != exclude ==> (#[trigger] states[k]).load.num == 0,
        },
    decreases n,
{
    if n > 0 {
        controlling_class_has_the_highest_load(states, exclude, n - 1);
        let best = controlling(states, exclude, n - 1);
        let new = states[n - 1].load;
        if n - 1 != exclude {
            match best {
                Some(b) => {
                    let held = states[b as int].load;
                    if new.above(held) {
                        assert forall|k: int| 0 <= k < n && k != exclude implies !(
                        #[trigger] states[k]).load.above(new) by {
                            if k < n - 1 {
                                crate::ratio::above_is_transitive(new, held, states[k].load);
                            }
                        }
                        assert(new.num > 0) by (nonlinear_arith)
                            requires
                                new.num * held.den > held.num * new.den,
                        ;
                    }
                },
                None => {
                    if new.num > 0 {
                        assert forall|k: int| 0 <= k < n && k != exclude implies !(
                        #[trigger] states[k]).load.above(new) by {
                            if k < n - 1 {
                                assert(0 * new.den <= new.num * states[k].load.den)
                                    by (nonlinear_arith)
                                    requires
                                        new.num >= 0,
                                        states[k].load.den >= 0,
                                ;
                            }
                        }
                    }
                },
            }
        }
    }
}

/// The first class among those from `from` on that is starved: its latency was
/// measured, and lies too far above its baseline.
pub open spec fn first_starved(states: Seq<ClassAutorateState>, from: int) -> Option<u32>
    decreases states.len() - from,
{
    if from < 0 || from >= states.len() {
        None
    } else if states[from].delay_delta_ns > BUFFERBLOAT_THRESHOLD_NS
        && states[from].measured_latency_ns > 0 {
        Some(from as u32)
    } else {
        first_starved(states, from + 1)
    }
}

/// The states after the first `n` metrics were taken in.
pub open spec fn after_metrics(
    states: Seq<ClassAutorateState>,
    metrics: Seq<ClassMetrics>,
    now_ns: u64,
    n: int,
) -> Seq<ClassAutorateState>
    decreases n,
{
    if n <= 0 {
        states
    } else {
        let before = after_metrics(states, metrics, now_ns, n - 1);
        let m = metrics[n - 1];
        if m.class_id < DESCENT_CLASS_MAX {
            before.update(
                m.class_id as int,
                before[m.class_id as int].observed(m.load, m.avg_latency_ns, now_ns),
            )
        } else {
            before
        }
    }
}

/// The move that a state calls for.
pub open spec fn move_in(state: AutorateState) -> Option<ShareMove> {
    match state {
        AutorateState::Exploring => Some(ShareMove::RampUp),
        AutorateState::BackingOff => Some(ShareMove::BackOff),
        AutorateState::Idle => Some(ShareMove::Decay),
        AutorateState::Steady => None,
    }
}

/// Backing off the class that controls while another is starved is in order.
pub open spec fn controls(states: Seq<ClassAutorateState>, ctrl: Option<u32>, starved: u32) -> bool {
    match ctrl {
        Some(c) => states[c as int].load.above(states[starved as int].load)
            && states[c as int].load.above_milli(HIGH_LOAD_THRESHOLD),
        None => false,
    }
}

/// The states after a reading of one class.
pub open spec fn reading(
    states: Seq<ClassAutorateState>,
    class: u32,
    latency_ns: u64,
    target_latency_ns: u64,
    load: Ratio,
    now_ns: u64,
) -> Seq<ClassAutorateState> {
    states.update(
        class as int,
        ClassAutorateState {
            target_latency_ns,
            ..states[class as int].observed(load, latency_ns, now_ns)
        },
    )
}

/// The shares of all classes.
pub open spec fn shares_of(states: Seq<ClassAutorateState>) -> Seq<u64> {
    Seq::new(DESCENT_CLASS_MAX as nat, |i: int| states[i].current_share)
}

/// The states after the delay of each class in `metrics` over its baseline was taken
/// anew.
pub open spec fn delays_taken(states: Seq<ClassAutorateState>, metrics: Seq<ClassMetrics>) -> Seq<
    ClassAutorateState,
> {
    Seq::new(
        DESCENT_CLASS_MAX as nat,
        |c: int|
            if exists|i: int| 0 <= i < metrics.len() && (#[trigger] metrics[i]).class_id == c {
                states[c].rebased(states[c].latency_baseline)
            } else {
                states[c]
            },
    )
}

/// What a controller holds apart from its configuration.
pub struct Board {
    pub states: Seq<ClassAutorateState>,
    pub stats: AutorateStats,
    pub controlling_class: Option<u32>,
    pub backed_off_class: Option<u32>,
}

impl Board {
    /// The board after a class changed its state.
    pub open spec fn with_state(self, class: u32, state: ClassAutorateState) -> Board {
        Board { states: self.states.update(class as int, state), ..self }
    }

    /// The board after a move of the share of a class. Ramps and back-offs that change
    /// the share are counted.
    pub open spec fn moved(
        self,
        class: u32,
        step: ShareMove,
        configs: Seq<ShareConfig>,
        now_ns: u64,
    ) -> Board {
        if class < DESCENT_CLASS_MAX {
            let before = self.states[class as int];
            let after = before.stepped(step, configs[class as int], now_ns);
            Board {
                states: self.states.update(class as int, after),
                stats: if after.current_share == before.current_share {
                    self.stats
                } else if step == ShareMove::RampUp {
                    self.stats.one_up()
                } else if step == ShareMove::BackOff {
                    self.stats.one_down()
                } else {
                    self.stats
                },
                ..self
            }
        } else {
            self
        }
    }

    /// The board after a reading of a class asked for a state.
    pub open spec fn asked(self, class: u32, wanted: AutorateState, now_ns: u64) -> Board {
        self.with_state(class, self.states[class as int].asked(wanted, now_ns))
    }

    /// The board after the state of a class was set.
    pub open spec fn switched(self, class: u32, wanted: AutorateState, now_ns: u64) -> Board {
        self.with_state(class, self.states[class as int].switched(wanted, now_ns))
    }

    /// The board after an answer to the starvation of a class: the class that controls,
    /// if its load is high and higher than that of the starved one, backs off; the
    /// starved one is boosted. Both change state at once.
    pub open spec fn relieved(self, starved: u32, configs: Seq<ShareConfig>, now_ns: u64) -> Board {
        let ctrl = controlling(self.states, starved as int, DESCENT_CLASS_MAX as int);
        if controls(self.states, ctrl, starved) {
            let c = ctrl->0;
            let b = self.moved(c, ShareMove::BackOff, configs, now_ns).moved(
                starved,
                ShareMove::Boost,
                configs,
                now_ns,
            ).switched(c, AutorateState::BackingOff, now_ns).switched(
                starved,
                AutorateState::Exploring,
                now_ns,
            );
            Board {
                controlling_class: Some(starved),
                backed_off_class: Some(c),
                stats: b.stats.one_up(),
                ..b
            }
        } else {
            let b = self.moved(starved, ShareMove::Boost, configs, now_ns).switched(
                starved,
                AutorateState::Exploring,
                now_ns,
            );
            Board { stats: b.stats.one_up(), ..b }
        }
    }

    /// The board after a reading of the load of a class asked for a state, and the share
    /// made the move that the state calls for.
    pub open spec fn adjusted(
        self,
        class: u32,
        load: Ratio,
        configs: Seq<ShareConfig>,
        now_ns: u64,
    ) -> Board {
        if class < DESCENT_CLASS_MAX {
            let c = class as int;
            let b = self.asked(class, self.states[c].desired(load, configs[c]), now_ns);
            match move_in(b.states[c].state) {
                Some(step) => b.moved(class, step, configs, now_ns),
                None => b,
            }
        } else {
            self
        }
    }

    /// The board after the first `n` readings.
    pub open spec fn adjusted_by(
        self,
        metrics: Seq<ClassMetrics>,
        configs: Seq<ShareConfig>,
        now_ns: u64,
        n: int,
    ) -> Board
        decreases n,
    {
        if n <= 0 {
            self
        } else {
            self.adjusted_by(metrics, configs, now_ns, n - 1).adjusted(
                metrics[n - 1].class_id,
                metrics[n - 1].load,
                configs,
                now_ns,
            )
        }
    }

    /// The board with the shares brought to a sum of the whole.
    pub open spec fn normalized(self, configs: Seq<ShareConfig>) -> Board {
        let shares = normalized(shares_of(self.states), configs);
        Board {
            states: Seq::new(
                DESCENT_CLASS_MAX as nat,
                |i: int| ClassAutorateState { current_share: shares[i], ..self.states[i] },
            ),
            ..self
        }
    }

    /// The counters as they are reported.
    pub open spec fn report(self) -> AutorateStats {
        AutorateStats {
            avg_share: (share_sum(shares_of(self.states)) / 4) as u64,
            controlling_class: self.controlling_class,
            backed_off_class: self.backed_off_class,
            ..self.stats
        }
    }

    /// The board after the metrics of an interval: they are taken in, a starved class is
    /// relieved or else every class in the metrics is adjusted, and the shares are
    /// brought to a sum of the whole.
    pub open spec fn updated(
        self,
        metrics: Seq<ClassMetrics>,
        configs: Seq<ShareConfig>,
        now_ns: u64,
    ) -> Board {
        let seen = Board {
            states: delays_taken(
                after_metrics(self.states, metrics, now_ns, metrics.len() as int),
                metrics,
            ),
            ..self
        };
        let b = match first_starved(seen.states, 0) {
            Some(starved) => seen.relieved(starved, configs, now_ns),
            None => seen.adjusted_by(metrics, configs, now_ns, metrics.len() as int),
        }.normalized(configs);
        Board { stats: b.report(), ..b }
    }

    /// The board after a reading of one class. A starved class is boosted at the cost of
    /// the class that controls, if the load of that is high.
    pub open spec fn updated_one(
        self,
        class: u32,
        latency_ns: u64,
        target_latency_ns: u64,
        load: Ratio,
        config: AutorateConfig,
        now_ns: u64,
    ) -> Board {
        let c = class as int;
        let configs = config.share_configs@;
        let seen = Board {
            states: reading(self.states, class, latency_ns, target_latency_ns, load, now_ns),
            stats: AutorateStats {
                baseline_updates: (self.stats.baseline_updates + 1) as u64,
                ..self.stats
            },
            ..self
        };
        let ctrl = controlling(seen.states, c, DESCENT_CLASS_MAX as int);
        if !config.enabled {
            seen
        } else if seen.states[c].delay_delta_ns > BUFFERBLOAT_THRESHOLD_NS {
            match ctrl {
                Some(k) => if seen.states[k as int].load.above_milli(HIGH_LOAD_THRESHOLD) {
                    seen.moved(k, ShareMove::BackOff, configs, now_ns).moved(
                        class,
                        ShareMove::Boost,
                        configs,
                        now_ns,
                    ).asked(k, AutorateState::BackingOff, now_ns).asked(
                        class,
                        AutorateState::Exploring,
                        now_ns,
                    )
                } else {
                    seen
                },
                None => seen,
            }
        } else {
            seen.adjusted(class, load, configs, now_ns)
        }
    }
}

impl AutorateController {
    /// Every class state is well formed.
    pub open spec fn wf(self) -> bool {
        forall|i: int| 0 <= i < DESCENT_CLASS_MAX ==> (#[trigger] self.class_states[i]).wf()
    }

    /// No class has a smallest share above its largest.
    pub open spec fn ranges_ordered(self) -> bool {
        forall|i: int|
            0 <= i < DESCENT_CLASS_MAX ==> (#[trigger] self.config.share_configs[i]).min_share
                <= self.config.share_configs[i].max_share
    }

    /// The counters can count `n` more adjustments each way.
    pub open spec fn has_room(self, n: int) -> bool {
        &&& self.stats.adjustments_up + n <= u64::MAX
        &&& self.stats.adjustments_down + n <= u64::MAX
    }

    /// An update of a class can be counted and, while the controller is on, so can the moves
    /// of shares, and no range is out of order.
    pub open spec fn can_update(self) -> bool {
        &&& self.stats.baseline_updates < u64::MAX
        &&& self.config.enabled ==> self.ranges_ordered() && self.has_room(1)
    }

    /// What the controller holds apart from its configuration.
    pub open spec fn board(self) -> Board {
        Board {
            states: self.class_states@,
            stats: self.stats,
            controlling_class: self.controlling_class,
            backed_off_class: self.backed_off_class,
        }
    }

    /// The configuration is the same.
    pub open spec fn same_config(self, other: AutorateController) -> bool {
        self.config == other.config && self.interval_ms == other.interval_ms
    }

    /// Nothing but class states differs.
    pub open spec fn same_but_states(self, other: AutorateController) -> bool {
        &&& self.config == other.config
        &&& self.interval_ms == other.interval_ms
        &&& self.controlling_class == other.controlling_class
        &&& self.backed_off_class == other.backed_off_class
        &&& self.stats == other.stats
    }

    /// A controller with all classes at rest at time `now_ns`, at their base shares.
    pub fn new(nr_cpus: usize, config: &AutorateConfig, now_ns: u64) -> (r: Self)
        ensures
            r.wf(),
            r.class_states@ == starting_states(config.share_configs@, now_ns),
            r.config == *config,
            r.interval_ms == 200,
            r.controlling_class is None,
            r.backed_off_class is None,
            r.stats == no_adjustments(),
    {
        AutorateController::with_interval(nr_cpus, config, 200, now_ns)
    }

    /// A controller with its own update interval.
    pub fn with_interval(
        nr_cpus: usize,
        config: &AutorateConfig,
        interval_ms: u64,
        now_ns: u64,
    ) -> (r: Self)
        ensures
            r.wf(),
            r.class_states@ == starting_states(config.share_configs@, now_ns),
            r.config == *config,
            r.interval_ms == interval_ms,
            r.controlling_class is None,
            r.backed_off_class is None,
            r.stats == no_adjustments(),
    {
        let base = config.share_configs;
        let mut latency_critical = ClassAutorateState::new(
            share_from_milli(base[0].base_share) as i64,
            1_000_000,
            now_ns,
        );
        latency_critical.target_latency_ns = 1_000_000;
        let mut normal = ClassAutorateState::new(
            share_from_milli(base[1].base_share) as i64,
            1_000_000,
            now_ns,
        );
        normal.target_latency_ns = 5_000_000;
        let mut hog = ClassAutorateState::new(
            share_from_milli(base[2].base_share) as i64,
            5_000_000,
            now_ns,
        );
        hog.target_latency_ns = 20_000_000;
        let mut background = ClassAutorateState::new(
            share_from_milli(base[3].base_share) as i64,
            10_000_000,
            now_ns,
        );
        background.target_latency_ns = 50_000_000;
        let r = AutorateController {
            class_states: [latency_critical, normal, hog, background],
            config: *config,
            interval_ms,
            controlling_class: None,
            backed_off_class: None,
            stats: AutorateStats::default(),
        };
        assert(r.class_states@ =~= starting_states(config.share_configs@, now_ns));
        r
    }

    /// Takes in the metrics of an interval and returns the parameters of each class.
    /// Metrics of classes that do not exist are passed over.
    pub fn update_with_metrics(&mut self, metrics: &[ClassMetrics], now_ns: u64) -> (r: [[u64;
        PARAM_COUNT]; DESCENT_CLASS_MAX])
        requires
            old(self).wf(),
            old(self).ranges_ordered(),
            old(self).has_room(metrics@.len() as int + 1),
            forall|i: int| 0 <= i < metrics@.len() ==> (#[trigger] metrics@[i]).wf(),
        ensures
            final(self).wf(),
            final(self).same_config(*old(self)),
            final(self).board() == old(self).board().updated(
                metrics@,
                old(self).config.share_configs@,
                now_ns,
            ),
            final(self).are_params(r),
    {
        self.observe_metrics(metrics, now_ns);
        self.calculate_delay_deltas(metrics);
        if let Some(starved) = self.find_starved_class() {
            self.handle_starvation(starved, now_ns);
        } else {
            self.normal_share_adjustment(metrics, now_ns);
        }
        self.normalize_shares();
        self.update_stats();
        self.calculate_parameters()
    }

    /// Takes in the metrics of an interval. Those of classes that do not exist are
    /// passed over.
    pub fn observe_metrics(&mut self, metrics: &[ClassMetrics], now_ns: u64)
        requires
            old(self).wf(),
            forall|i: int| 0 <= i < metrics@.len() ==> (#[trigger] metrics@[i]).wf(),
        ensures
            final(self).wf(),
            final(self).class_states@ == after_metrics(
                old(self).class_states@,
                metrics@,
                now_ns,
                metrics@.len() as int,
            ),
            final(self).same_but_states(*old(self)),
    {
        let mut i: usize = 0;
        while i < metrics.len()
            invariant
                i <= metrics@.len(),
                self.wf(),
                forall|j: int| 0 <= j < metrics@.len() ==> (#[trigger] metrics@[j]).wf(),
                self.class_states@ == after_metrics(
                    old(self).class_states@,
                    metrics@,
                    now_ns,
                    i as int,
                ),
                self.same_but_states(*old(self)),
            decreases metrics@.len() - i,
        {
            let metric = metrics[i];
            assert(metrics@[i as int].wf());
            let class_idx: usize = metric.class_id as usize;
            if class_idx < DESCENT_CLASS_MAX {
                let mut state = self.class_states[class_idx];
                state.observe(metric.load, metric.avg_latency_ns, now_ns);
                self.class_states[class_idx] = state;
            }
            i = i + 1;
        }
    }

    /// Takes the delay of each class in `metrics` over its baseline anew.
    pub fn calculate_delay_deltas(&mut self, metrics: &[ClassMetrics])
        requires
            old(self).wf(),
        ensures
            final(self).wf(),
            final(self).same_but_states(*old(self)),
            final(self).class_states@ == delays_taken(old(self).class_states@, metrics@),
    {
        let mut i: usize = 0;
        while i < metrics.len()
            invariant
                i <= metrics@.len(),
                old(self).wf(),
                self.wf(),
                self.same_but_states(*old(self)),
                forall|c: int|
                    0 <= c < DESCENT_CLASS_MAX ==> #[trigger] self.class_states@[c] == if exists|
                        j: int,
                    |
                        0 <= j < i && (#[trigger] metrics@[j]).class_id == c {
                        old(self).class_states@[c].rebased(
                            old(self).class_states@[c].latency_baseline,
                        )
                    } else {
                        old(self).class_states@[c]
                    },
            decreases metrics@.len() - i,
        {
            let class_idx: usize = metrics[i].class_id as usize;
            let ghost before = *self;
            if class_idx < DESCENT_CLASS_MAX {
                let mut state = self.class_states[class_idx];
                assert(state.wf());
                state.delay_delta_ns = state.latency_baseline.get_delay_delta(
                    state.measured_latency_ns,
                );
                self.class_states[class_idx] = state;
            }
            assert forall|c: int| 0 <= c < DESCENT_CLASS_MAX implies #[trigger] self.class_states@[c]
                == if exists|j: int| 0 <= j < i + 1 && (#[trigger] metrics@[j]).class_id == c {
                old(self).class_states@[c].rebased(old(self).class_states@[c].latency_baseline)
            } else {
                old(self).class_states@[c]
            } by {
                assert(before.class_states@[c].rebased(before.class_states@[c].latency_baseline)
                    == old(self).class_states@[c].rebased(
                    old(self).class_states@[c].latency_baseline,
                ));
                if metrics@[i as int].class_id == c {
                    assert(exists|j: int| 0 <= j < i + 1 && (#[trigger] metrics@[j]).class_id == c);
                } else if exists|j: int| 0 <= j < i + 1 && (#[trigger] metrics@[j]).class_id == c {
                    let j = choose|j: int| 0 <= j < i + 1 && (#[trigger] metrics@[j]).class_id == c;
                    assert(0 <= j < i && metrics@[j].class_id == c);
                }
            }
            i = i + 1;
        }
        assert(self.class_states@ =~= delays_taken(old(self).class_states@, metrics@));
    }

    /// The first class that is starved.
    pub fn find_starved_class(&self) -> (r: Option<u32>)
        ensures
            r == first_starved(self.class_states@, 0),
            r matches Some(c) ==> c < DESCENT_CLASS_MAX,
    {
        let mut i: usize = 0;
        while i < DESCENT_CLASS_MAX
            invariant
                i <= 4,
                first_starved(self.class_states@, 0) == first_starved(
                    self.class_states@,
                    i as int,
                ),
            decreases 4 - i,
        {
            let state = self.class_states[i];
            if state.delay_delta_ns > BUFFERBLOAT_THRESHOLD_NS && state.measured_latency_ns > 0 {
                return Some(i as u32);
            }
            i = i + 1;
        }
        None
    }

    /// The class with the highest load, leaving out one class.
    pub fn find_controlling_class(&self, exclude_class: u32) -> (r: Option<u32>)
        requires
            self.wf(),
        ensures
            r == controlling(self.class_states@, exclude_class as int, DESCENT_CLASS_MAX as int),
            r matches Some(c) ==> c < DESCENT_CLASS_MAX && c != exclude_class,
    {
        let mut best: Option<u32> = None;
        let mut i: usize = 0;
        while i < DESCENT_CLASS_MAX
            invariant
                i <= 4,
                best == controlling(self.class_states@, exclude_class as int, i as int),
                best matches Some(c) ==> c < i && c != exclude_class,
            decreases 4 - i,
        {
            if i as u32 != exclude_class {
                let load = self.class_states[i].load;
                match best {
                    Some(k) => {
                        if load.exceeds(&self.class_states[k as usize].load) {
                            best = Some(i as u32);
                        }
                    },
                    None => {
                        if load.num > 0 {
                            best = Some(i as u32);
                        }
                    },
                }
            }
            i = i + 1;
        }
        best
    }

    /// Answers the starvation of a class: the class that controls, if its load is
    /// high and higher than that of the starved one, backs off; the starved one is
    /// boosted. Both change state at once.
    pub fn handle_starvation(&mut self, starved_class: u32, now_ns: u64)
        requires
            old(self).wf(),
            old(self).ranges_ordered(),
            old(self).has_room(1),
            starved_class < DESCENT_CLASS_MAX,
        ensures
            final(self).wf(),
            final(self).same_config(*old(self)),
            final(self).board() == old(self).board().relieved(
                starved_class,
                old(self).config.share_configs@,
                now_ns,
            ),
    {
        let found = self.find_controlling_class(starved_class);
        let starved_load = self.class_states[starved_class as usize].load;
        if let Some(ctrl) = found {
            let ctrl_load = self.class_states[ctrl as usize].load;
            if ctrl_load.exceeds(&starved_load) && ctrl_load.exceeds_milli(HIGH_LOAD_THRESHOLD) {
                self.back_off_class(ctrl, now_ns);
                self.boost_class(starved_class, now_ns);
                self.switch_class(ctrl, AutorateState::BackingOff, now_ns);
                self.switch_class(starved_class, AutorateState::Exploring, now_ns);
                self.controlling_class = Some(starved_class);
                self.backed_off_class = Some(ctrl);
                self.stats.adjustments_up = self.stats.adjustments_up + 1;
                return;
            }
        }
        self.boost_class(starved_class, now_ns);
        self.switch_class(starved_class, AutorateState::Exploring, now_ns);
        self.stats.adjustments_up = self.stats.adjustments_up + 1;
    }

    fn switch_class(&mut self, class: u32, new_state: AutorateState, now_ns: u64)
        requires
            old(self).wf(),
            class < DESCENT_CLASS_MAX,
        ensures
            final(self).wf(),
            final(self).same_but_states(*old(self)),
            final(self).board() == old(self).board().switched(class, new_state, now_ns),
    {
        let mut state = self.class_states[class as usize];
        assert(state.wf());
        state.transition_to(new_state, now_ns);
        self.class_states[class as usize] = state;
    }

    /// Lets each class in `metrics` ask for the state that its reading calls for, and
    /// move its share accordingly.
    pub fn normal_share_adjustment(&mut self, metrics: &[ClassMetrics], now_ns: u64)
        requires
            old(self).wf(),
            old(self).ranges_ordered(),
            old(self).has_room(metrics@.len() as int),
        ensures
            final(self).wf(),
            final(self).same_config(*old(self)),
            final(self).board() == old(self).board().adjusted_by(
                metrics@,
                old(self).config.share_configs@,
                now_ns,
                metrics@.len() as int,
            ),
    {
        let mut i: usize = 0;
        while i < metrics.len()
            invariant
                i <= metrics@.len(),
                self.wf(),
                self.ranges_ordered(),
                self.has_room(metrics@.len() - i),
                self.same_config(*old(self)),
                self.board() == old(self).board().adjusted_by(
                    metrics@,
                    old(self).config.share_configs@,
                    now_ns,
                    i as int,
                ),
            decreases metrics@.len() - i,
        {
            self.adjust_class(metrics[i].class_id, metrics[i].load, now_ns);
            i = i + 1;
        }
    }

    fn adjust_class(&mut self, class: u32, load: Ratio, now_ns: u64)
        requires
            old(self).wf(),
            old(self).ranges_ordered(),
            old(self).has_room(1),
        ensures
            final(self).wf(),
            final(self).same_config(*old(self)),
            final(self).stats.adjustments_up <= old(self).stats.adjustments_up + 1,
            final(self).stats.adjustments_down <= old(self).stats.adjustments_down + 1,
            final(self).board() == old(self).board().adjusted(
                class,
                load,
                old(self).config.share_configs@,
                now_ns,
            ),
    {
        let class_idx: usize = class as usize;
        if class_idx >= DESCENT_CLASS_MAX {
            return;
        }
        assert(self.class_states[class_idx as int].wf());
        let wanted = self.class_states[class_idx].desired_state(
            load,
            &self.config.share_configs[class_idx],
        );
        self.transition_state(class, wanted, now_ns);
        match self.class_states[class_idx].state {
            AutorateState::Exploring => {
                self.ramp_up_class(class, now_ns);
            },
            AutorateState::BackingOff => {
                self.back_off_class(class, now_ns);
            },
            AutorateState::Idle => {
                self.decay_class_to_base(class, now_ns);
            },
            AutorateState::Steady => {},
        }
    }

    /// Ramps the share of a class up. Nothing happens for a class that does not exist.
    pub fn ramp_up_class(&mut self, class: u32, now_ns: u64)
        requires
            old(self).wf(),
            old(self).ranges_ordered(),
            old(self).has_room(1),
        ensures
            final(self).wf(),
            final(self).same_config(*old(self)),
            final(self).board() == old(self).board().moved(
                class,
                ShareMove::RampUp,
                old(self).config.share_configs@,
                now_ns,
            ),
    {
        if self.move_class(class, ShareMove::RampUp, now_ns) {
            self.stats.adjustments_up = self.stats.adjustments_up + 1;
        }
    }

    /// Backs the share of a class off. Nothing happens for a class that does not exist.
    pub fn back_off_class(&mut self, class: u32, now_ns: u64)
        requires
            old(self).wf(),
            old(self).ranges_ordered(),
            old(self).has_room(1),
        ensures
            final(self).wf(),
            final(self).same_config(*old(self)),
            final(self).board() == old(self).board().moved(
                class,
                ShareMove::BackOff,
                old(self).config.share_configs@,
                now_ns,
            ),
    {
        if self.move_class(class, ShareMove::BackOff, now_ns) {
            self.stats.adjustments_down = self.stats.adjustments_down + 1;
        }
    }

    /// Boosts the share of a class. Nothing happens for a class that does not exist.
    pub fn boost_class(&mut self, class: u32, now_ns: u64)
        requires
            old(self).wf(),
            old(self).ranges_ordered(),
        ensures
            final(self).wf(),
            final(self).same_config(*old(self)),
            final(self).board() == old(self).board().moved(
                class,
                ShareMove::Boost,
                old(self).config.share_configs@,
                now_ns,
            ),
    {
        let _ = self.move_class(class, ShareMove::Boost, now_ns);
    }

    /// Lets the share of a class decay toward its base. Nothing happens for a class that
    /// does not exist.
    pub fn decay_class_to_base(&mut self, class: u32, now_ns: u64)
        requires
            old(self).wf(),
            old(self).ranges_ordered(),
        ensures
            final(self).wf(),
            final(self).same_config(*old(self)),
            final(self).board() == old(self).board().moved(
                class,
                ShareMove::Decay,
                old(self).config.share_configs@,
                now_ns,
            ),
    {
        let _ = self.move_class(class, ShareMove::Decay, now_ns);
    }

    fn move_class(&mut self, class: u32, step: ShareMove, now_ns: u64) -> (r: bool)
        requires
            old(self).wf(),
            old(self).ranges_ordered(),
        ensures
            final(self).wf(),
            final(self).same_but_states(*old(self)),
            if class < DESCENT_CLASS_MAX {
                let before = old(self).class_states@[class as int];
                let after = before.stepped(step, old(self).config.share_configs@[class as int], now_ns);
                &&& final(self).class_states@ == old(self).class_states@.update(class as int, after)
                &&& r == (after.current_share != before.current_share)
            } else {
                &&& final(self).class_states@ == old(self).class_states@
                &&& !r
            },
    {
        let class_idx: usize = class as usize;
        if class_idx >= DESCENT_CLASS_MAX {
            return false;
        }
        let config = self.config.share_configs[class_idx];
        assert(self.config.share_configs[class_idx as int].min_share
            <= self.config.share_configs[class_idx as int].max_share);
        let mut state = self.class_states[class_idx];
        assert(state.wf());
        let changed: bool = state.step(step, &config, now_ns);
        self.class_states[class_idx] = state;
        changed
    }

    /// Brings the shares to a sum of the whole.
    pub fn normalize_shares(&mut self)
        requires
            old(self).wf(),
        ensures
            final(self).wf(),
            final(self).same_but_states(*old(self)),
            final(self).board() == old(self).board().normalized(old(self).config.share_configs@),
    {
        assert(self.class_states[0].wf() && self.class_states[1].wf() && self.class_states[2].wf()
            && self.class_states[3].wf());
        let shares = [
            self.class_states[0].current_share,
            self.class_states[1].current_share,
            self.class_states[2].current_share,
            self.class_states[3].current_share,
        ];
        assert(shares@ =~= shares_of(self.class_states@));
        let even = normalize(&shares, &self.config.share_configs);
        let mut i: usize = 0;
        while i < DESCENT_CLASS_MAX
            invariant
                i <= 4,
                old(self).wf(),
                self.wf(),
                self.same_but_states(*old(self)),
                forall|k: int| 0 <= k < 4 ==> #[trigger] even[k] <= ONE,
                forall|k: int|
                    0 <= k < 4 ==> #[trigger] self.class_states@[k] == if k < i {
                        ClassAutorateState { current_share: even@[k], ..old(self).class_states@[k] }
                    } else {
                        old(self).class_states@[k]
                    },
            decreases 4 - i,
        {
            let mut state = self.class_states[i];
            assert(state.wf());
            assert(even[i as int] <= ONE);
            state.current_share = even[i];
            self.class_states[i] = state;
            i = i + 1;
        }
        assert(self.board().states =~= old(self).board().normalized(
            old(self).config.share_configs@,
        ).states);
    }

    /// A reading of a class asks for `new_state`.
    pub fn transition_state(&mut self, class: u32, new_state: AutorateState, now_ns: u64)
        requires
            old(self).wf(),
        ensures
            final(self).wf(),
            final(self).same_but_states(*old(self)),
            final(self).board() == if class < DESCENT_CLASS_MAX {
                old(self).board().asked(class, new_state, now_ns)
            } else {
                old(self).board()
            },
    {
        let class_idx: usize = class as usize;
        if class_idx >= DESCENT_CLASS_MAX {
            return;
        }
        let mut state = self.class_states[class_idx];
        assert(state.wf());
        state.ask(new_state, now_ns);
        self.class_states[class_idx] = state;
    }

    /// The value of a parameter of a class at the current share, rounded down.
    pub open spec fn param(self, class: int, param_idx: int) -> int {
        param_floor(
            self.class_states@[class].current_share,
            self.config.share_configs@[class],
            param_idx,
            self.config.min_params@[class]@[param_idx],
            self.config.baseline_params@[class]@[param_idx],
            self.config.max_params@[class]@[param_idx],
        )
    }

    /// `row` holds the parameters of a class.
    pub open spec fn are_class_params(self, class: int, row: [u64; PARAM_COUNT]) -> bool {
        forall|p: int| 0 <= p < PARAM_COUNT ==> #[trigger] row@[p] == self.param(class, p)
    }

    /// `r` holds the parameters of all classes.
    pub open spec fn are_params(self, r: [[u64; PARAM_COUNT]; DESCENT_CLASS_MAX]) -> bool {
        forall|c: int| 0 <= c < DESCENT_CLASS_MAX ==> self.are_class_params(c, #[trigger] r@[c])
    }

    fn class_params(&self, class_idx: usize) -> (r: [u64; PARAM_COUNT])
        requires
            class_idx < DESCENT_CLASS_MAX,
        ensures
            self.are_class_params(class_idx as int, r),
    {
        let share: u64 = self.class_states[class_idx].current_share;
        let config = self.config.share_configs[class_idx];
        let mut r: [u64; PARAM_COUNT] = [0; PARAM_COUNT];
        let mut p: usize = 0;
        while p < PARAM_COUNT
            invariant
                p <= 5,
                class_idx < 4,
                share == self.class_states@[class_idx as int].current_share,
                config == self.config.share_configs@[class_idx as int],
                forall|k: int| 0 <= k < p ==> #[trigger] r@[k] == self.param(class_idx as int, k),
            decreases 5 - p,
        {
            r[p] = param_at(
                share,
                &config,
                p,
                self.config.min_params[class_idx][p],
                self.config.baseline_params[class_idx][p],
                self.config.max_params[class_idx][p],
            );
            p = p + 1;
        }
        r
    }

    /// The parameters of all classes at their current shares.
    pub fn calculate_parameters(&self) -> (r: [[u64; PARAM_COUNT]; DESCENT_CLASS_MAX])
        ensures
            self.are_params(r),
    {
        [
            self.class_params(0),
            self.class_params(1),
            self.class_params(2),
            self.class_params(3),
        ]
    }

    /// The parameters of a class at its current share. For a class that does not exist,
    /// the baseline of the last one.
    pub fn get_params_for_class(&self, class: u32) -> (r: [u64; PARAM_COUNT])
        ensures
            class < DESCENT_CLASS_MAX ==> self.are_class_params(class as int, r),
            class >= DESCENT_CLASS_MAX ==> r == self.config.baseline_params[3],
    {
        let class_idx: usize = class as usize;
        if class_idx >= DESCENT_CLASS_MAX {
            return self.config.baseline_params[3];
        }
        self.class_params(class_idx)
    }

    /// The value of one parameter of a class at a share, rounded to the nearest number;
    /// 0 for a class or parameter that does not exist.
    pub fn calculate_param(&self, class: u32, param_idx: usize, share: u64) -> (r: u64)
        requires
            class < DESCENT_CLASS_MAX && param_idx < PARAM_COUNT
                ==> self.config.share_configs[class as int].min_share
                <= self.config.share_configs[class as int].max_share,
        ensures
            r == if class < DESCENT_CLASS_MAX && param_idx < PARAM_COUNT {
                mapped(
                    share,
                    share_of(self.config.share_configs@[class as int].min_share),
                    share_of(self.config.share_configs@[class as int].max_share),
                    self.config.min_params@[class as int]@[param_idx as int],
                    self.config.baseline_params@[class as int]@[param_idx as int],
                    self.config.max_params@[class as int]@[param_idx as int],
                    mapping_of(param_idx as int),
                )
            } else {
                0
            },
    {
        let class_idx: usize = class as usize;
        if class_idx >= DESCENT_CLASS_MAX || param_idx >= PARAM_COUNT {
            return 0;
        }
        let config = self.config.share_configs[class_idx];
        self.map_share_to_param(
            share,
            share_from_milli(config.min_share),
            share_from_milli(config.base_share),
            share_from_milli(config.max_share),
            self.config.min_params[class_idx][param_idx],
            self.config.baseline_params[class_idx][param_idx],
            self.config.max_params[class_idx][param_idx],
            param_mapping(param_idx),
        )
    }

    /// The value that a share maps to: from `min_val` at the smallest share over
    /// `base_val` halfway to `max_val` at the largest, or the other way round.
    pub fn map_share_to_param(
        &self,
        share: u64,
        min_share: u64,
        _base_share: u64,
        max_share: u64,
        min_val: u64,
        base_val: u64,
        max_val: u64,
        mapping: Mapping,
    ) -> (r: u64)
        requires
            min_share <= max_share,
        ensures
            r == mapped(share, min_share, max_share, min_val, base_val, max_val, mapping),
    {
        map_share(share, min_share, max_share, min_val, base_val, max_val, mapping)
    }

    /// The parameters of a class at a rate: the least at 0, the baseline at one half, the
    /// largest at 1, rounded to the nearest number; zeros for a class that does not exist.
    pub fn interpolate_params(&self, rate: Ratio, class: u32) -> (r: [u64; PARAM_COUNT])
        requires
            rate.valid(),
            rate.num <= rate.den,
            class < DESCENT_CLASS_MAX ==> forall|p: int|
                0 <= p < PARAM_COUNT ==> (#[trigger] self.config.min_params@[class as int]@[p])
                    <= self.config.baseline_params@[class as int]@[p]
                    <= self.config.max_params@[class as int]@[p],
        ensures
            forall|p: int|
                0 <= p < PARAM_COUNT ==> #[trigger] r@[p] == if class < DESCENT_CLASS_MAX {
                    nearest(
                        on_line(
                            rate.num as int,
                            rate.den as int,
                            self.config.min_params@[class as int]@[p],
                            self.config.baseline_params@[class as int]@[p],
                            self.config.max_params@[class as int]@[p],
                        ),
                        rate.den as int,
                    )
                } else {
                    0
                },
    {
        let class_idx: usize = class as usize;
        let mut r: [u64; PARAM_COUNT] = [0; PARAM_COUNT];
        if class_idx >= DESCENT_CLASS_MAX {
            return r;
        }
        let mut p: usize = 0;
        while p < PARAM_COUNT
            invariant
                p <= 5,
                class_idx == class < 4,
                rate.valid(),
                rate.num <= rate.den,
                forall|k: int|
                    0 <= k < p ==> #[trigger] r@[k] == nearest(
                        on_line(
                            rate.num as int,
                            rate.den as int,
                            self.config.min_params@[class as int]@[k],
                            self.config.baseline_params@[class as int]@[k],
                            self.config.max_params@[class as int]@[k],
                        ),
                        rate.den as int,
                    ),
            decreases 5 - p,
        {
            r[p] = interpolate(
                rate.num,
                rate.den,
                self.config.min_params[class_idx][p],
                self.config.baseline_params[class_idx][p],
                self.config.max_params[class_idx][p],
            );
            p = p + 1;
        }
        r
    }

    fn average_share(&self) -> (r: u64)
        requires
            self.wf(),
        ensures
            r == share_sum(shares_of(self.class_states@)) / 4,
    {
        assert(self.class_states[0].wf() && self.class_states[1].wf() && self.class_states[2].wf()
            && self.class_states[3].wf());
        (self.class_states[0].current_share + self.class_states[1].current_share
            + self.class_states[2].current_share + self.class_states[3].current_share) / 4
    }

    /// Brings the mean share and the classes that control and were backed off into the
    /// counters.
    pub fn update_stats(&mut self)
        requires
            old(self).wf(),
        ensures
            final(self).wf(),
            final(self).same_config(*old(self)),
            final(self).class_states@ == old(self).class_states@,
            final(self).board() == (Board { stats: old(self).board().report(), ..old(self).board() }),
    {
        self.stats.avg_share = self.average_share();
        self.stats.controlling_class = self.controlling_class;
        self.stats.backed_off_class = self.backed_off_class;
    }

    /// Takes in a reading of one class and returns its parameters and its state. With
    /// autorate off the class keeps its baseline parameters. For a class that does not
    /// exist, nothing happens and the baseline of the last class is returned. The number of
    /// samples is not looked at.
    pub fn update(
        &mut self,
        class: u32,
        latency_ns: u64,
        target_latency_ns: u64,
        load: Ratio,
        _sample_count: u64,
        now_ns: u64,
    ) -> (r: ([u64; PARAM_COUNT], AutorateState))
        requires
            old(self).wf(),
            class < DESCENT_CLASS_MAX ==> {
                &&& old(self).can_update()
                &&& load.valid()
                &&& latency_ns <= i64::MAX
            },
        ensures
            final(self).wf(),
            final(self).same_config(*old(self)),
            final(self).board() == if class < DESCENT_CLASS_MAX {
                old(self).board().updated_one(
                    class,
                    latency_ns,
                    target_latency_ns,
                    load,
                    old(self).config,
                    now_ns,
                )
            } else {
                old(self).board()
            },
            class >= DESCENT_CLASS_MAX ==> r == (
                old(self).config.baseline_params[3],
                AutorateState::Steady,
            ),
            class < DESCENT_CLASS_MAX ==> {
                &&& r.1 == final(self).class_states@[class as int].state
                &&& if old(self).config.enabled {
                    final(self).are_class_params(class as int, r.0)
                } else {
                    r.0 == old(self).config.baseline_params[class as int]
                }
            },
    {
        let class_idx: usize = class as usize;
        if class_idx >= DESCENT_CLASS_MAX {
            return (self.config.baseline_params[3], AutorateState::Steady);
        }
        let mut state = self.class_states[class_idx];
        assert(state.wf());
        state.observe(load, latency_ns, now_ns);
        state.target_latency_ns = target_latency_ns;
        self.class_states[class_idx] = state;
        self.stats.baseline_updates = self.stats.baseline_updates + 1;
        assert(self.class_states@ =~= reading(
            old(self).class_states@,
            class,
            latency_ns,
            target_latency_ns,
            load,
            now_ns,
        ));
        if !self.config.enabled {
            return (self.config.baseline_params[class_idx], self.class_states[class_idx].state);
        }
        if state.delay_delta_ns > BUFFERBLOAT_THRESHOLD_NS {
            if let Some(ctrl) = self.find_controlling_class(class) {
                if self.class_states[ctrl as usize].load.exceeds_milli(HIGH_LOAD_THRESHOLD) {
                    self.back_off_class(ctrl, now_ns);
                    self.boost_class(class, now_ns);
                    self.transition_state(ctrl, AutorateState::BackingOff, now_ns);
                    self.transition_state(class, AutorateState::Exploring, now_ns);
                }
            }
        } else {
            self.adjust_class(class, load, now_ns);
        }
        (self.class_params(class_idx), self.class_states[class_idx].state)
    }

    /// Takes in the metrics of one class, which keeps its target latency.
    pub fn update_with_metrics_single(&mut self, metrics: &ClassMetrics, now_ns: u64) -> (r: (
        [u64; PARAM_COUNT],
        AutorateState,
    ))
        requires
            old(self).wf(),
            metrics.class_id < DESCENT_CLASS_MAX ==> old(self).can_update() && metrics.wf(),
        ensures
            final(self).wf(),
            final(self).same_config(*old(self)),
            final(self).board() == if metrics.class_id < DESCENT_CLASS_MAX {
                old(self).board().updated_one(
                    metrics.class_id,
                    metrics.avg_latency_ns,
                    old(self).class_states@[metrics.class_id as int].target_latency_ns,
                    metrics.load,
                    old(self).config,
                    now_ns,
                )
            } else {
                old(self).board()
            },
            metrics.class_id >= DESCENT_CLASS_MAX ==> r == (
                old(self).config.baseline_params[3],
                AutorateState::Steady,
            ),
            metrics.class_id < DESCENT_CLASS_MAX ==> {
                &&& r.1 == final(self).class_states@[metrics.class_id as int].state
                &&& if old(self).config.enabled {
                    final(self).are_class_params(metrics.class_id as int, r.0)
                } else {
                    r.0 == old(self).config.baseline_params[metrics.class_id as int]
                }
            },
    {
        let class_idx: usize = metrics.class_id as usize;
        let target_ns: u64 = if class_idx < DESCENT_CLASS_MAX {
            self.class_states[class_idx].target_latency_ns
        } else {
            0
        };
        self.update(
            metrics.class_id,
            metrics.avg_latency_ns,
            target_ns,
            metrics.load,
            metrics.sample_count,
            now_ns,
        )
    }

    /// The state of a class under control of a rate: there is none for any class. See
    /// `get_class_autorate_state`.
    pub fn get_class_state(&self, _class: u32) -> (r: Option<&AutorateClassState>)
        ensures
            r is None,
    {
        None
    }

    /// The state of a class.
    pub fn get_class_autorate_state(&self, class: u32) -> (r: Option<&ClassAutorateState>)
        ensures
            match r {
                Some(s) => class < DESCENT_CLASS_MAX && *s == self.class_states[class as int],
                None => class >= DESCENT_CLASS_MAX,
            },
    {
        let class_idx: usize = class as usize;
        if class_idx < DESCENT_CLASS_MAX {
            Some(&self.class_states[class_idx])
        } else {
            None
        }
    }

    /// The state of a class and its share in whole percents.
    pub fn get_class_rate(&self, class: u32) -> (r: Option<(AutorateState, u64)>)
        ensures
            r == if class < DESCENT_CLASS_MAX {
                let s = self.class_states@[class as int];
                Some((s.state, (s.current_share as int / 10_000_000) as u64))
            } else {
                None
            },
    {
        let class_idx: usize = class as usize;
        if class_idx < DESCENT_CLASS_MAX {
            let state = self.class_states[class_idx];
            Some((state.state, state.current_share / 10_000_000))
        } else {
            None
        }
    }

    /// The share configuration of a class.
    pub fn get_share_config(&self, class: u32) -> (r: Option<&ShareConfig>)
        ensures
            match r {
                Some(s) => class < DESCENT_CLASS_MAX && *s == self.config.share_configs[class as int],
                None => class >= DESCENT_CLASS_MAX,
            },
    {
        let class_idx: usize = class as usize;
        if class_idx < DESCENT_CLASS_MAX {
            Some(&self.config.share_configs[class_idx])
        } else {
            None
        }
    }

    /// The counters, with the mean share and the classes that control and were backed
    /// off.
    pub fn get_stats(&self) -> (r: AutorateStats)
        requires
            self.wf(),
        ensures
            r == self.board().report(),
    {
        let mut stats = self.stats;
        stats.avg_share = self.average_share();
        stats.controlling_class = self.controlling_class;
        stats.backed_off_class = self.backed_off_class;
        stats
    }

    /// The class that controls.
    pub fn get_controlling_class(&self) -> (r: Option<u32>)
        ensures
            r == self.controlling_class,
    {
        self.controlling_class
    }

    /// The class that was backed off.
    pub fn get_backed_off_class(&self) -> (r: Option<u32>)
        ensures
            r == self.backed_off_class,
    {
        self.backed_off_class
    }

    /// Sets the class that controls.
    pub fn set_controlling_class(&mut self, class: Option<u32>)
        ensures
            *final(self) == (AutorateController { controlling_class: class, ..*old(self) }),
    {
        self.controlling_class = class;
    }

    /// Sets the class that was backed off.
    pub fn set_backed_off_class(&mut self, class: Option<u32>)
        ensures
            *final(self) == (AutorateController { backed_off_class: class, ..*old(self) }),
    {
        self.backed_off_class = class;
    }

    /// The states of all classes.
    pub fn get_all_class_states(&self) -> (r: &[ClassAutorateState])
        ensures
            r@ == self.class_states@,
    {
        self.class_states.as_slice()
    }

    /// The states of all classes, to be changed in place.
    pub fn get_all_class_states_mut(&mut self) -> (r: &mut [ClassAutorateState; DESCENT_CLASS_MAX])
        ensures
            *r == old(self).class_states,
            final(self).class_states == *final(r),
            final(self).same_but_states(*old(self)),
    {
        &mut self.class_states
    }

    /// Sets a class to the steady state, with its base share. Nothing happens for a class
    /// that does not exist.
    pub fn reset_class_to_base(&mut self, class: u32, now_ns: u64)
        ensures
            old(self).wf() ==> final(self).wf(),
            final(self).same_but_states(*old(self)),
            final(self).class_states@ == if class < DESCENT_CLASS_MAX {
                old(self).class_states@.update(
                    class as int,
                    old(self).class_states[class as int].adjusted(
                        share_of(old(self).config.share_configs@[class as int].base_share),
                        AdjustmentDirection::Neutral,
                        now_ns,
                    ).switched(AutorateState::Steady, now_ns),
                )
            } else {
                old(self).class_states@
            },
    {
        let class_idx: usize = class as usize;
        if class_idx < DESCENT_CLASS_MAX {
            let mut state = self.class_states[class_idx];
            let base: u64 = share_from_milli(self.config.share_configs[class_idx].base_share);
            state.record_adjustment(base as i64, AdjustmentDirection::Neutral, now_ns);
            state.transition_to(AutorateState::Steady, now_ns);
            self.class_states[class_idx] = state;
        }
    }

    /// Lets the baseline of a class follow a measurement whatever the load. Nothing
    /// happens for a class that does not exist.
    pub fn force_baseline_update(&mut self, class: u32, measured_ns: u64, now_ns: u64)
        requires
            old(self).wf(),
            measured_ns <= i64::MAX,
        ensures
            final(self).wf(),
            final(self).same_but_states(*old(self)),
            final(self).class_states@ == if class < DESCENT_CLASS_MAX {
                let s = ClassAutorateState {
                    measured_latency_ns: measured_ns,
                    ..old(self).class_states[class as int]
                };
                old(self).class_states@.update(
                    class as int,
                    s.rebased(s.latency_baseline.followed(measured_ns, now_ns)),
                )
            } else {
                old(self).class_states@
            },
    {
        let class_idx: usize = class as usize;
        if class_idx < DESCENT_CLASS_MAX {
            let mut state = self.class_states[class_idx];
            assert(state.wf());
            state.measured_latency_ns = measured_ns;
            state.force_update_baseline(now_ns);
            self.class_states[class_idx] = state;
        }
    }

    /// The state of a class, to be changed in place.
    pub fn get_class_autorate_state_mut(&mut self, class: u32) -> (r: Option<&mut ClassAutorateState>)
        ensures
            match r {
                Some(s) => {
                    &&& class < DESCENT_CLASS_MAX
                    &&& *s == old(self).class_states[class as int]
                    &&& final(self).class_states@ == old(self).class_states@.update(
                        class as int,
                        *final(s),
                    )
                },
                None => class >= DESCENT_CLASS_MAX && final(self).class_states@ == old(self).class_states@,
            },
            final(self).same_but_states(*old(self)),
    {
        let class_idx: usize = class as usize;
        if class_idx < DESCENT_CLASS_MAX {
            Some(&mut self.class_states[class_idx])
        } else {
            None
        }
    }
}

/// The class that backs off when a class is starved is another one, and no class has a
/// higher load.
pub proof fn the_highest_load_backs_off(states: Seq<ClassAutorateState>, starved: u32)
    requires
        states.len() == DESCENT_CLASS_MAX,
        starved < DESCENT_CLASS_MAX,
        forall|k: int| 0 <= k < states.len() ==> (#[trigger] states[k]).load.valid(),
        controls(states, controlling(states, starved as int, DESCENT_CLASS_MAX as int), starved),
    ensures
        ({
            let c = controlling(states, starved as int, DESCENT_CLASS_MAX as int)->0;
            &&& c < DESCENT_CLASS_MAX
            &&& c != starved
            &&& forall|k: int|
                0 <= k < DESCENT_CLASS_MAX ==> !(#[trigger] states[k]).load.above(
                    states[c as int].load,
                )
        }),
{
    controlling_class_has_the_highest_load(states, starved as int, DESCENT_CLASS_MAX as int);
    let c = controlling(states, starved as int, DESCENT_CLASS_MAX as int)->0;
    let a = states[starved as int].load;
    let b = states[c as int].load;
    assert(!a.above(b)) by (nonlinear_arith)
        requires
            b.num * a.den > a.num * b.den,
            a.above(b) == (a.num * b.den > b.num * a.den),
    ;
}

/// When the starvation of a class is answered at the cost of the class that controls,
/// that class never gets a larger share and the starved one never a smaller one, and
/// every other class stays as it is.
pub proof fn starvation_shifts_shares(
    b: Board,
    starved: u32,
    configs: Seq<ShareConfig>,
    now_ns: u64,
    other: int,
)
    requires
        b.states.len() == DESCENT_CLASS_MAX,
        starved < DESCENT_CLASS_MAX,
        forall|k: int| 0 <= k < DESCENT_CLASS_MAX ==> (#[trigger] b.states[k]).load.valid(),
        forall|k: int|
            0 <= k < DESCENT_CLASS_MAX ==> {
                &&& share_of((#[trigger] configs[k]).min_share) <= b.states[k].current_share
                    <= share_of(configs[k].max_share)
                &&& configs[k].ramp_down_rate <= 1000 <= configs[k].ramp_up_rate
            },
        controls(b.states, controlling(b.states, starved as int, DESCENT_CLASS_MAX as int), starved),
    ensures
        ({
            let c = controlling(b.states, starved as int, DESCENT_CLASS_MAX as int)->0 as int;
            let s = starved as int;
            let r = b.relieved(starved, configs, now_ns);
            &&& r.states[c].current_share <= b.states[c].current_share
            &&& r.states[s].current_share >= b.states[s].current_share
            &&& r.states[c].state == AutorateState::BackingOff
            &&& r.states[s].state == AutorateState::Exploring
            &&& 0 <= other < DESCENT_CLASS_MAX && other != c && other != s ==> r.states[other]
                == b.states[other]
        }),
{
    the_highest_load_backs_off(b.states, starved);
    let c = controlling(b.states, starved as int, DESCENT_CLASS_MAX as int)->0 as int;
    assert(configs[c].ramp_down_rate <= 1000 <= configs[c].ramp_up_rate);
    assert(configs[starved as int].ramp_down_rate <= 1000 <= configs[starved as int].ramp_up_rate);
    crate::descent::shares::moves_go_their_way(configs[c], b.states[c].current_share);
    crate::descent::shares::moves_go_their_way(
        configs[starved as int],
        b.states[starved as int].current_share,
    );
}

/// A class at rest with its target latency.
pub open spec fn starting_state(
    config: ShareConfig,
    baseline_ns: u64,
    target_ns: u64,
    now_ns: u64,
) -> ClassAutorateState {
    ClassAutorateState {
        target_latency_ns: target_ns,
        ..at_rest(
            share_of(config.base_share),
            LatencyBaseline {
                baseline_ns,
                last_update_ns: 0,
                alpha: crate::descent::autorate::BASELINE_EWMA_ALPHA,
            },
            now_ns,
        )
    }
}

/// All classes at rest with their target latencies.
pub open spec fn starting_states(configs: Seq<ShareConfig>, now_ns: u64) -> Seq<ClassAutorateState> {
    seq![
        starting_state(configs[0], 1_000_000, 1_000_000, now_ns),
        starting_state(configs[1], 1_000_000, 5_000_000, now_ns),
        starting_state(configs[2], 5_000_000, 20_000_000, now_ns),
        starting_state(configs[3], 10_000_000, 50_000_000, now_ns),
    ]
}

/// The starved class that is found has a measured latency of more than 2 ms over its
/// baseline, and no class before it has. If none is found, no class has.
pub proof fn starved_classes_are_found(states: Seq<ClassAutorateState>)
    requires
        states.len() <= u32::MAX,
    ensures
        match first_starved(states, 0) {
            Some(c) => {
                &&& 0 <= c < states.len()
                &&& states[c as int].delay_delta_ns > 2_000_000
                &&& states[c as int].measured_latency_ns > 0
                &&& forall|i: int|
                    0 <= i < c ==> !((#[trigger] states[i]).delay_delta_ns > 2_000_000
                        && states[i].measured_latency_ns > 0)
            },
            None => forall|i: int|
                0 <= i < states.len() ==> !((#[trigger] states[i]).delay_delta_ns > 2_000_000
                    && states[i].measured_latency_ns > 0),
        },
{
    lemma_starved_from(states, 0);
}

proof fn lemma_starved_from(states: Seq<ClassAutorateState>, from: int)
    requires
        0 <= from <= states.len() <= u32::MAX,
    ensures
        match first_starved(states, from) {
            Some(c) => {
                &&& from <= c < states.len()
                &&& states[c as int].delay_delta_ns > 2_000_000
                &&& states[c as int].measured_latency_ns > 0
                &&& forall|i: int|
                    from <= i < c ==> !((#[trigger] states[i]).delay_delta_ns > 2_000_000
                        && states[i].measured_latency_ns > 0)
            },
            None => forall|i: int|
                from <= i < states.len() ==> !((#[trigger] states[i]).delay_delta_ns > 2_000_000
                    && states[i].measured_latency_ns > 0),
        },
    decreases states.len() - from,
{
    if from < states.len() {
        lemma_starved_from(states, from + 1);
    }
}

/// Of the metrics of an interval the last ones of each class are kept, and a class without
/// metrics stays as it was.
pub proof fn last_metrics_are_kept(
    states: Seq<ClassAutorateState>,
    metrics: Seq<ClassMetrics>,
    now_ns: u64,
    n: int,
    class: int,
)
    requires
        states.len() == 4,
        0 <= n <= metrics.len(),
        0 <= class < 4,
    ensures
        ({
            let r = after_metrics(states, metrics, now_ns, n);
            &&& r.len() == 4
            &&& (forall|i: int| 0 <= i < n ==> (#[trigger] metrics[i]).class_id != class) ==> r[class]
                == states[class]
            &&& forall|i: int|
                0 <= i < n && (#[trigger] metrics[i]).class_id == class && (forall|j: int|
                    i < j < n ==> (#[trigger] metrics[j]).class_id != class) ==> r[class].load
                    == metrics[i].load && r[class].measured_latency_ns == metrics[i].avg_latency_ns
            &&& r[class].current_share == states[class].current_share
            &&& r[class].state == states[class].state
        }),
    decreases n,
{
    if n > 0 {
        last_metrics_are_kept(states, metrics, now_ns, n - 1, class);
        let before = after_metrics(states, metrics, now_ns, n - 1);
        let m = metrics[n - 1];
        if m.class_id != class {
            assert(after_metrics(states, metrics, now_ns, n)[class] == before[class]);
        }
    }
}

/// The delay of a class with metrics is what its measured latency lies above its baseline,
/// and a class without metrics keeps the delay that it had.
pub proof fn delays_lie_above_baselines(
    states: Seq<ClassAutorateState>,
    metrics: Seq<ClassMetrics>,
    class: int,
)
    requires
        states.len() == 4,
        0 <= class < 4,
        states[class].wf(),
    ensures
        ({
            let (s, t) = (states[class], delays_taken(states, metrics)[class]);
            &&& (exists|i: int| 0 <= i < metrics.len() && (#[trigger] metrics[i]).class_id == class)
                ==> t.delay_delta_ns == s.measured_latency_ns - s.latency_baseline.baseline_ns
            &&& (forall|i: int| 0 <= i < metrics.len() ==> (#[trigger] metrics[i]).class_id != class)
                ==> t == s
            &&& t == (ClassAutorateState { delay_delta_ns: t.delay_delta_ns, ..s })
        }),
{
}

/// A starved class is boosted and explores. If another class carries more load than it and
/// more than seven tenths, the one that carries most backs off for it, and both are noted.
/// Else no other class changes. One step up is counted, and one down where a share was cut.
pub proof fn starvation_is_answered(
    b: Board,
    starved: u32,
    configs: Seq<ShareConfig>,
    now_ns: u64,
)
    requires
        starved < 4,
        b.states.len() == 4,
        configs.len() == 4,
        forall|i: int| 0 <= i < 4 ==> (#[trigger] b.states[i]).load.valid(),
        b.stats.adjustments_up < u64::MAX,
        b.stats.adjustments_down < u64::MAX,
    ensures
        ({
            let r = b.relieved(starved, configs, now_ns);
            let s = starved as int;
            let rival = |k: int|
                0 <= k < 4 && k != s && b.states[k].load.above(b.states[s].load) && 10
                    * b.states[k].load.num > 7 * b.states[k].load.den;
            &&& r.states.len() == 4
            &&& r.states[s].state == AutorateState::Exploring
            &&& r.states[s].current_share == ShareMove::Boost.moved(
                configs[s],
                b.states[s].current_share,
            )
            &&& r.stats.adjustments_up == b.stats.adjustments_up + 1
            &&& (exists|k: int| #[trigger] rival(k)) ==> {
                let c = r.backed_off_class->0 as int;
                &&& r.backed_off_class is Some
                &&& r.controlling_class == Some(starved)
                &&& rival(c)
                &&& forall|k: int|
                    0 <= k < 4 && k != s ==> !(#[trigger] b.states[k]).load.above(b.states[c].load)
                &&& r.states[c].state == AutorateState::BackingOff
                &&& r.states[c].current_share == ShareMove::BackOff.moved(
                    configs[c],
                    b.states[c].current_share,
                )
                &&& r.stats.adjustments_down == b.stats.adjustments_down + (if r.states[c].current_share
                    != b.states[c].current_share {
                    1int
                } else {
                    0int
                })
                &&& forall|k: int|
                    0 <= k < 4 && k != s && k != c ==> #[trigger] r.states[k] == b.states[k]
            }
            &&& (forall|k: int| !#[trigger] rival(k)) ==> {
                &&& forall|k: int| 0 <= k < 4 && k != s ==> #[trigger] r.states[k] == b.states[k]
                &&& r.stats.adjustments_down == b.stats.adjustments_down
                &&& r.controlling_class == b.controlling_class
                &&& r.backed_off_class == b.backed_off_class
            }
        }),
{
    let s = starved as int;
    let rival = |k: int|
        0 <= k < 4 && k != s && b.states[k].load.above(b.states[s].load) && 10 * b.states[k].load.num
            > 7 * b.states[k].load.den;
    let ctrl = controlling(b.states, s, 4);
    controlling_class_has_the_highest_load(b.states, s, 4);
    if exists|k: int| #[trigger] rival(k) {
        let k = choose|k: int| #[trigger] rival(k);
        assert(b.states[k].load.num > 0) by (nonlinear_arith)
            requires
                10 * b.states[k].load.num > 7 * b.states[k].load.den,
                b.states[k].load.den >= 0,
        ;
        let c = ctrl->0 as int;
        assert(!b.states[k].load.above(b.states[c].load));
        let bar = Ratio { num: 700, den: 1000 };
        if !b.states[c].load.above(b.states[s].load) {
            crate::ratio::above_is_transitive(b.states[s].load, b.states[c].load, b.states[k].load);
        }
        if !b.states[c].load.above(bar) {
            crate::ratio::above_is_transitive(bar, b.states[c].load, b.states[k].load);
        }
        assert(controls(b.states, ctrl, starved));
        assert(rival(c));
    } else {
        if controls(b.states, ctrl, starved) {
            assert(rival(ctrl->0 as int));
        }
    }
}

proof fn lemma_controlling_exists(states: Seq<ClassAutorateState>, exclude: int, n: int)
    requires
        0 <= n <= u32::MAX,
    ensures
        controlling(states, exclude, n) matches Some(c) ==> 0 <= c < n && c != exclude,
    decreases n,
{
    if n > 0 {
        lemma_controlling_exists(states, exclude, n - 1);
    }
}

/// A class that is adjusted makes the move of the state that it is in then: it ramps up while
/// exploring, backs off while backing off, decays while idle and stays while steady. The
/// state is the one before or the one that load and delay ask for, and no other class
/// changes.
pub proof fn adjustments_follow_the_state(
    b: Board,
    class: u32,
    load: Ratio,
    configs: Seq<ShareConfig>,
    now_ns: u64,
)
    requires
        class < 4,
        b.states.len() == 4,
        configs.len() == 4,
        b.states[class as int].consecutive_state_count < u32::MAX,
    ensures
        ({
            let r = b.adjusted(class, load, configs, now_ns);
            let c = class as int;
            let (s, t) = (b.states[c], r.states[c]);
            &&& r.states.len() == 4
            &&& t.state == s.state || t.state == s.desired(load, configs[c])
            &&& t.pending_state == s.desired(load, configs[c])
            &&& t.current_share == match t.state {
                AutorateState::Exploring => ShareMove::RampUp.moved(configs[c], s.current_share),
                AutorateState::BackingOff => ShareMove::BackOff.moved(configs[c], s.current_share),
                AutorateState::Idle => ShareMove::Decay.moved(configs[c], s.current_share),
                AutorateState::Steady => s.current_share,
            }
            &&& t.load == s.load
            &&& t.measured_latency_ns == s.measured_latency_ns
            &&& t.delay_delta_ns == s.delay_delta_ns
            &&& forall|i: int| 0 <= i < 4 && i != c ==> #[trigger] r.states[i] == b.states[i]
        }),
{
}

/// Two states have the same readings.
pub open spec fn same_readings(s: ClassAutorateState, t: ClassAutorateState) -> bool {
    &&& s.load == t.load
    &&& s.measured_latency_ns == t.measured_latency_ns
    &&& s.delay_delta_ns == t.delay_delta_ns
    &&& s.latency_baseline == t.latency_baseline
    &&& s.latency_ewma_ns == t.latency_ewma_ns
    &&& s.target_latency_ns == t.target_latency_ns
}

proof fn lemma_adjusted_by(
    b: Board,
    metrics: Seq<ClassMetrics>,
    configs: Seq<ShareConfig>,
    now_ns: u64,
    n: int,
    class: int,
)
    requires
        b.states.len() == 4,
        0 <= n <= metrics.len(),
        0 <= class < 4,
    ensures
        ({
            let r = b.adjusted_by(metrics, configs, now_ns, n);
            &&& r.states.len() == 4
            &&& same_readings(r.states[class], b.states[class])
            &&& (forall|i: int| 0 <= i < n ==> (#[trigger] metrics[i]).class_id != class)
                ==> r.states[class] == b.states[class]
            &&& r.controlling_class == b.controlling_class
            &&& r.backed_off_class == b.backed_off_class
        }),
    decreases n,
{
    if n > 0 {
        lemma_adjusted_by(b, metrics, configs, now_ns, n - 1, class);
        let before = b.adjusted_by(metrics, configs, now_ns, n - 1);
        let m = metrics[n - 1];
        let after = before.adjusted(m.class_id, m.load, configs, now_ns);
        assert(same_readings(after.states[class], before.states[class]));
        if m.class_id != class {
            assert(after.states[class] == before.states[class]);
        }
    }
}

/// What an update with the metrics of an interval comes to. Readings are those of the
/// metrics. If a class is starved, it ends up exploring. If none is, classes without metrics
/// keep their states, and no class is noted as backed off anew. The mean share that is
/// reported is a quarter of all shares.
pub proof fn updates_answer_the_metrics(
    b: Board,
    metrics: Seq<ClassMetrics>,
    configs: Seq<ShareConfig>,
    now_ns: u64,
    class: int,
)
    requires
        b.states.len() == 4,
        configs.len() == 4,
        0 <= class < 4,
        forall|i: int| 0 <= i < 4 ==> (#[trigger] b.states[i]).wf(),
        forall|i: int| 0 <= i < metrics.len() ==> (#[trigger] metrics[i]).wf(),
    ensures
        ({
            let seen = delays_taken(
                after_metrics(b.states, metrics, now_ns, metrics.len() as int),
                metrics,
            );
            let r = b.updated(metrics, configs, now_ns);
            let starved = |i: int|
                0 <= i < 4 && seen[i].delay_delta_ns > 2_000_000 && seen[i].measured_latency_ns > 0;
            &&& r.states.len() == 4
            &&& same_readings(r.states[class], seen[class])
            &&& #[trigger] starved(class) && (forall|i: int| 0 <= i < class ==> !#[trigger] starved(i))
                ==> r.states[class].state == AutorateState::Exploring
            &&& (forall|i: int| 0 <= i < 4 ==> !#[trigger] starved(i)) ==> {
                &&& r.backed_off_class == b.backed_off_class
                &&& r.controlling_class == b.controlling_class
                &&& (forall|i: int|
                    0 <= i < metrics.len() ==> (#[trigger] metrics[i]).class_id != class)
                    ==> r.states[class].state == b.states[class].state
            }
            &&& r.stats.avg_share == (r.states[0].current_share + r.states[1].current_share
                + r.states[2].current_share + r.states[3].current_share) / 4
            &&& r.stats.controlling_class == r.controlling_class
            &&& r.stats.backed_off_class == r.backed_off_class
        }),
{
    let taken = after_metrics(b.states, metrics, now_ns, metrics.len() as int);
    let seen = delays_taken(taken, metrics);
    let start = Board { states: seen, ..b };
    last_metrics_are_kept(b.states, metrics, now_ns, metrics.len() as int, class);
    starved_classes_are_found(seen);
    lemma_adjusted_by(start, metrics, configs, now_ns, metrics.len() as int, class);
    let starved = |i: int|
        0 <= i < 4 && seen[i].delay_delta_ns > 2_000_000 && seen[i].measured_latency_ns > 0;
    let r = b.updated(metrics, configs, now_ns);
    match first_starved(seen, 0) {
        Some(c) => {
            assert(starved(c as int));
            let relief = start.relieved(c, configs, now_ns);
            lemma_controlling_exists(seen, c as int, 4);
            assert(relief.states.len() == 4);
            assert(same_readings(relief.states[class], seen[class]));
            assert(relief.states[c as int].state == AutorateState::Exploring);
            if starved(class) && (forall|i: int| 0 <= i < class ==> !#[trigger] starved(i)) {
                assert(c as int == class) by {
                    if c < class {
                        assert(!starved(c as int));
                    }
                }
            }
        },
        None => {
            assert(!starved(class));
            assert forall|i: int| 0 <= i < 4 implies !#[trigger] starved(i) by {
                assert(!(seen[i].delay_delta_ns > 2_000_000 && seen[i].measured_latency_ns > 0));
            }
        },
    }
}

/// What the reading of one class comes to. A controller that is off only takes it in. With a
/// delay of more than two milliseconds the class is boosted, and another one with most load
/// backs off for it, if that has more than seven tenths of load; without such a class nothing
/// moves. With less delay the class is adjusted and no other one changes.
pub proof fn single_readings_are_answered(
    b: Board,
    class: u32,
    latency_ns: u64,
    target_latency_ns: u64,
    load: Ratio,
    config: AutorateConfig,
    now_ns: u64,
)
    requires
        class < 4,
        b.states.len() == 4,
        load.valid(),
        forall|i: int| 0 <= i < 4 ==> (#[trigger] b.states[i]).load.valid(),
    ensures
        ({
            let r = b.updated_one(class, latency_ns, target_latency_ns, load, config, now_ns);
            let (c, configs) = (class as int, config.share_configs@);
            let seen = b.states[c].observed(load, latency_ns, now_ns);
            let busy = |k: int|
                0 <= k < 4 && k != c && 10 * b.states[k].load.num > 7 * b.states[k].load.den;
            let rests = |i: int|
                r.states[i].current_share == b.states[i].current_share && r.states[i].state
                    == b.states[i].state;
            &&& r.states.len() == 4
            &&& r.states[c].target_latency_ns == target_latency_ns
            &&& r.states[c].load == seen.load
            &&& r.states[c].measured_latency_ns == seen.measured_latency_ns
            &&& r.states[c].delay_delta_ns == seen.delay_delta_ns
            &&& forall|i: int|
                0 <= i < 4 && i != c ==> same_readings(#[trigger] r.states[i], b.states[i])
            &&& !config.enabled ==> forall|i: int| 0 <= i < 4 ==> #[trigger] rests(i)
            &&& config.enabled && seen.delay_delta_ns > 2_000_000 ==> {
                &&& (forall|k: int| !#[trigger] busy(k)) ==> forall|i: int|
                    0 <= i < 4 ==> #[trigger] rests(i)
                &&& (exists|k: int| #[trigger] busy(k)) ==> {
                    &&& r.states[c].current_share == ShareMove::Boost.moved(
                        configs[c],
                        b.states[c].current_share,
                    )
                    &&& exists|k: int| #[trigger]
                        busy(k) && r.states[k].current_share == ShareMove::BackOff.moved(
                            configs[k],
                            b.states[k].current_share,
                        ) && (forall|i: int|
                            0 <= i < 4 && i != c ==> !(#[trigger] b.states[i]).load.above(
                                b.states[k].load,
                            )) && (forall|i: int|
                            0 <= i < 4 && i != c && i != k ==> #[trigger] r.states[i] == b.states[i])
                }
            }
            &&& config.enabled && seen.delay_delta_ns <= 2_000_000 ==> {
                &&& forall|i: int| 0 <= i < 4 && i != c ==> #[trigger] r.states[i] == b.states[i]
                &&& r.states[c].state == AutorateState::Steady ==> r.states[c].current_share
                    == b.states[c].current_share
                &&& r.states[c].state == AutorateState::Exploring ==> r.states[c].current_share
                    == ShareMove::RampUp.moved(configs[c], b.states[c].current_share)
                &&& r.states[c].state == AutorateState::BackingOff ==> r.states[c].current_share
                    == ShareMove::BackOff.moved(configs[c], b.states[c].current_share)
                &&& r.states[c].state == AutorateState::Idle ==> r.states[c].current_share
                    == ShareMove::Decay.moved(configs[c], b.states[c].current_share)
            }
        }),
{
    let c = class as int;
    let r = b.updated_one(class, latency_ns, target_latency_ns, load, config, now_ns);
    let seen = b.states[c].observed(load, latency_ns, now_ns);
    let after = reading(b.states, class, latency_ns, target_latency_ns, load, now_ns);
    let busy = |k: int|
        0 <= k < 4 && k != c && 10 * b.states[k].load.num > 7 * b.states[k].load.den;
    assert forall|i: int| 0 <= i < 4 implies (#[trigger] after[i]).load.valid() by {
        if i != c {
            assert(after[i] == b.states[i]);
        }
    }
    assert(forall|i: int| 0 <= i < 4 && i != c ==> #[trigger] after[i] == b.states[i]);
    controlling_class_has_the_highest_load(after, c, 4);
    if config.enabled && seen.delay_delta_ns > 2_000_000 {
        match controlling(after, c, 4) {
            Some(k) => {
                let k = k as int;
                assert(after[k] == b.states[k]);
                assert(busy(k) <==> b.states[k].load.above_milli(700));
                assert forall|i: int| 0 <= i < 4 && i != c implies !(
                #[trigger] b.states[i]).load.above(b.states[k].load) by {
                    assert(after[i] == b.states[i]);
                }
                if exists|j: int| #[trigger] busy(j) {
                    let j = choose|j: int| #[trigger] busy(j);
                    let bar = Ratio { num: 700, den: 1000 };
                    if !b.states[k].load.above(bar) {
                        crate::ratio::above_is_transitive(bar, b.states[k].load, b.states[j].load);
                    }
                    assert(busy(k));
                    assert(r.states[k].current_share == ShareMove::BackOff.moved(
                        config.share_configs@[k],
                        b.states[k].current_share,
                    ));
                    assert(forall|i: int|
                        0 <= i < 4 && i != c && i != k ==> #[trigger] r.states[i] == b.states[i]);
                }
            },
            None => {
                assert forall|k: int| !#[trigger] busy(k) by {
                    if 0 <= k < 4 && k != c {
                        assert(after[k] == b.states[k]);
                        assert(b.states[k].load.num == 0);
                    }
                }
            },
        }
    }
}

/// Each class starts idle with its own base share, and with targets that relax from class to
/// class: 1, 5, 20 and 50 ms.
pub proof fn classes_start_at_their_base_shares(configs: Seq<ShareConfig>, now_ns: u64, i: int)
    requires
        configs.len() == 4,
        0 <= i < 4,
        configs[i].base_share <= 1000,
    ensures
        ({
            let s = starting_states(configs, now_ns);
            &&& s.len() == 4
            &&& s[i].current_share == configs[i].base_share * 1_000_000
            &&& s[i].state == AutorateState::Idle
            &&& s[i].delay_delta_ns == 0
            &&& s[i].target_latency_ns == if i == 0 {
                1_000_000
            } else if i == 1 {
                5_000_000
            } else if i == 2 {
                20_000_000
            } else {
                50_000_000int
            }
            &&& s[i].latency_baseline.baseline_ns == if i <= 1 {
                1_000_000
            } else if i == 2 {
                5_000_000
            } else {
                10_000_000int
            }
        }),
{
}

} // verus!
