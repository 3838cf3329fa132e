//! PIE (Proportional Integral controller Enhanced): adjusts the scheduling
//! parameters of each CPU and task class from measured latency, in fixed point.

use vstd::prelude::*;

use crate::descent::bound_debug::{
    after_clamp, after_update, quotient, recorded_counts_are_found, room_for_clamp,
    room_for_update, stats_of, store, BoundDebugger, BoundKey, BoundStats, Records,
};
use crate::descent::profiles::{
    bounds_ordered, DefaultParams, ParamBounds, Profile, DESCENT_CLASS_MAX, PARAM_COUNT,
};

verus! {

/// Fixed-point scale of the integral accumulator.
pub const INTEGRAL_SCALE: i64 = 1024;

/// Weight of a new measurement in the smoothed latency.
pub const EWMA_ALPHA_NUM: u64 = 3;

/// Sum of the weights in the smoothed latency.
pub const EWMA_ALPHA_DEN: u64 = 10;

/// Divisor of the proportional term.
pub const DEFAULT_ALPHA_DIV: u64 = 8;

/// Divisor of the integral increment.
pub const DEFAULT_BETA_DIV: u64 = 4;

/// Largest absolute value of the integral accumulator.
pub const DEFAULT_MAX_INTEGRAL: i64 = 1_000_000;

/// State of the controller for one CPU and class.
#[derive(Debug, Clone, Copy)]
pub struct PieState {
    /// Target latency in nanoseconds.
    pub target_latency_ns: u64,
    /// Smoothed latency.
    pub current_latency_ns: u64,
    /// Smoothed latency before the last measurement.
    pub prev_latency_ns: u64,
    /// Integral accumulator, scaled by `INTEGRAL_SCALE`.
    pub integral_accum: i64,
    /// Current scheduling parameters.
    pub current_params: [u64; PARAM_COUNT],
    /// Number of updates.
    pub update_count: u64,
}

/// The smoothed latency after one more measurement.
pub open spec fn smoothed(measured: nat, current: nat) -> nat {
    (EWMA_ALPHA_NUM * measured + (EWMA_ALPHA_DEN - EWMA_ALPHA_NUM) * current) as nat
        / EWMA_ALPHA_DEN as nat
}

impl PieState {
    /// A state at its target latency.
    pub fn new(target_latency_ns: u64, default_params: [u64; PARAM_COUNT]) -> (r: Self)
        ensures
            r == fresh(target_latency_ns, default_params),
    {
        PieState {
            target_latency_ns,
            current_latency_ns: target_latency_ns,
            prev_latency_ns: target_latency_ns,
            integral_accum: 0,
            current_params: default_params,
            update_count: 0,
        }
    }

    /// The weighted sum of a measurement and the smoothed latency fits its type.
    pub open spec fn accepts(self, measured: u64) -> bool {
        EWMA_ALPHA_NUM * measured + (EWMA_ALPHA_DEN - EWMA_ALPHA_NUM) * self.current_latency_ns
            <= u64::MAX
    }

    /// Smooths a new measurement into the latency.
    pub fn update_ewma(&mut self, measured_latency_ns: u64)
        requires
            old(self).accepts(measured_latency_ns),
        ensures
            *final(self) == (PieState {
                prev_latency_ns: old(self).current_latency_ns,
                current_latency_ns: smoothed(
                    measured_latency_ns as nat,
                    old(self).current_latency_ns as nat,
                ) as u64,
                ..*old(self)
            }),
            final(self).current_latency_ns == smoothed(
                measured_latency_ns as nat,
                old(self).current_latency_ns as nat,
            ),
    {
        let inv_alpha: u64 = EWMA_ALPHA_DEN - EWMA_ALPHA_NUM;
        self.prev_latency_ns = self.current_latency_ns;
        self.current_latency_ns = (EWMA_ALPHA_NUM * measured_latency_ns + inv_alpha
            * self.current_latency_ns) / EWMA_ALPHA_DEN;
    }
}

/// A state at its target latency.
pub open spec fn fresh(target: u64, params: [u64; PARAM_COUNT]) -> PieState {
    PieState {
        target_latency_ns: target,
        current_latency_ns: target,
        prev_latency_ns: target,
        integral_accum: 0,
        current_params: params,
        update_count: 0,
    }
}

/// Configuration of the controller.
#[derive(Debug, Clone, Copy)]
pub struct PieConfig {
    /// Divisor of the proportional term.
    pub alpha_div: u64,
    /// Divisor of the integral increment.
    pub beta_div: u64,
    /// Largest absolute value of the integral accumulator.
    pub max_integral: i64,
    /// Target latency of each class.
    pub target_latencies: [u64; DESCENT_CLASS_MAX],
    /// Bounds of the parameters of each class.
    pub param_bounds: ParamBounds,
    /// Parameters that each class starts from.
    pub default_params: DefaultParams,
}

impl PieConfig {
    /// The targets, bounds and defaults of a profile with the standard gains.
    pub fn from_profile(profile: &Profile) -> (r: Self)
        ensures
            r.alpha_div == DEFAULT_ALPHA_DIV,
            r.beta_div == DEFAULT_BETA_DIV,
            r.max_integral == DEFAULT_MAX_INTEGRAL,
            r.target_latencies == profile.target_latencies_ns,
            r.param_bounds == profile.bounds,
            r.default_params == profile.default_params,
    {
        PieConfig {
            alpha_div: DEFAULT_ALPHA_DIV,
            beta_div: DEFAULT_BETA_DIV,
            max_integral: DEFAULT_MAX_INTEGRAL,
            target_latencies: profile.target_latencies_ns,
            param_bounds: profile.bounds,
            default_params: profile.default_params,
        }
    }

    /// The parameters that a class starts from; zeros for one that does not exist.
    pub open spec fn defaults_of(self, class: u32) -> [u64; PARAM_COUNT] {
        if class < DESCENT_CLASS_MAX {
            self.default_params[class as int]
        } else {
            [0u64; PARAM_COUNT]
        }
    }

    /// The parameters that a class starts from; zeros for one that does not exist.
    pub fn get_default_params(&self, class: u32) -> (r: [u64; PARAM_COUNT])
        ensures
            r == self.defaults_of(class),
    {
        let class_idx: usize = class as usize;
        if class_idx >= DESCENT_CLASS_MAX {
            return [0; PARAM_COUNT];
        }
        self.default_params[class_idx]
    }

    /// The target latency of a class; 0 for one that does not exist.
    pub open spec fn target_of(self, class: u32) -> u64 {
        if class < DESCENT_CLASS_MAX {
            self.target_latencies[class as int]
        } else {
            0
        }
    }

    /// The target latency of a class; 0 for one that does not exist.
    pub fn get_target_latency(&self, class: u32) -> (r: u64)
        ensures
            r == self.target_of(class),
    {
        let class_idx: usize = class as usize;
        if class_idx >= DESCENT_CLASS_MAX {
            return 0;
        }
        self.target_latencies[class_idx]
    }
}

/// `v` brought between `lo` and `hi`.
pub open spec fn clamped(v: u64, lo: u64, hi: u64) -> u64 {
    if v < lo {
        lo
    } else if v > hi {
        hi
    } else {
        v
    }
}

fn clamp_to(v: u64, lo: u64, hi: u64) -> (r: u64)
    ensures
        r == clamped(v, lo, hi),
{
    if v < lo {
        lo
    } else if v > hi {
        hi
    } else {
        v
    }
}

/// `v` raised by `n`, as far as its type goes.
pub open spec fn raised(v: u64, n: int) -> u64 {
    if v + n > u64::MAX {
        u64::MAX
    } else {
        (v + n) as u64
    }
}

/// `v` lowered by `n`, down to 0.
pub open spec fn lowered(v: u64, n: int) -> u64 {
    if v - n < 0 {
        0
    } else {
        (v - n) as u64
    }
}

/// A parameter after an adjustment, before it is held to its bounds. A positive
/// adjustment, which a latency above its target gives, raises the latency weight
/// and lowers slice, vruntime scale and migration cost; the preemption priority
/// is a tenth of the slice.
pub open spec fn adjusted(params: [u64; PARAM_COUNT], adjustment: int, i: int) -> u64 {
    if i == 0 {
        if adjustment > 0 {
            raised(params[0], adjustment / 2)
        } else {
            lowered(params[0], (-adjustment) / 2)
        }
    } else if i == 3 {
        adjusted_slice(params, adjustment) / 10
    } else if i == 1 {
        adjusted_slice(params, adjustment)
    } else {
        let part = if i == 2 { 4int } else { 10int };
        if adjustment > 0 {
            lowered(params[i], adjustment / part)
        } else {
            raised(params[i], (-adjustment) / part)
        }
    }
}

/// The slice after an adjustment.
pub open spec fn adjusted_slice(params: [u64; PARAM_COUNT], adjustment: int) -> u64 {
    if adjustment > 0 {
        lowered(params[1], adjustment)
    } else {
        raised(params[1], -adjustment)
    }
}

/// A parameter after an adjustment.
pub open spec fn adjusted_within(
    params: [u64; PARAM_COUNT],
    adjustment: int,
    bounds: Option<[(u64, u64); 5]>,
    i: int,
) -> u64 {
    match bounds {
        Some(b) => clamped(adjusted(params, adjustment, i), b[i].0, b[i].1),
        None => adjusted(params, adjustment, i),
    }
}

/// The integral accumulator after the smoothed latency went from `prev` to `current`.
pub open spec fn next_integral(config: PieConfig, accum: i64, prev: u64, current: u64) -> int {
    let sum = accum + quotient(current - prev, config.beta_div as int);
    if sum < -config.max_integral {
        -config.max_integral
    } else if sum > config.max_integral {
        config.max_integral as int
    } else {
        sum
    }
}

/// The adjustment that a latency and an integral call for.
pub open spec fn adjustment_for(config: PieConfig, target: u64, current: u64, integral: int) -> int {
    quotient(current - target, config.alpha_div as int) + quotient(integral, INTEGRAL_SCALE as int)
}

/// The smoothed latency after a measurement.
pub open spec fn next_latency(before: PieState, measured: u64) -> u64 {
    smoothed(measured as nat, before.current_latency_ns as nat) as u64
}

/// How far the smoothed latency lies above its target after a measurement.
pub open spec fn next_error(before: PieState, measured: u64) -> i64 {
    (next_latency(before, measured) - before.target_latency_ns) as i64
}

/// The adjustment that a measurement calls for.
pub open spec fn next_adjustment(config: PieConfig, before: PieState, measured: u64) -> int {
    let current = next_latency(before, measured);
    adjustment_for(
        config,
        before.target_latency_ns,
        current,
        next_integral(config, before.integral_accum, before.current_latency_ns, current),
    )
}

/// The parameters after a measurement, before they are held to their bounds.
pub open spec fn wanted_params(config: PieConfig, before: PieState, measured: u64) -> Seq<u64> {
    let adjustment = next_adjustment(config, before, measured);
    Seq::new(PARAM_COUNT as nat, |i: int| adjusted(before.current_params, adjustment, i))
}

/// `after` is the state of a class after a measurement.
pub open spec fn is_next_state(
    config: PieConfig,
    class: u32,
    before: PieState,
    measured: u64,
    after: PieState,
) -> bool {
    let current = next_latency(before, measured);
    let adjustment = next_adjustment(config, before, measured);
    &&& after.target_latency_ns == before.target_latency_ns
    &&& after.current_latency_ns == current
    &&& after.prev_latency_ns == before.current_latency_ns
    &&& after.integral_accum == next_integral(
        config,
        before.integral_accum,
        before.current_latency_ns,
        current,
    )
    &&& after.update_count == before.update_count + 1
    &&& forall|i: int|
        0 <= i < PARAM_COUNT ==> #[trigger] after.current_params[i] == adjusted_within(
            before.current_params,
            adjustment,
            Some(config.param_bounds[class as int]),
            i,
        )
}

/// The records after the first `n` parameters of a class were held to their bounds.
pub open spec fn after_clamps(
    s: Records,
    bounds: ParamBounds,
    cpu: u32,
    class: u32,
    params: Seq<u64>,
    error: i64,
    n: int,
) -> Records
    decreases n,
{
    if n <= 0 {
        s
    } else {
        let before = after_clamps(s, bounds, cpu, class, params, error, n - 1);
        let key = BoundKey { cpu, class, param_idx: (n - 1) as usize };
        let (lo, hi) = bounds[class as int][n - 1];
        let value = params[n - 1];
        let stats = stats_of(before, key);
        if clamped(value, lo, hi) != value {
            store(
                before,
                key,
                after_clamp(stats, lo, hi, value, clamped(value, lo, hi), error),
            )
        } else {
            store(before, key, after_update(stats))
        }
    }
}

/// One more update of each parameter of a class can be counted.
pub open spec fn room_for_clamps(
    s: Records,
    bounds: ParamBounds,
    cpu: u32,
    class: u32,
    params: Seq<u64>,
    error: i64,
) -> bool {
    forall|i: int|
        0 <= i < PARAM_COUNT ==> {
            let (lo, hi) = bounds[class as int][i];
            let stats = #[trigger] stats_of(s, BoundKey { cpu, class, param_idx: i as usize });
            &&& room_for_update(stats)
            &&& clamped(params[i], lo, hi) != params[i] ==> room_for_clamp(
                stats,
                lo,
                hi,
                params[i],
                clamped(params[i], lo, hi),
                error,
            )
        }
}

proof fn lemma_clamps_elsewhere(
    s: Records,
    bounds: ParamBounds,
    cpu: u32,
    class: u32,
    params: Seq<u64>,
    error: i64,
    n: int,
    i: int,
)
    requires
        0 <= n <= i < PARAM_COUNT,
    ensures
        stats_of(
            after_clamps(s, bounds, cpu, class, params, error, n),
            BoundKey { cpu, class, param_idx: i as usize },
        ) == stats_of(s, BoundKey { cpu, class, param_idx: i as usize }),
    decreases n,
{
    if n > 0 {
        lemma_clamps_elsewhere(s, bounds, cpu, class, params, error, n - 1, i);
        let before = after_clamps(s, bounds, cpu, class, params, error, n - 1);
        let key = BoundKey { cpu, class, param_idx: (n - 1) as usize };
        let other = BoundKey { cpu, class, param_idx: i as usize };
        let (lo, hi) = bounds[class as int][n - 1];
        let value = params[n - 1];
        let stats = stats_of(before, key);
        recorded_counts_are_found(before, key, after_update(stats), other);
        recorded_counts_are_found(
            before,
            key,
            after_clamp(stats, lo, hi, value, clamped(value, lo, hi), error),
            other,
        );
    }
}

/// Holding the parameters of one CPU and class to their bounds leaves the records of
/// all others as they are.
pub proof fn clamps_leave_others(
    s: Records,
    bounds: ParamBounds,
    cpu: u32,
    class: u32,
    params: Seq<u64>,
    error: i64,
    n: int,
    other: BoundKey,
)
    requires
        n <= PARAM_COUNT,
        other.cpu != cpu || other.class != class,
    ensures
        stats_of(after_clamps(s, bounds, cpu, class, params, error, n), other) == stats_of(s, other),
    decreases n,
{
    if n > 0 {
        clamps_leave_others(s, bounds, cpu, class, params, error, n - 1, other);
        let before = after_clamps(s, bounds, cpu, class, params, error, n - 1);
        let key = BoundKey { cpu, class, param_idx: (n - 1) as usize };
        let (lo, hi) = bounds[class as int][n - 1];
        let value = params[n - 1];
        let stats = stats_of(before, key);
        recorded_counts_are_found(before, key, after_update(stats), other);
        recorded_counts_are_found(
            before,
            key,
            after_clamp(stats, lo, hi, value, clamped(value, lo, hi), error),
            other,
        );
    }
}

/// A PIE controller for every CPU and task class.
pub struct PieController {
    states: Vec<PieState>,
    nr_cpus: u32,
    config: PieConfig,
    debugger: BoundDebugger,
}

impl PieController {
    /// The number of CPUs that have a state.
    pub closed spec fn cpus(&self) -> nat {
        self.nr_cpus as nat
    }

    /// The configuration.
    pub closed spec fn config(&self) -> PieConfig {
        self.config
    }

    /// The debugger that records clamps.
    pub closed spec fn debugger(&self) -> BoundDebugger {
        self.debugger
    }

    /// There is a state for the CPU and class.
    pub open spec fn has(&self, cpu: u32, class: u32) -> bool {
        cpu < self.cpus() && class < DESCENT_CLASS_MAX
    }

    /// The state of a CPU and class.
    pub closed spec fn state(&self, cpu: u32, class: u32) -> PieState {
        self.states@[cpu * 4 + class]
    }

    /// There is a state for every CPU and class, none of which has accumulated more
    /// than the largest integral or moved off a target that is out of range.
    pub closed spec fn wf(&self) -> bool {
        &&& self.states@.len() == self.nr_cpus * 4
        &&& self.config.alpha_div == DEFAULT_ALPHA_DIV
        &&& self.config.beta_div == DEFAULT_BETA_DIV
        &&& self.config.max_integral == DEFAULT_MAX_INTEGRAL
        &&& self.debugger.wf()
        &&& self.debugger.bounds() == self.config.param_bounds
        &&& forall|i: int| 0 <= i < self.states@.len() ==> state_ok(#[trigger] self.states@[i])
    }

    /// No integral exceeds its largest value.
    pub proof fn lemma_integral_bounded(&self, cpu: u32, class: u32)
        requires
            self.wf(),
            self.has(cpu, class),
        ensures
            -DEFAULT_MAX_INTEGRAL <= self.state(cpu, class).integral_accum <= DEFAULT_MAX_INTEGRAL,
    {
        assert(state_ok(self.states@[cpu * 4 + class]));
    }

    /// A measurement can be taken in from the state `start` of a CPU and class: its
    /// weighted latency and its counters fit their types.
    pub open spec fn can_update_from(
        &self,
        start: PieState,
        cpu: u32,
        class: u32,
        measured_latency_ns: u64,
    ) -> bool {
        &&& start.accepts(measured_latency_ns)
        &&& start.update_count < u64::MAX
        &&& self.debugger().enabled() ==> room_for_clamps(
            self.debugger().records(),
            self.config().param_bounds,
            cpu,
            class,
            wanted_params(self.config(), start, measured_latency_ns),
            next_error(start, measured_latency_ns),
        )
    }

    /// A measurement of a CPU and class can be taken in.
    pub open spec fn can_update(&self, cpu: u32, class: u32, measured_latency_ns: u64) -> bool {
        self.can_update_from(self.state(cpu, class), cpu, class, measured_latency_ns)
    }

    /// A controller in which every CPU and class is at its target latency with its
    /// default parameters. Recording of clamps is off.
    pub fn new(nr_cpus: usize, profile: &Profile) -> (r: Self)
        requires
            nr_cpus <= u32::MAX,
        ensures
            is_new(r, nr_cpus as nat, *profile),
    {
        let config = PieConfig::from_profile(profile);
        let mut states: Vec<PieState> = Vec::new();
        let mut cpu: u32 = 0;
        while cpu < nr_cpus as u32
            invariant
                cpu <= nr_cpus <= u32::MAX,
                states@.len() == cpu * 4,
                config.target_latencies == profile.target_latencies_ns,
                config.default_params == profile.default_params,
                forall|i: int|
                    0 <= i < states@.len() ==> #[trigger] states@[i] == fresh(
                        profile.target_latencies_ns[i % 4],
                        profile.default_params[i % 4],
                    ),
            decreases nr_cpus - cpu,
        {
            let mut class: u32 = 0;
            while class < DESCENT_CLASS_MAX as u32
                invariant
                    cpu < nr_cpus <= u32::MAX,
                    class <= 4,
                    states@.len() == cpu * 4 + class,
                    config.target_latencies == profile.target_latencies_ns,
                    config.default_params == profile.default_params,
                    forall|i: int|
                        0 <= i < states@.len() ==> #[trigger] states@[i] == fresh(
                            profile.target_latencies_ns[i % 4],
                            profile.default_params[i % 4],
                        ),
                decreases 4 - class,
            {
                assert((cpu * 4 + class) % 4 == class);
                let target_latency: u64 = config.get_target_latency(class);
                let default_params = config.get_default_params(class);
                states.push(PieState::new(target_latency, default_params));
                class = class + 1;
            }
            cpu = cpu + 1;
        }
        PieController {
            states,
            nr_cpus: nr_cpus as u32,
            config,
            debugger: BoundDebugger::new(config.param_bounds, false),
        }
    }

    /// Takes in a latency measurement of a CPU and class and returns its new
    /// parameters. Without a state for them nothing changes and the default
    /// parameters of the class are returned.
    pub fn update(&mut self, cpu: u32, class: u32, measured_latency_ns: u64) -> (r: [u64; 5])
        requires
            old(self).wf(),
            bounds_ordered(old(self).config().param_bounds),
            old(self).has(cpu, class) ==> old(self).can_update(cpu, class, measured_latency_ns),
        ensures
            is_update(*old(self), cpu, class, measured_latency_ns, *final(self)),
            r == answer(*final(self), cpu, class),
    {
        if cpu >= self.nr_cpus || class as usize >= DESCENT_CLASS_MAX {
            return self.config.get_default_params(class);
        }
        let count: usize = self.states.len();
        assert(cpu * 4 + class < count);
        let at: usize = cpu as usize * 4 + class as usize;
        let ghost before = self.states@[at as int];
        assert(before == old(self).state(cpu, class));
        assert(state_ok(before));
        let mut state: PieState = self.states[at];

        state.update_ewma(measured_latency_ns);
        state.update_count = state.update_count + 1;

        let latency_delta: i64 = state.current_latency_ns as i64 - state.prev_latency_ns as i64;
        let integral_increment: i64 = latency_delta / self.config.beta_div as i64;
        assert(integral_increment == quotient(latency_delta as int, 4));
        state.integral_accum = state.integral_accum + integral_increment;
        if state.integral_accum < -self.config.max_integral {
            state.integral_accum = -self.config.max_integral;
        } else if state.integral_accum > self.config.max_integral {
            state.integral_accum = self.config.max_integral;
        }

        let latency_error: i64 = state.current_latency_ns as i64 - state.target_latency_ns as i64;
        let p_term: i64 = latency_error / self.config.alpha_div as i64;
        assert(p_term == quotient(latency_error as int, 8));
        let i_term: i64 = state.integral_accum / INTEGRAL_SCALE;
        let adjustment: i64 = p_term + i_term;

        let new_params = Self::calculate_params_with_bounds(
            adjustment,
            state.current_params,
            None,
        );
        assert(new_params@ =~= wanted_params(self.config, before, measured_latency_ns));
        let clamped_params = self.clamp_params_with_debug(class, new_params, cpu, latency_error);
        state.current_params = clamped_params;
        self.states.set(at, state);
        assert forall|c: u32, k: u32|
            old(self).has(c, k) && !(c == cpu && k == class) implies #[trigger] self.state(c, k)
                == old(self).state(c, k) by {
            assert(c * 4 + k != cpu * 4 + class);
        }
        clamped_params
    }

    /// Takes in a latency measurement like `update`, but fine-tunes the given
    /// parameters instead of the current ones.
    pub fn update_with_base_params(
        &mut self,
        cpu: u32,
        class: u32,
        measured_latency_ns: u64,
        base_params: [u64; 5],
    ) -> (r: [u64; 5])
        requires
            old(self).wf(),
            bounds_ordered(old(self).config().param_bounds),
            old(self).has(cpu, class) ==> old(self).can_update_from(
                PieState { current_params: base_params, ..old(self).state(cpu, class) },
                cpu,
                class,
                measured_latency_ns,
            ),
        ensures
            final(self).wf(),
            final(self).cpus() == old(self).cpus(),
            final(self).config() == old(self).config(),
            final(self).debugger().enabled() == old(self).debugger().enabled(),
            final(self).debugger().threshold() == old(self).debugger().threshold(),
            !old(self).has(cpu, class) ==> r == old(self).config().defaults_of(class)
                && final(self).debugger().records() == old(self).debugger().records(),
            forall|c: u32, k: u32|
                old(self).has(c, k) && !(c == cpu && k == class) ==> #[trigger] final(self).state(c, k)
                    == old(self).state(c, k),
            old(self).has(cpu, class) ==> {
                &&& is_next_state(
                    old(self).config(),
                    class,
                    PieState { current_params: base_params, ..old(self).state(cpu, class) },
                    measured_latency_ns,
                    final(self).state(cpu, class),
                )
                &&& r == final(self).state(cpu, class).current_params
                &&& final(self).debugger().records() == if old(self).debugger().enabled() {
                    after_clamps(
                        old(self).debugger().records(),
                        old(self).config().param_bounds,
                        cpu,
                        class,
                        wanted_params(
                            old(self).config(),
                            PieState { current_params: base_params, ..old(self).state(cpu, class) },
                            measured_latency_ns,
                        ),
                        next_error(old(self).state(cpu, class), measured_latency_ns),
                        PARAM_COUNT as int,
                    )
                } else {
                    old(self).debugger().records()
                }
            },
    {
        if cpu >= self.nr_cpus || class as usize >= DESCENT_CLASS_MAX {
            return self.config.get_default_params(class);
        }
        let count: usize = self.states.len();
        assert(cpu * 4 + class < count);
        let at: usize = cpu as usize * 4 + class as usize;
        let mut state: PieState = self.states[at];
        assert(state_ok(self.states@[at as int]));
        state.current_params = base_params;
        self.states.set(at, state);
        assert(self.state(cpu, class) == (PieState {
            current_params: base_params,
            ..old(self).state(cpu, class)
        }));
        assert forall|c: u32, k: u32|
            old(self).has(c, k) && !(c == cpu && k == class) implies #[trigger] self.state(c, k)
                == old(self).state(c, k) by {
            assert(c * 4 + k != cpu * 4 + class);
        }
        assert(self.debugger() == old(self).debugger());
        assert(self.can_update(cpu, class, measured_latency_ns));
        self.update(cpu, class, measured_latency_ns)
    }

    /// The parameters after an adjustment, held to the bounds if there are any.
    pub fn calculate_params_with_bounds(
        adjustment: i64,
        current_params: [u64; 5],
        bounds: Option<[(u64, u64); 5]>,
    ) -> (r: [u64; 5])
        requires
            adjustment > i64::MIN,
            bounds matches Some(b) ==> forall|i: int|
                0 <= i < PARAM_COUNT ==> (#[trigger] b[i]).0 <= b[i].1,
        ensures
            forall|i: int|
                0 <= i < PARAM_COUNT ==> #[trigger] r[i] == adjusted_within(
                    current_params,
                    adjustment as int,
                    bounds,
                    i,
                ),
    {
        let mut new_params = current_params;
        if adjustment > 0 {
            new_params[0] = current_params[0].saturating_add((adjustment / 2) as u64);
            new_params[1] = current_params[1].saturating_sub(adjustment as u64);
            new_params[2] = current_params[2].saturating_sub((adjustment / 4) as u64);
            new_params[4] = current_params[4].saturating_sub((adjustment / 10) as u64);
        } else {
            let lack: i64 = -adjustment;
            new_params[0] = current_params[0].saturating_sub((lack / 2) as u64);
            new_params[1] = current_params[1].saturating_add(lack as u64);
            new_params[2] = current_params[2].saturating_add((lack / 4) as u64);
            new_params[4] = current_params[4].saturating_add((lack / 10) as u64);
        }
        new_params[3] = new_params[1] / 10;
        assert forall|i: int| 0 <= i < PARAM_COUNT implies #[trigger] new_params[i] == adjusted(
            current_params,
            adjustment as int,
            i,
        ) by {
            assert(i == 0 || i == 1 || i == 2 || i == 3 || i == 4);
        }
        let ghost free = new_params;
        if let Some(b) = bounds {
            let mut i: usize = 0;
            while i < PARAM_COUNT
                invariant
                    i <= 5,
                    forall|j: int|
                        0 <= j < i ==> #[trigger] new_params[j] == clamped(free[j], b[j].0, b[j].1),
                    forall|j: int| i <= j < 5 ==> #[trigger] new_params[j] == free[j],
                decreases 5 - i,
            {
                let (min, max) = b[i];
                new_params[i] = clamp_to(new_params[i], min, max);
                i = i + 1;
            }
        }
        new_params
    }

    /// Holds parameters to the bounds of their class, and records each of them as
    /// clamped or updated while recording is on. Those of a class that does not
    /// exist are returned as they are.
    pub fn clamp_params_with_debug(
        &mut self,
        class: u32,
        params: [u64; 5],
        cpu: u32,
        latency_error_ns: i64,
    ) -> (r: [u64; 5])
        requires
            old(self).wf(),
            bounds_ordered(old(self).config().param_bounds),
            old(self).debugger().enabled() && class < DESCENT_CLASS_MAX ==> room_for_clamps(
                old(self).debugger().records(),
                old(self).config().param_bounds,
                cpu,
                class,
                params@,
                latency_error_ns,
            ),
        ensures
            is_clamp(*old(self), class, params, cpu, latency_error_ns, *final(self), r),
            final(self).rest() == old(self).rest(),
    {
        let class_idx: usize = class as usize;
        if class_idx >= DESCENT_CLASS_MAX {
            return params;
        }
        let mut result: [u64; 5] = [0u64; 5];
        let mut i: usize = 0;
        let ghost start = self.debugger.records();
        while i < PARAM_COUNT
            invariant
                i <= 5,
                class_idx == class < 4,
                old(self).wf(),
                self.wf(),
                self.rest() == old(self).rest(),
                start == old(self).debugger().records(),
                self.debugger.enabled() ==> room_for_clamps(
                    start,
                    self.config.param_bounds,
                    cpu,
                    class,
                    params@,
                    latency_error_ns,
                ),
                self.debugger.enabled() == old(self).debugger().enabled(),
                self.debugger.threshold() == old(self).debugger().threshold(),
                self.debugger.records() == if self.debugger.enabled() {
                    after_clamps(
                        start,
                        self.config.param_bounds,
                        cpu,
                        class,
                        params@,
                        latency_error_ns,
                        i as int,
                    )
                } else {
                    start
                },
                forall|j: int|
                    0 <= j < i ==> #[trigger] result[j] == clamped(
                        params[j],
                        self.config.param_bounds[class as int][j].0,
                        self.config.param_bounds[class as int][j].1,
                    ),
            decreases 5 - i,
        {
            let (min, max) = self.config.param_bounds[class_idx][i];
            let original: u64 = params[i];
            let bounded: u64 = clamp_to(original, min, max);
            result[i] = bounded;
            proof {
                lemma_clamps_elsewhere(
                    start,
                    self.config.param_bounds,
                    cpu,
                    class,
                    params@,
                    latency_error_ns,
                    i as int,
                    i as int,
                );
                let key = BoundKey { cpu, class, param_idx: i };
                assert(stats_of(self.debugger.records(), key) == stats_of(start, key));
            }
            if original != bounded {
                self.debugger.record_clamp(cpu, class, i, original, bounded, latency_error_ns);
            } else {
                self.debugger.record_update(cpu, class, i);
            }
            i = i + 1;
        }
        result
    }

    /// Everything but the debugger.
    pub closed spec fn rest(&self) -> (Seq<PieState>, u32, PieConfig) {
        (self.states@, self.nr_cpus, self.config)
    }

    /// Turns the recording of clamps on or off.
    pub fn set_bound_debugging(&mut self, enabled: bool)
        requires
            old(self).wf(),
        ensures
            final(self).wf(),
            final(self).rest() == old(self).rest(),
            final(self).cpus() == old(self).cpus(),
            final(self).config() == old(self).config(),
            forall|c: u32, k: u32|
                #[trigger] final(self).state(c, k) == old(self).state(c, k),
            final(self).debugger().enabled() == enabled,
            final(self).debugger().records() == old(self).debugger().records(),
            final(self).debugger().threshold() == old(self).debugger().threshold(),
    {
        self.debugger.set_enabled(enabled);
    }

    /// The debugger that records clamps.
    pub fn bound_debugger(&self) -> (r: Option<&BoundDebugger>)
        requires
            self.wf(),
        ensures
            r matches Some(d) && *d == self.debugger() && d.wf(),
    {
        Some(&self.debugger)
    }

    /// The state of a CPU and class.
    pub fn get_state(&self, cpu: u32, class: u32) -> (r: Option<&PieState>)
        requires
            self.wf(),
        ensures
            match r {
                Some(s) => self.has(cpu, class) && *s == self.state(cpu, class),
                None => !self.has(cpu, class),
            },
    {
        if cpu >= self.nr_cpus || class as usize >= DESCENT_CLASS_MAX {
            return None;
        }
        let count: usize = self.states.len();
        assert(cpu * 4 + class < count);
        Some(&self.states[cpu as usize * 4 + class as usize])
    }

    /// The parameters that a class starts from; zeros for one that does not exist.
    pub fn get_default_params(&self, class: u32) -> (r: [u64; 5])
        ensures
            r == self.config().defaults_of(class),
    {
        self.config.get_default_params(class)
    }
}

/// `after` is a controller after a measurement of a CPU and class. Without a state for them
/// nothing changes.
pub open spec fn is_update(
    before: PieController,
    cpu: u32,
    class: u32,
    measured: u64,
    after: PieController,
) -> bool {
    &&& after.wf()
    &&& after.cpus() == before.cpus()
    &&& after.config() == before.config()
    &&& after.debugger().enabled() == before.debugger().enabled()
    &&& after.debugger().threshold() == before.debugger().threshold()
    &&& forall|c: u32, k: u32|
        before.has(c, k) && !(c == cpu && k == class) ==> #[trigger] after.state(c, k)
            == before.state(c, k)
    &&& before.has(cpu, class) ==> is_next_state(
        before.config(),
        class,
        before.state(cpu, class),
        measured,
        after.state(cpu, class),
    )
    &&& after.debugger().records() == if before.has(cpu, class) && before.debugger().enabled() {
        after_clamps(
            before.debugger().records(),
            before.config().param_bounds,
            cpu,
            class,
            wanted_params(before.config(), before.state(cpu, class), measured),
            next_error(before.state(cpu, class), measured),
            PARAM_COUNT as int,
        )
    } else {
        before.debugger().records()
    }
}

/// What is answered to a measurement of a CPU and class: its parameters; the default ones of
/// the class where there is no state.
pub open spec fn answer(after: PieController, cpu: u32, class: u32) -> [u64; PARAM_COUNT] {
    if after.has(cpu, class) {
        after.state(cpu, class).current_params
    } else {
        after.config().defaults_of(class)
    }
}

/// A controller in which every CPU and class is at its target latency with its default
/// parameters, and that records no clamps.
pub open spec fn is_new(c: PieController, nr_cpus: nat, profile: Profile) -> bool {
    &&& c.wf()
    &&& c.cpus() == nr_cpus
    &&& c.config().alpha_div == DEFAULT_ALPHA_DIV
    &&& c.config().beta_div == DEFAULT_BETA_DIV
    &&& c.config().max_integral == DEFAULT_MAX_INTEGRAL
    &&& c.config().target_latencies == profile.target_latencies_ns
    &&& c.config().param_bounds == profile.bounds
    &&& c.config().default_params == profile.default_params
    &&& forall|cpu: u32, class: u32|
        c.has(cpu, class) ==> #[trigger] c.state(cpu, class) == fresh(
            profile.target_latencies_ns[class as int],
            profile.default_params[class as int],
        )
    &&& !c.debugger().enabled()
    &&& c.debugger().records().len() == 0
}

/// Latencies below this are ordinary ones.
pub const ORDINARY_LATENCY_NS: u64 = 0x1000_0000_0000_0000;

/// Every state takes in any ordinary latency, and so many more updates can be counted.
pub open spec fn is_ordinary(c: PieController, more: int) -> bool {
    forall|cpu: u32, class: u32|
        c.has(cpu, class) ==> {
            let s = #[trigger] c.state(cpu, class);
            &&& s.accepts((ORDINARY_LATENCY_NS - 1) as u64)
            &&& s.update_count + more <= u64::MAX
        }
}

/// A call of a controller with a CPU, a class and a latency is admitted.
pub open spec fn admits(c: PieController, call: (u32, u32, u64)) -> bool {
    c.has(call.0, call.1) ==> c.can_update(call.0, call.1, call.2)
}

/// `trace` is what a controller becomes under `calls`, as long as they are admitted, and
/// `answers` is what it answers.
pub open spec fn is_run(
    trace: Seq<PieController>,
    calls: Seq<(u32, u32, u64)>,
    answers: Seq<[u64; PARAM_COUNT]>,
) -> bool {
    &&& trace.len() == calls.len() + 1
    &&& answers.len() == calls.len()
    &&& forall|j: int|
        0 <= j < calls.len() && admits(trace[j], calls[j]) ==> {
            let (cpu, class, measured) = #[trigger] calls[j];
            &&& is_update(trace[j], cpu, class, measured, trace[j + 1])
            &&& answers[j] == answer(trace[j + 1], cpu, class)
        }
}

/// What every call `k` of a run comes to. With a state for its CPU and class the answer
/// lies within the bounds and is what the state keeps, the integral lies within its limit,
/// and one more update is counted. Without one the answer is the defaults of the class. All
/// other states are as before.
pub open spec fn call_respects_limits(
    trace: Seq<PieController>,
    calls: Seq<(u32, u32, u64)>,
    answers: Seq<[u64; PARAM_COUNT]>,
    k: int,
) -> bool {
    let (cpu, class, _) = calls[k];
    let (before, after) = (trace[k], trace[k + 1]);
    &&& after.cpus() == before.cpus()
    &&& after.config() == before.config()
    &&& forall|c: u32, l: u32|
        before.has(c, l) && !(c == cpu && l == class) ==> #[trigger] after.state(c, l)
            == before.state(c, l)
    &&& !before.has(cpu, class) ==> answers[k] == before.config().defaults_of(class)
    &&& before.has(cpu, class) ==> {
        let s = after.state(cpu, class);
        &&& answers[k] == s.current_params
        &&& s.update_count == before.state(cpu, class).update_count + 1
        &&& -DEFAULT_MAX_INTEGRAL <= s.integral_accum <= DEFAULT_MAX_INTEGRAL
        &&& forall|i: int|
            0 <= i < PARAM_COUNT ==> before.config().param_bounds[class as int][i].0
                <= #[trigger] answers[k][i] <= before.config().param_bounds[class as int][i].1
    }
}

/// A controller that takes in ordinary latencies and records no clamps admits every call of
/// a sequence with such latencies, and every call respects the limits.
pub proof fn ordinary_latencies_are_admitted(
    trace: Seq<PieController>,
    calls: Seq<(u32, u32, u64)>,
    answers: Seq<[u64; PARAM_COUNT]>,
    k: int,
)
    requires
        is_run(trace, calls, answers),
        trace[0].wf(),
        !trace[0].debugger().enabled(),
        bounds_ordered(trace[0].config().param_bounds),
        is_ordinary(trace[0], calls.len() as int),
        forall|j: int| 0 <= j < calls.len() ==> (#[trigger] calls[j]).2 < ORDINARY_LATENCY_NS,
        0 <= k < calls.len(),
    ensures
        admits(trace[k], calls[k]),
        trace[k].cpus() == trace[0].cpus(),
        trace[k].config() == trace[0].config(),
        call_respects_limits(trace, calls, answers, k),
        trace[k + 1].wf(),
        !trace[k + 1].debugger().enabled(),
        is_ordinary(trace[k + 1], calls.len() - k - 1),
    decreases k,
{
    if k > 0 {
        ordinary_latencies_are_admitted(trace, calls, answers, k - 1);
    }
    let (before, after) = (trace[k], trace[k + 1]);
    let (cpu, class, measured) = calls[k];
    assert(before.has(cpu, class) == trace[0].has(cpu, class));
    assert(admits(before, calls[k]));
    assert(is_update(before, calls[k].0, calls[k].1, calls[k].2, after));
    if before.has(cpu, class) {
        smoothing_stays_between(
            measured as nat,
            before.state(cpu, class).current_latency_ns as nat,
        );
        updates_respect_limits(
            before.config(),
            class,
            before.state(cpu, class),
            measured,
            after.state(cpu, class),
        );
    }
    assert forall|c: u32, l: u32| after.has(c, l) implies ({
        let s = #[trigger] after.state(c, l);
        &&& s.accepts((ORDINARY_LATENCY_NS - 1) as u64)
        &&& s.update_count + (calls.len() - k - 1) <= u64::MAX
    }) by {
        assert(before.state(c, l).update_count + (calls.len() - k) <= u64::MAX);
    }
}

/// A new controller admits every call of a sequence with ordinary latencies, and every call
/// respects the limits, for every profile whose bounds are in order and whose targets can be
/// smoothed with ordinary latencies.
pub proof fn new_controllers_respect_limits(
    nr_cpus: nat,
    profile: Profile,
    trace: Seq<PieController>,
    calls: Seq<(u32, u32, u64)>,
    answers: Seq<[u64; PARAM_COUNT]>,
    k: int,
)
    requires
        bounds_ordered(profile.bounds),
        forall|c: int|
            0 <= c < DESCENT_CLASS_MAX ==> EWMA_ALPHA_NUM * (ORDINARY_LATENCY_NS - 1) + (
            EWMA_ALPHA_DEN - EWMA_ALPHA_NUM) * #[trigger] profile.target_latencies_ns[c]
                <= u64::MAX,
        is_run(trace, calls, answers),
        is_new(trace[0], nr_cpus, profile),
        calls.len() <= u64::MAX,
        forall|j: int| 0 <= j < calls.len() ==> (#[trigger] calls[j]).2 < ORDINARY_LATENCY_NS,
        0 <= k < calls.len(),
    ensures
        admits(trace[k], calls[k]),
        trace[k].cpus() == nr_cpus,
        trace[k].config() == trace[0].config(),
        call_respects_limits(trace, calls, answers, k),
{
    assert forall|cpu: u32, class: u32| trace[0].has(cpu, class) implies ({
        let s = #[trigger] trace[0].state(cpu, class);
        &&& s.accepts((ORDINARY_LATENCY_NS - 1) as u64)
        &&& s.update_count + calls.len() <= u64::MAX
    }) by {
        assert(trace[0].state(cpu, class).current_latency_ns
            == profile.target_latencies_ns[class as int]);
    }
    ordinary_latencies_are_admitted(trace, calls, answers, k);
}

/// `after` is a controller after it held the parameters of a class on a CPU to their bounds
/// at a latency error, and `r` is what it answered. Those of a class that does not exist are
/// answered as they are. Nothing is recorded of them, or while recording is off.
pub open spec fn is_clamp(
    before: PieController,
    class: u32,
    params: [u64; PARAM_COUNT],
    cpu: u32,
    error: i64,
    after: PieController,
    r: [u64; PARAM_COUNT],
) -> bool {
    &&& after.wf()
    &&& after.cpus() == before.cpus()
    &&& after.config() == before.config()
    &&& forall|c: u32, k: u32| #[trigger] after.state(c, k) == before.state(c, k)
    &&& after.debugger().enabled() == before.debugger().enabled()
    &&& after.debugger().threshold() == before.debugger().threshold()
    &&& class >= DESCENT_CLASS_MAX ==> r == params
    &&& class < DESCENT_CLASS_MAX ==> forall|i: int|
        0 <= i < PARAM_COUNT ==> #[trigger] r[i] == clamped(
            params[i],
            before.config().param_bounds[class as int][i].0,
            before.config().param_bounds[class as int][i].1,
        )
    &&& after.debugger().records() == if before.debugger().enabled() && class < DESCENT_CLASS_MAX {
        after_clamps(
            before.debugger().records(),
            before.config().param_bounds,
            cpu,
            class,
            params@,
            error,
            PARAM_COUNT as int,
        )
    } else {
        before.debugger().records()
    }
}

/// The counts of a parameter of a class on a CPU.
pub open spec fn counts(c: PieController, cpu: u32, class: u32, i: int) -> BoundStats {
    stats_of(c.debugger().records(), BoundKey { cpu, class, param_idx: i as usize })
}

/// Parameters that were held to their bounds stay as they are when they are held to them
/// again. While recording is on, the first time counts a hit of the lower bound exactly for
/// those below it and of the upper bound exactly for those above it, a value at a bound is no
/// hit, and so the second time counts none. While it is off, or for a class that does not
/// exist, no counts change.
pub proof fn clamping_twice_changes_nothing(
    c: PieController,
    class: u32,
    params: [u64; PARAM_COUNT],
    cpu: u32,
    errors: (i64, i64),
    once: (PieController, [u64; PARAM_COUNT]),
    twice: (PieController, [u64; PARAM_COUNT]),
)
    requires
        c.wf(),
        bounds_ordered(c.config().param_bounds),
        c.debugger().enabled() && class < DESCENT_CLASS_MAX ==> forall|i: int|
            0 <= i < PARAM_COUNT ==> (#[trigger] counts(c, cpu, class, i)).total_updates + 2
                <= u64::MAX,
        is_clamp(c, class, params, cpu, errors.0, once.0, once.1),
        is_clamp(once.0, class, once.1, cpu, errors.1, twice.0, twice.1),
    ensures
        twice.1 == once.1,
        class >= DESCENT_CLASS_MAX ==> once.1 == params,
        class >= DESCENT_CLASS_MAX || !c.debugger().enabled() ==> {
            &&& once.0.debugger().records() == c.debugger().records()
            &&& twice.0.debugger().records() == c.debugger().records()
        },
        class < DESCENT_CLASS_MAX ==> forall|i: int|
            0 <= i < PARAM_COUNT ==> c.config().param_bounds[class as int][i].0
                <= #[trigger] once.1[i] <= c.config().param_bounds[class as int][i].1,
        class < DESCENT_CLASS_MAX && c.debugger().enabled() ==> forall|i: int|
            0 <= i < PARAM_COUNT ==> {
                let (lo, hi) = c.config().param_bounds[class as int][i];
                let before = #[trigger] counts(c, cpu, class, i);
                let after = counts(once.0, cpu, class, i);
                let last = counts(twice.0, cpu, class, i);
                &&& after.min_hits == before.min_hits + (if params[i] < lo { 1int } else { 0int })
                &&& after.max_hits == before.max_hits + (if params[i] > hi { 1int } else { 0int })
                &&& after.total_updates == before.total_updates + 1
                &&& last.min_hits == after.min_hits
                &&& last.max_hits == after.max_hits
                &&& last.total_updates == after.total_updates + 1
            },
{
    let bounds = c.config().param_bounds;
    if class < DESCENT_CLASS_MAX {
        assert forall|i: int| 0 <= i < PARAM_COUNT implies bounds[class as int][i].0
            <= #[trigger] once.1[i] <= bounds[class as int][i].1 && twice.1[i] == once.1[i] by {
            assert(bounds[class as int][i].0 <= bounds[class as int][i].1);
        }
    }
    assert(twice.1 =~= once.1);
    if class < DESCENT_CLASS_MAX && c.debugger().enabled() {
        assert forall|i: int| 0 <= i < PARAM_COUNT implies ({
            let (lo, hi) = c.config().param_bounds[class as int][i];
            let before = #[trigger] counts(c, cpu, class, i);
            let after = counts(once.0, cpu, class, i);
            let last = counts(twice.0, cpu, class, i);
            &&& after.min_hits == before.min_hits + (if params[i] < lo { 1int } else { 0int })
            &&& after.max_hits == before.max_hits + (if params[i] > hi { 1int } else { 0int })
            &&& after.total_updates == before.total_updates + 1
            &&& last.min_hits == after.min_hits
            &&& last.max_hits == after.max_hits
            &&& last.total_updates == after.total_updates + 1
        }) by {
            let key = BoundKey { cpu, class, param_idx: i as usize };
            assert(counts(c, cpu, class, i).total_updates + 2 <= u64::MAX);
            c.debugger().every_hit_is_an_update(key);
            hits_are_recorded_where_bounds_are_passed(
                c.debugger().records(),
                bounds,
                cpu,
                class,
                params@,
                errors.0,
                i,
            );
            once.0.debugger().every_hit_is_an_update(key);
            hits_are_recorded_where_bounds_are_passed(
                once.0.debugger().records(),
                bounds,
                cpu,
                class,
                once.1@,
                errors.1,
                i,
            );
            assert(bounds[class as int][i].0 <= once.1[i] <= bounds[class as int][i].1);
        }
    }
}

/// Holding the parameters of a class on a CPU to their bounds records a hit of the lower
/// bound exactly for those below it, a hit of the upper bound exactly for those above it,
/// and one update for each. A value at a bound is no hit.
pub proof fn hits_are_recorded_where_bounds_are_passed(
    s: Records,
    bounds: ParamBounds,
    cpu: u32,
    class: u32,
    params: Seq<u64>,
    error: i64,
    i: int,
)
    requires
        class < DESCENT_CLASS_MAX,
        0 <= i < PARAM_COUNT,
        bounds_ordered(bounds),
        stats_of(s, BoundKey { cpu, class, param_idx: i as usize }).consistent(),
        stats_of(s, BoundKey { cpu, class, param_idx: i as usize }).total_updates < u64::MAX,
    ensures
        ({
            let key = BoundKey { cpu, class, param_idx: i as usize };
            let (lo, hi) = bounds[class as int][i];
            let before = stats_of(s, key);
            let after = stats_of(
                after_clamps(s, bounds, cpu, class, params, error, PARAM_COUNT as int),
                key,
            );
            &&& after.min_hits == before.min_hits + (if params[i] < lo { 1int } else { 0int })
            &&& after.max_hits == before.max_hits + (if params[i] > hi { 1int } else { 0int })
            &&& after.total_updates == before.total_updates + 1
        }),
{
    let key = BoundKey { cpu, class, param_idx: i as usize };
    let (lo, hi) = bounds[class as int][i];
    assert(bounds[class as int][i].0 <= bounds[class as int][i].1);
    lemma_clamps_elsewhere(s, bounds, cpu, class, params, error, i, i);
    let here = after_clamps(s, bounds, cpu, class, params, error, i);
    let stats = stats_of(here, key);
    recorded_counts_are_found(here, key, after_update(stats), key);
    recorded_counts_are_found(
        here,
        key,
        after_clamp(stats, lo, hi, params[i], clamped(params[i], lo, hi), error),
        key,
    );
    lemma_clamps_behind(s, bounds, cpu, class, params, error, PARAM_COUNT as int, i);
}

proof fn lemma_clamps_behind(
    s: Records,
    bounds: ParamBounds,
    cpu: u32,
    class: u32,
    params: Seq<u64>,
    error: i64,
    n: int,
    i: int,
)
    requires
        0 <= i < n <= PARAM_COUNT,
    ensures
        stats_of(
            after_clamps(s, bounds, cpu, class, params, error, n),
            BoundKey { cpu, class, param_idx: i as usize },
        ) == stats_of(
            after_clamps(s, bounds, cpu, class, params, error, i + 1),
            BoundKey { cpu, class, param_idx: i as usize },
        ),
    decreases n,
{
    if n > i + 1 {
        lemma_clamps_behind(s, bounds, cpu, class, params, error, n - 1, i);
        let before = after_clamps(s, bounds, cpu, class, params, error, n - 1);
        let key = BoundKey { cpu, class, param_idx: (n - 1) as usize };
        let other = BoundKey { cpu, class, param_idx: i as usize };
        let (lo, hi) = bounds[class as int][n - 1];
        let value = params[n - 1];
        let stats = stats_of(before, key);
        recorded_counts_are_found(before, key, after_update(stats), other);
        recorded_counts_are_found(
            before,
            key,
            after_clamp(stats, lo, hi, value, clamped(value, lo, hi), error),
            other,
        );
    }
}

/// After every measurement each parameter lies within the bounds of its class,
/// and the integral does not exceed its largest value.
pub proof fn updates_respect_limits(
    config: PieConfig,
    class: u32,
    before: PieState,
    measured: u64,
    after: PieState,
)
    requires
        class < DESCENT_CLASS_MAX,
        bounds_ordered(config.param_bounds),
        config.max_integral >= 0,
        is_next_state(config, class, before, measured, after),
    ensures
        forall|i: int|
            0 <= i < PARAM_COUNT ==> config.param_bounds[class as int][i].0
                <= #[trigger] after.current_params[i] <= config.param_bounds[class as int][i].1,
        -config.max_integral <= after.integral_accum <= config.max_integral,
{
    assert forall|i: int| 0 <= i < PARAM_COUNT implies config.param_bounds[class as int][i].0
        <= #[trigger] after.current_params[i] <= config.param_bounds[class as int][i].1 by {
        assert(config.param_bounds[class as int][i].0 <= config.param_bounds[class as int][i].1);
    }
}

/// The smoothed latency lies between the measurement and the latency before it.
pub proof fn smoothing_stays_between(measured: nat, current: nat)
    ensures
        measured <= current ==> measured <= smoothed(measured, current) <= current,
        current <= measured ==> current <= smoothed(measured, current) <= measured,
{
}

/// A measurement at the smoothed latency leaves it where it is.
pub proof fn smoothing_keeps_a_steady_latency(latency: nat)
    ensures
        smoothed(latency, latency) == latency,
{
}

/// Where the latency calls for a positive adjustment, no parameter that was within
/// its bounds moves the wrong way: the latency weight does not fall, and slice,
/// vruntime scale and migration cost do not rise. For any other adjustment it is
/// the other way round.
pub proof fn adjustment_gives_the_direction(
    params: [u64; PARAM_COUNT],
    adjustment: int,
    bounds: [(u64, u64); 5],
)
    requires
        forall|i: int| 0 <= i < PARAM_COUNT ==> bounds[i].0 <= #[trigger] params[i] <= bounds[i].1,
    ensures
        adjustment > 0 ==> {
            &&& adjusted_within(params, adjustment, Some(bounds), 0) >= params[0]
            &&& adjusted_within(params, adjustment, Some(bounds), 1) <= params[1]
            &&& adjusted_within(params, adjustment, Some(bounds), 2) <= params[2]
            &&& adjusted_within(params, adjustment, Some(bounds), 4) <= params[4]
        },
        adjustment <= 0 ==> {
            &&& adjusted_within(params, adjustment, Some(bounds), 0) <= params[0]
            &&& adjusted_within(params, adjustment, Some(bounds), 1) >= params[1]
            &&& adjusted_within(params, adjustment, Some(bounds), 2) >= params[2]
            &&& adjusted_within(params, adjustment, Some(bounds), 4) >= params[4]
        },
{
    assert(params[0] >= bounds[0].0);
    assert(params[1] >= bounds[1].0);
    assert(params[2] >= bounds[2].0);
    assert(params[4] >= bounds[4].0);
}

/// A latency that stays at its target with an empty integral changes no parameter
/// within its bounds but the preemption priority, which follows the slice.
pub proof fn nothing_moves_at_the_target(
    config: PieConfig,
    class: u32,
    before: PieState,
    after: PieState,
)
    requires
        class < DESCENT_CLASS_MAX,
        config.alpha_div > 0,
        config.beta_div > 0,
        config.max_integral >= 0,
        before.current_latency_ns == before.target_latency_ns,
        before.integral_accum == 0,
        forall|i: int|
            0 <= i < PARAM_COUNT ==> config.param_bounds[class as int][i].0
                <= #[trigger] before.current_params[i] <= config.param_bounds[class as int][i].1,
        is_next_state(config, class, before, before.target_latency_ns, after),
    ensures
        after.current_latency_ns == before.target_latency_ns,
        after.integral_accum == 0,
        forall|i: int|
            0 <= i < PARAM_COUNT && i != 3 ==> #[trigger] after.current_params[i]
                == before.current_params[i],
{
    smoothing_keeps_a_steady_latency(before.target_latency_ns as nat);
    assert(0int / config.beta_div as int == 0) by (nonlinear_arith)
        requires
            config.beta_div > 0,
    ;
    assert(0int / config.alpha_div as int == 0) by (nonlinear_arith)
        requires
            config.alpha_div > 0,
    ;
    assert forall|i: int| 0 <= i < PARAM_COUNT && i != 3 implies #[trigger] after.current_params[i]
        == before.current_params[i] by {
        assert(config.param_bounds[class as int][i].0 <= before.current_params[i]);
    }
}

spec fn state_ok(s: PieState) -> bool {
    &&& -DEFAULT_MAX_INTEGRAL <= s.integral_accum <= DEFAULT_MAX_INTEGRAL
    &&& s.update_count == 0 ==> s.current_latency_ns == s.target_latency_ns
    &&& s.update_count > 0 ==> s.target_latency_ns * 7 <= u64::MAX
}

/// A CPU and class of a controller before and after a measurement, with its parameters
/// within their bounds.
pub open spec fn is_step(
    before: PieController,
    cpu: u32,
    class: u32,
    measured: u64,
    after: PieController,
) -> bool {
    &&& before.wf()
    &&& before.has(cpu, class)
    &&& bounds_ordered(before.config().param_bounds)
    &&& forall|i: int|
        0 <= i < PARAM_COUNT ==> before.config().param_bounds[class as int][i].0
            <= #[trigger] before.state(cpu, class).current_params[i]
            <= before.config().param_bounds[class as int][i].1
    &&& is_update(before, cpu, class, measured, after)
}

/// The direction of an update follows from the latency. Where the smoothed latency lies at
/// or below its target and the integral is not positive, slice, vruntime scale and migration
/// cost do not fall and the latency weight does not rise. Where it lies above and the
/// integral is not negative, it is the other way round.
pub proof fn latency_gives_the_direction(
    before: PieController,
    cpu: u32,
    class: u32,
    measured: u64,
    after: PieController,
)
    requires
        is_step(before, cpu, class, measured, after),
    ensures
        ({
            let (s, t) = (before.state(cpu, class), after.state(cpu, class));
            let (p, q) = (s.current_params, t.current_params);
            &&& t.current_latency_ns <= s.target_latency_ns && t.integral_accum <= 0 ==> q[0] <= p[0]
                && q[1] >= p[1] && q[2] >= p[2] && q[4] >= p[4]
            &&& t.current_latency_ns >= s.target_latency_ns && t.integral_accum >= 0 ==> q[0] >= p[0]
                && q[1] <= p[1] && q[2] <= p[2] && q[4] <= p[4]
        }),
{
    let (s, t) = (before.state(cpu, class), after.state(cpu, class));
    lemma_step_parts(before, cpu, class, measured, after);
}

/// Opens up what a measurement does to the parameters.
proof fn lemma_step_parts(
    before: PieController,
    cpu: u32,
    class: u32,
    measured: u64,
    after: PieController,
)
    requires
        is_step(before, cpu, class, measured, after),
    ensures
        ({
            let (s, t) = (before.state(cpu, class), after.state(cpu, class));
            let b = before.config().param_bounds[class as int];
            let (error, integral) = (
                t.current_latency_ns - s.target_latency_ns,
                t.integral_accum as int,
            );
            let adjustment = quotient(error, 8) + quotient(integral, 1024);
            &&& t.current_latency_ns == (3 * measured + 7 * s.current_latency_ns) / 10
            &&& t.target_latency_ns == s.target_latency_ns
            &&& forall|i: int|
                0 <= i < 5 ==> #[trigger] t.current_params[i] == clamped(
                    adjusted(s.current_params, adjustment, i),
                    b[i].0,
                    b[i].1,
                ) && b[i].0 <= b[i].1 && b[i].0 <= s.current_params[i] <= b[i].1
            &&& t.current_params[0] == t.current_params[0] && t.current_params[1]
                == t.current_params[1] && t.current_params[2] == t.current_params[2]
                && t.current_params[4] == t.current_params[4]
        }),
{
    let s = before.state(cpu, class);
    smoothing_stays_between(measured as nat, s.current_latency_ns as nat);
    assert forall|i: int| 0 <= i < 5 implies before.config().param_bounds[class as int][i].0
        <= before.config().param_bounds[class as int][i].1
        && before.config().param_bounds[class as int][i].0 <= #[trigger] s.current_params[i]
        <= before.config().param_bounds[class as int][i].1 by {
        assert(before.config().param_bounds[class as int][i].0 <= s.current_params[i]);
    }
}

/// Three tenths of a measurement go into the smoothed latency, rounded down, and the target
/// stays. What moved before is remembered.
pub proof fn measurements_weigh_three_tenths(
    before: PieController,
    cpu: u32,
    class: u32,
    measured: u64,
    after: PieController,
)
    requires
        before.has(cpu, class),
        is_update(before, cpu, class, measured, after),
    ensures
        ({
            let (s, t) = (before.state(cpu, class), after.state(cpu, class));
            &&& 10 * t.current_latency_ns <= 3 * measured + 7 * s.current_latency_ns < 10
                * t.current_latency_ns + 10
            &&& t.prev_latency_ns == s.current_latency_ns
            &&& t.target_latency_ns == s.target_latency_ns
        }),
{
    smoothing_stays_between(measured as nat, before.state(cpu, class).current_latency_ns as nat);
}

/// The integral gathers a quarter of every change of the smoothed latency, rounded toward
/// zero, up to a million either way.
pub proof fn integrals_gather_changes(
    before: PieController,
    cpu: u32,
    class: u32,
    measured: u64,
    after: PieController,
)
    requires
        before.wf(),
        before.has(cpu, class),
        is_update(before, cpu, class, measured, after),
    ensures
        ({
            let (s, t) = (before.state(cpu, class), after.state(cpu, class));
            let change = t.current_latency_ns - s.current_latency_ns;
            let gathered = t.integral_accum - s.integral_accum;
            &&& -1_000_000 <= t.integral_accum <= 1_000_000
            &&& change >= 0 ==> gathered >= 0 && 4 * gathered <= change
            &&& change <= 0 ==> gathered <= 0 && 4 * gathered >= change
            &&& -1_000_000 < t.integral_accum < 1_000_000 ==> -4 < change - 4 * gathered < 4
            &&& t.integral_accum == 1_000_000 ==> change - 4 * gathered > -4
            &&& t.integral_accum == -1_000_000 ==> change - 4 * gathered < 4
        }),
{
    before.lemma_integral_bounded(cpu, class);
    smoothing_stays_between(measured as nat, before.state(cpu, class).current_latency_ns as nat);
}

/// Within its bounds the slice falls by an eighth of what the smoothed latency lies above
/// its target, and by a 1024th of the integral; it rises by as much below the target. A
/// change that is wanted and not made ends at a bound.
pub proof fn slices_answer_the_error(
    before: PieController,
    cpu: u32,
    class: u32,
    measured: u64,
    after: PieController,
)
    requires
        is_step(before, cpu, class, measured, after),
    ensures
        ({
            let (s, t) = (before.state(cpu, class), after.state(cpu, class));
            let (lo, hi) = before.config().param_bounds[class as int][1];
            let error = t.current_latency_ns - s.target_latency_ns;
            let fall = s.current_params[1] - t.current_params[1];
            let wanted = 128 * error + t.integral_accum;
            &&& lo < t.current_params[1] < hi ==> -2048 < wanted - 1024 * fall < 2048
            &&& t.current_params[1] == lo < hi ==> wanted - 1024 * fall > -2048
            &&& lo < hi == t.current_params[1] ==> wanted - 1024 * fall < 2048
        }),
{
    lemma_step_parts(before, cpu, class, measured, after);
}

/// The other parameters keep pace with the slice. Where neither they nor the slice end at a
/// bound, the latency weight rises by half of what the slice falls, and vruntime scale and
/// migration cost fall by a quarter and a tenth of it. The preemption priority is a tenth of
/// the slice.
pub proof fn parameters_keep_pace_with_the_slice(
    before: PieController,
    cpu: u32,
    class: u32,
    measured: u64,
    after: PieController,
)
    requires
        is_step(before, cpu, class, measured, after),
    ensures
        ({
            let (s, t) = (before.state(cpu, class), after.state(cpu, class));
            let (p, q) = (s.current_params, t.current_params);
            let b = before.config().param_bounds[class as int];
            let fall = p[1] - q[1];
            b[1].0 < q[1] < b[1].1 ==> {
                &&& b[0].0 < q[0] < b[0].1 ==> -2 < fall - 2 * (q[0] - p[0]) < 2
                &&& b[2].0 < q[2] < b[2].1 ==> -4 < fall - 4 * (p[2] - q[2]) < 4
                &&& b[4].0 < q[4] < b[4].1 ==> -10 < fall - 10 * (p[4] - q[4]) < 10
                &&& b[3].0 < q[3] < b[3].1 ==> 10 * q[3] <= q[1] < 10 * q[3] + 10
                &&& q[3] == b[3].0 < b[3].1 ==> q[1] < 10 * q[3] + 10
                &&& b[3].0 < b[3].1 == q[3] ==> 10 * q[3] <= q[1]
            }
        }),
{
    lemma_step_parts(before, cpu, class, measured, after);
    assert(after.state(cpu, class).current_params[3] == after.state(cpu, class).current_params[3]);
}

/// Of two measurements that the same controller could take in, the lower one never gives a
/// shorter slice, a smaller vruntime scale or migration cost, or a larger latency weight.
pub proof fn lower_latencies_never_shorten_slices(
    before: PieController,
    cpu: u32,
    class: u32,
    lower: u64,
    higher: u64,
    relaxed: PieController,
    strained: PieController,
)
    requires
        lower <= higher,
        is_step(before, cpu, class, lower, relaxed),
        is_step(before, cpu, class, higher, strained),
    ensures
        ({
            let (s, t) = (relaxed.state(cpu, class), strained.state(cpu, class));
            &&& s.current_latency_ns <= t.current_latency_ns
            &&& s.integral_accum <= t.integral_accum
            &&& s.current_params[0] <= t.current_params[0]
            &&& s.current_params[1] >= t.current_params[1]
            &&& s.current_params[2] >= t.current_params[2]
            &&& s.current_params[4] >= t.current_params[4]
        }),
{
    lemma_step_parts(before, cpu, class, lower, relaxed);
    lemma_step_parts(before, cpu, class, higher, strained);
    let s = before.state(cpu, class);
    let (x, y) = (relaxed.state(cpu, class), strained.state(cpu, class));
    lemma_quotient_grows(
        x.current_latency_ns - s.current_latency_ns,
        y.current_latency_ns - s.current_latency_ns,
        4,
    );
    assert(x.integral_accum <= y.integral_accum);
    lemma_quotient_grows(
        x.current_latency_ns - s.target_latency_ns,
        y.current_latency_ns - s.target_latency_ns,
        8,
    );
    lemma_quotient_grows(x.integral_accum as int, y.integral_accum as int, 1024);
    let (a, b) = (
        quotient(x.current_latency_ns - s.target_latency_ns, 8) + quotient(
            x.integral_accum as int,
            1024,
        ),
        quotient(y.current_latency_ns - s.target_latency_ns, 8) + quotient(
            y.integral_accum as int,
            1024,
        ),
    );
    assert(a <= b);
    assert(adjusted(s.current_params, a, 0) <= adjusted(s.current_params, b, 0));
    assert(adjusted(s.current_params, a, 1) >= adjusted(s.current_params, b, 1));
    assert(adjusted(s.current_params, a, 2) >= adjusted(s.current_params, b, 2));
    assert(adjusted(s.current_params, a, 4) >= adjusted(s.current_params, b, 4));
}

proof fn lemma_quotient_grows(a: int, b: int, d: int)
    requires
        a <= b,
        d == 4 || d == 8 || d == 1024,
    ensures
        quotient(a, d) <= quotient(b, d),
{
}

/// Two CPUs or classes with the same parameters, bounds and targets, and with the same
/// integral after a measurement, differ only by their smoothed latencies: the lower one
/// never comes with the shorter slice.
pub proof fn equal_integrals_leave_it_to_the_latency(
    config: PieConfig,
    class: u32,
    starts: (PieState, PieState),
    measured: (u64, u64),
    ends: (PieState, PieState),
)
    requires
        class < DESCENT_CLASS_MAX,
        config.alpha_div > 0,
        bounds_ordered(config.param_bounds),
        starts.0.current_params == starts.1.current_params,
        starts.0.target_latency_ns == starts.1.target_latency_ns,
        is_next_state(config, class, starts.0, measured.0, ends.0),
        is_next_state(config, class, starts.1, measured.1, ends.1),
        ends.0.integral_accum == ends.1.integral_accum,
        ends.0.current_latency_ns <= ends.1.current_latency_ns,
    ensures
        ends.0.current_params[1] >= ends.1.current_params[1],
        ends.0.current_params[2] >= ends.1.current_params[2],
        ends.0.current_params[4] >= ends.1.current_params[4],
        ends.0.current_params[0] <= ends.1.current_params[0],
{
    let d = config.alpha_div as int;
    let target = starts.0.target_latency_ns as int;
    let (e, f) = (ends.0.current_latency_ns - target, ends.1.current_latency_ns - target);
    let p = starts.0.current_params;
    assert(quotient(e, d) <= quotient(f, d)) by {
        if e >= 0 {
            vstd::arithmetic::div_mod::lemma_div_is_ordered(e, f, d);
        } else if f < 0 {
            vstd::arithmetic::div_mod::lemma_div_is_ordered(-f, -e, d);
        } else {
            assert((-e) / d >= 0 && f / d >= 0) by (nonlinear_arith)
                requires
                    d > 0,
                    e < 0,
                    f >= 0,
            ;
        }
    }
    let a = next_adjustment(config, starts.0, measured.0);
    let b = next_adjustment(config, starts.1, measured.1);
    assert(a <= b);
    assert(adjusted(p, a, 0) <= adjusted(p, b, 0));
    assert(adjusted(p, a, 1) >= adjusted(p, b, 1));
    assert(adjusted(p, a, 2) >= adjusted(p, b, 2));
    assert(adjusted(p, a, 4) >= adjusted(p, b, 4));
    assert(config.param_bounds[class as int][0].0 <= config.param_bounds[class as int][0].1);
    assert(config.param_bounds[class as int][1].0 <= config.param_bounds[class as int][1].1);
    assert(config.param_bounds[class as int][2].0 <= config.param_bounds[class as int][2].1);
    assert(config.param_bounds[class as int][4].0 <= config.param_bounds[class as int][4].1);
    assert(ends.0.current_params[0] == clamped(
        adjusted(p, a, 0),
        config.param_bounds[class as int][0].0,
        config.param_bounds[class as int][0].1,
    ));
}

/// What is recorded where a bound is passed is how far the smoothed latency lies above its
/// target: it adds up at that bound and at no other.
pub proof fn distances_are_recorded_at_passed_bounds(
    before: PieController,
    cpu: u32,
    class: u32,
    measured: u64,
    after: PieController,
    i: int,
)
    requires
        is_step(before, cpu, class, measured, after),
        before.debugger().enabled(),
        class < 4,
        0 <= i < 5,
        stats_of(
            before.debugger().records(),
            BoundKey { cpu, class, param_idx: i as usize },
        ).consistent(),
        stats_of(
            before.debugger().records(),
            BoundKey { cpu, class, param_idx: i as usize },
        ).total_updates < u64::MAX,
    ensures
        ({
            let key = BoundKey { cpu, class, param_idx: i as usize };
            let (old_stats, new_stats) = (
                stats_of(before.debugger().records(), key),
                stats_of(after.debugger().records(), key),
            );
            let error = after.state(cpu, class).current_latency_ns - before.state(
                cpu,
                class,
            ).target_latency_ns;
            let (low, high) = (
                old_stats.latency_error_at_min + error,
                old_stats.latency_error_at_max + error,
            );
            &&& new_stats.total_updates == old_stats.total_updates + 1
            &&& new_stats.min_hits == old_stats.min_hits ==> new_stats.latency_error_at_min
                == old_stats.latency_error_at_min
            &&& new_stats.max_hits == old_stats.max_hits ==> new_stats.latency_error_at_max
                == old_stats.latency_error_at_max
            &&& new_stats.min_hits > old_stats.min_hits && i64::MIN <= error <= i64::MAX && i64::MIN
                <= low <= i64::MAX ==> new_stats.latency_error_at_min == low
            &&& new_stats.max_hits > old_stats.max_hits && i64::MIN <= error <= i64::MAX && i64::MIN
                <= high <= i64::MAX ==> new_stats.latency_error_at_max == high
        }),
{
    let s = before.debugger().records();
    let bounds = before.config().param_bounds;
    let params = wanted_params(before.config(), before.state(cpu, class), measured);
    let error = next_error(before.state(cpu, class), measured);
    let key = BoundKey { cpu, class, param_idx: i as usize };
    let (lo, hi) = bounds[class as int][i];
    assert(bounds[class as int][i].0 <= bounds[class as int][i].1);
    lemma_clamps_elsewhere(s, bounds, cpu, class, params, error, i, i);
    let here = after_clamps(s, bounds, cpu, class, params, error, i);
    let stats = stats_of(here, key);
    recorded_counts_are_found(here, key, after_update(stats), key);
    recorded_counts_are_found(
        here,
        key,
        after_clamp(stats, lo, hi, params[i], clamped(params[i], lo, hi), error),
        key,
    );
    lemma_clamps_behind(s, bounds, cpu, class, params, error, PARAM_COUNT as int, i);
}

} // verus!
