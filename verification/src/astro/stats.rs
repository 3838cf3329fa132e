//! Counters of the scheduler, their aggregation over CPUs, and their report.

use vstd::prelude::*;
use vstd::string::StringExecFns;
use vstd::wrapping::u64_specs::wrapping_sub;

use crate::text::{decimal, push_decimal};
use crate::wire::{le_u64, u64_at};

verus! {

/// Counters of the scheduler.
#[derive(Clone, Copy, Debug, PartialEq, Eq, Structural)]
pub struct Metrics {
    pub nr_running: u64,
    pub interactive_dispatches: u64,
    pub waker_boost_dispatches: u64,
    pub normal_dispatches: u64,
    pub compute_dispatches: u64,
    pub background_dispatches: u64,
    pub preempts: u64,
    pub kicks_idle: u64,
    pub kicks_preempt: u64,
    pub profile_transitions: u64,
    pub waker_boosts: u64,
    pub srpt_short_tasks: u64,
    pub budget_refills: u64,
    pub budget_exhaustions: u64,
    pub contained_starvation_rounds: u64,
    pub shared_starvation_rounds: u64,
    pub high_priority_burst_rounds: u64,
    pub autotune_mode: u64,
    pub autotune_generation: u64,
    pub tune_interactive_slice_us: u64,
    pub tune_normal_slice_us: u64,
    pub tune_compute_slice_us: u64,
    pub tune_background_slice_us: u64,
}

/// All counters at 0.
pub open spec fn no_metrics() -> Metrics {
    Metrics {
        nr_running: 0,
        interactive_dispatches: 0,
        waker_boost_dispatches: 0,
        normal_dispatches: 0,
        compute_dispatches: 0,
        background_dispatches: 0,
        preempts: 0,
        kicks_idle: 0,
        kicks_preempt: 0,
        profile_transitions: 0,
        waker_boosts: 0,
        srpt_short_tasks: 0,
        budget_refills: 0,
        budget_exhaustions: 0,
        contained_starvation_rounds: 0,
        shared_starvation_rounds: 0,
        high_priority_burst_rounds: 0,
        autotune_mode: 0,
        autotune_generation: 0,
        tune_interactive_slice_us: 0,
        tune_normal_slice_us: 0,
        tune_compute_slice_us: 0,
        tune_background_slice_us: 0,
    }
}

impl Default for Metrics {
    fn default() -> (r: Self)
        ensures
            r == no_metrics(),
    {
        Metrics {
            nr_running: 0,
            interactive_dispatches: 0,
            waker_boost_dispatches: 0,
            normal_dispatches: 0,
            compute_dispatches: 0,
            background_dispatches: 0,
            preempts: 0,
            kicks_idle: 0,
            kicks_preempt: 0,
            profile_transitions: 0,
            waker_boosts: 0,
            srpt_short_tasks: 0,
            budget_refills: 0,
            budget_exhaustions: 0,
            contained_starvation_rounds: 0,
            shared_starvation_rounds: 0,
            high_priority_burst_rounds: 0,
            autotune_mode: 0,
            autotune_generation: 0,
            tune_interactive_slice_us: 0,
            tune_normal_slice_us: 0,
            tune_compute_slice_us: 0,
            tune_background_slice_us: 0,
        }
    }
}

impl Metrics {
    /// The number of dispatches from all lanes.
    pub open spec fn total_dispatches(self) -> int {
        self.interactive_dispatches + self.waker_boost_dispatches + self.normal_dispatches
            + self.compute_dispatches + self.background_dispatches
    }

    /// What was counted since `rhs`; counters may have wrapped around. Everything but
    /// event counters is as it is now.
    pub open spec fn since(self, rhs: Metrics) -> Metrics {
        Metrics {
            interactive_dispatches: wrapping_sub(self.interactive_dispatches, rhs.interactive_dispatches),
            waker_boost_dispatches: wrapping_sub(self.waker_boost_dispatches, rhs.waker_boost_dispatches),
            normal_dispatches: wrapping_sub(self.normal_dispatches, rhs.normal_dispatches),
            compute_dispatches: wrapping_sub(self.compute_dispatches, rhs.compute_dispatches),
            background_dispatches: wrapping_sub(self.background_dispatches, rhs.background_dispatches),
            preempts: wrapping_sub(self.preempts, rhs.preempts),
            kicks_idle: wrapping_sub(self.kicks_idle, rhs.kicks_idle),
            kicks_preempt: wrapping_sub(self.kicks_preempt, rhs.kicks_preempt),
            profile_transitions: wrapping_sub(self.profile_transitions, rhs.profile_transitions),
            waker_boosts: wrapping_sub(self.waker_boosts, rhs.waker_boosts),
            srpt_short_tasks: wrapping_sub(self.srpt_short_tasks, rhs.srpt_short_tasks),
            budget_refills: wrapping_sub(self.budget_refills, rhs.budget_refills),
            budget_exhaustions: wrapping_sub(self.budget_exhaustions, rhs.budget_exhaustions),
            ..self
        }
    }

    /// What was counted since `rhs`.
    pub fn delta(&self, rhs: &Self) -> (r: Self)
        ensures
            r == self.since(*rhs),
    {
        Metrics {
            nr_running: self.nr_running,
            interactive_dispatches: self.interactive_dispatches.wrapping_sub(rhs.interactive_dispatches),
            waker_boost_dispatches: self.waker_boost_dispatches.wrapping_sub(rhs.waker_boost_dispatches),
            normal_dispatches: self.normal_dispatches.wrapping_sub(rhs.normal_dispatches),
            compute_dispatches: self.compute_dispatches.wrapping_sub(rhs.compute_dispatches),
            background_dispatches: self.background_dispatches.wrapping_sub(rhs.background_dispatches),
            preempts: self.preempts.wrapping_sub(rhs.preempts),
            kicks_idle: self.kicks_idle.wrapping_sub(rhs.kicks_idle),
            kicks_preempt: self.kicks_preempt.wrapping_sub(rhs.kicks_preempt),
            profile_transitions: self.profile_transitions.wrapping_sub(rhs.profile_transitions),
            waker_boosts: self.waker_boosts.wrapping_sub(rhs.waker_boosts),
            srpt_short_tasks: self.srpt_short_tasks.wrapping_sub(rhs.srpt_short_tasks),
            budget_refills: self.budget_refills.wrapping_sub(rhs.budget_refills),
            budget_exhaustions: self.budget_exhaustions.wrapping_sub(rhs.budget_exhaustions),
            contained_starvation_rounds: self.contained_starvation_rounds,
            shared_starvation_rounds: self.shared_starvation_rounds,
            high_priority_burst_rounds: self.high_priority_burst_rounds,
            autotune_mode: self.autotune_mode,
            autotune_generation: self.autotune_generation,
            tune_interactive_slice_us: self.tune_interactive_slice_us,
            tune_normal_slice_us: self.tune_normal_slice_us,
            tune_compute_slice_us: self.tune_compute_slice_us,
            tune_background_slice_us: self.tune_background_slice_us,
        }
    }

    /// The name of the mode of adaptive tuning.
    pub fn autotune_mode_name(&self) -> (r: &'static str)
        ensures
            r@ == mode_name(self.autotune_mode),
    {
        match self.autotune_mode {
            1 => "latency",
            2 => "throughput",
            _ => "balanced",
        }
    }

    /// One line that reports the counters.
    pub fn format(&self) -> (r: String)
        ensures
            r@ == report_line(*self),
    {
        let mut out: String = "[scx_astro] mode=".to_owned();
        out.append(self.autotune_mode_name());
        out.append(" gen=");
        push_decimal(&mut out, self.autotune_generation);
        out.append(" run=");
        push_decimal(&mut out, self.nr_running);
        out.append(" int_disp=");
        push_decimal(&mut out, self.interactive_dispatches);
        out.append(" boost_disp=");
        push_decimal(&mut out, self.waker_boost_dispatches);
        out.append(" norm_disp=");
        push_decimal(&mut out, self.normal_dispatches);
        out.append(" comp_disp=");
        push_decimal(&mut out, self.compute_dispatches);
        out.append(" bg_disp=");
        push_decimal(&mut out, self.background_dispatches);
        out.append(" preempt=");
        push_decimal(&mut out, self.preempts);
        out.append(" kick_idle=");
        push_decimal(&mut out, self.kicks_idle);
        out.append(" kick_preempt=");
        push_decimal(&mut out, self.kicks_preempt);
        out.append(" trans=");
        push_decimal(&mut out, self.profile_transitions);
        out.append(" boosts=");
        push_decimal(&mut out, self.waker_boosts);
        out.append(" srpt=");
        push_decimal(&mut out, self.srpt_short_tasks);
        out.append(" refill=");
        push_decimal(&mut out, self.budget_refills);
        out.append(" exhaust=");
        push_decimal(&mut out, self.budget_exhaustions);
        out.append(" bg_starve=");
        push_decimal(&mut out, self.contained_starvation_rounds);
        out.append(" shared_starve=");
        push_decimal(&mut out, self.shared_starvation_rounds);
        out.append(" hp_burst=");
        push_decimal(&mut out, self.high_priority_burst_rounds);
        out.append(" int_slice=");
        push_decimal(&mut out, self.tune_interactive_slice_us);
        out.append("us norm_slice=");
        push_decimal(&mut out, self.tune_normal_slice_us);
        out.append("us comp_slice=");
        push_decimal(&mut out, self.tune_compute_slice_us);
        out.append("us bg_slice=");
        push_decimal(&mut out, self.tune_background_slice_us);
        out.append("us\n");
        out
    }
}

/// The name of a mode of adaptive tuning.
pub open spec fn mode_name(mode: u64) -> Seq<char> {
    if mode == 1 {
        "latency"@
    } else if mode == 2 {
        "throughput"@
    } else {
        "balanced"@
    }
}

/// The line that reports counters.
pub open spec fn report_line(m: Metrics) -> Seq<char> {
    "[scx_astro] mode="@ + mode_name(m.autotune_mode)
        + " gen="@ + decimal(m.autotune_generation as nat)
        + " run="@ + decimal(m.nr_running as nat)
        + " int_disp="@ + decimal(m.interactive_dispatches as nat)
        + " boost_disp="@ + decimal(m.waker_boost_dispatches as nat)
        + " norm_disp="@ + decimal(m.normal_dispatches as nat)
        + " comp_disp="@ + decimal(m.compute_dispatches as nat)
        + " bg_disp="@ + decimal(m.background_dispatches as nat)
        + " preempt="@ + decimal(m.preempts as nat)
        + " kick_idle="@ + decimal(m.kicks_idle as nat)
        + " kick_preempt="@ + decimal(m.kicks_preempt as nat)
        + " trans="@ + decimal(m.profile_transitions as nat)
        + " boosts="@ + decimal(m.waker_boosts as nat)
        + " srpt="@ + decimal(m.srpt_short_tasks as nat)
        + " refill="@ + decimal(m.budget_refills as nat)
        + " exhaust="@ + decimal(m.budget_exhaustions as nat)
        + " bg_starve="@ + decimal(m.contained_starvation_rounds as nat)
        + " shared_starve="@ + decimal(m.shared_starvation_rounds as nat)
        + " hp_burst="@ + decimal(m.high_priority_burst_rounds as nat)
        + " int_slice="@ + decimal(m.tune_interactive_slice_us as nat)
        + "us norm_slice="@ + decimal(m.tune_normal_slice_us as nat)
        + "us comp_slice="@ + decimal(m.tune_compute_slice_us as nat)
        + "us bg_slice="@ + decimal(m.tune_background_slice_us as nat)
        + "us\n"@
}

/// What the kernel side counts on one CPU.
#[derive(Clone, Copy, Debug, PartialEq, Eq, Structural)]
pub struct CpuState {
    pub interactive_dispatches: u64,
    pub waker_boost_dispatches: u64,
    pub normal_dispatches: u64,
    pub compute_dispatches: u64,
    pub background_dispatches: u64,
    pub preempts: u64,
    pub kicks_idle: u64,
    pub kicks_preempt: u64,
    pub profile_transitions: u64,
    pub waker_boosts: u64,
    pub srpt_short_tasks: u64,
    pub budget_refills: u64,
    pub budget_exhaustions: u64,
    pub contained_starvation_rounds: u64,
    pub shared_starvation_rounds: u64,
    pub high_priority_burst_rounds: u64,
}

/// Size of the state of a CPU in bytes.
pub const CPU_STATE_BYTES: usize = 128;

impl CpuState {
    /// The state of a CPU as the kernel side keeps it: its numbers one after the other,
    /// little end first. Nothing if there are too few bytes.
    pub fn from_bytes(data: &[u8]) -> (r: Option<Self>)
        ensures
            r == if data@.len() >= CPU_STATE_BYTES {
                Some(
                    CpuState {
                        interactive_dispatches: le_u64(data@, 0),
                        waker_boost_dispatches: le_u64(data@, 8),
                        normal_dispatches: le_u64(data@, 16),
                        compute_dispatches: le_u64(data@, 24),
                        background_dispatches: le_u64(data@, 32),
                        preempts: le_u64(data@, 40),
                        kicks_idle: le_u64(data@, 48),
                        kicks_preempt: le_u64(data@, 56),
                        profile_transitions: le_u64(data@, 64),
                        waker_boosts: le_u64(data@, 72),
                        srpt_short_tasks: le_u64(data@, 80),
                        budget_refills: le_u64(data@, 88),
                        budget_exhaustions: le_u64(data@, 96),
                        contained_starvation_rounds: le_u64(data@, 104),
                        shared_starvation_rounds: le_u64(data@, 112),
                        high_priority_burst_rounds: le_u64(data@, 120),
                    },
                )
            } else {
                None
            },
    {
        if data.len() < CPU_STATE_BYTES {
            return None;
        }
        Some(
            CpuState {
                interactive_dispatches: u64_at(data, 0),
                waker_boost_dispatches: u64_at(data, 8),
                normal_dispatches: u64_at(data, 16),
                compute_dispatches: u64_at(data, 24),
                background_dispatches: u64_at(data, 32),
                preempts: u64_at(data, 40),
                kicks_idle: u64_at(data, 48),
                kicks_preempt: u64_at(data, 56),
                profile_transitions: u64_at(data, 64),
                waker_boosts: u64_at(data, 72),
                srpt_short_tasks: u64_at(data, 80),
                budget_refills: u64_at(data, 88),
                budget_exhaustions: u64_at(data, 96),
                contained_starvation_rounds: u64_at(data, 104),
                shared_starvation_rounds: u64_at(data, 112),
                high_priority_burst_rounds: u64_at(data, 120),
            },
        )
    }
}

/// The sum of `a` and `b`, as far as the type goes.
pub open spec fn capped_sum(a: u64, b: u64) -> u64 {
    if a + b > u64::MAX {
        u64::MAX
    } else {
        (a + b) as u64
    }
}

/// The larger of `a` and `b`.
pub open spec fn larger(a: u64, b: u64) -> u64 {
    if a >= b {
        a
    } else {
        b
    }
}

/// Counters with those of one more CPU: events add up, of rounds the largest counts.
pub open spec fn joined(m: Metrics, s: CpuState) -> Metrics {
    Metrics {
        interactive_dispatches: capped_sum(m.interactive_dispatches, s.interactive_dispatches),
        waker_boost_dispatches: capped_sum(m.waker_boost_dispatches, s.waker_boost_dispatches),
        normal_dispatches: capped_sum(m.normal_dispatches, s.normal_dispatches),
        compute_dispatches: capped_sum(m.compute_dispatches, s.compute_dispatches),
        background_dispatches: capped_sum(m.background_dispatches, s.background_dispatches),
        preempts: capped_sum(m.preempts, s.preempts),
        kicks_idle: capped_sum(m.kicks_idle, s.kicks_idle),
        kicks_preempt: capped_sum(m.kicks_preempt, s.kicks_preempt),
        profile_transitions: capped_sum(m.profile_transitions, s.profile_transitions),
        waker_boosts: capped_sum(m.waker_boosts, s.waker_boosts),
        srpt_short_tasks: capped_sum(m.srpt_short_tasks, s.srpt_short_tasks),
        budget_refills: capped_sum(m.budget_refills, s.budget_refills),
        budget_exhaustions: capped_sum(m.budget_exhaustions, s.budget_exhaustions),
        contained_starvation_rounds: larger(m.contained_starvation_rounds, s.contained_starvation_rounds),
        shared_starvation_rounds: larger(m.shared_starvation_rounds, s.shared_starvation_rounds),
        high_priority_burst_rounds: larger(m.high_priority_burst_rounds, s.high_priority_burst_rounds),
        ..m
    }
}

/// The counters of the first `n` CPUs.
pub open spec fn joined_over(states: Seq<CpuState>, n: int) -> Metrics
    decreases n,
{
    if n <= 0 {
        no_metrics()
    } else {
        joined(joined_over(states, n - 1), states[n - 1])
    }
}

fn max_u64(a: u64, b: u64) -> (r: u64)
    ensures
        r == larger(a, b),
{
    if a >= b {
        a
    } else {
        b
    }
}

/// The counters of all CPUs.
pub fn aggregate(states: &[CpuState]) -> (r: Metrics)
    ensures
        r == joined_over(states@, states@.len() as int),
{
    let mut agg = Metrics::default();
    let mut i: usize = 0;
    while i < states.len()
        invariant
            i <= states.len(),
            agg == joined_over(states@, i as int),
        decreases states.len() - i,
    {
        let state = states[i];
        agg.interactive_dispatches = agg.interactive_dispatches.saturating_add(state.interactive_dispatches);
        agg.waker_boost_dispatches = agg.waker_boost_dispatches.saturating_add(state.waker_boost_dispatches);
        agg.normal_dispatches = agg.normal_dispatches.saturating_add(state.normal_dispatches);
        agg.compute_dispatches = agg.compute_dispatches.saturating_add(state.compute_dispatches);
        agg.background_dispatches = agg.background_dispatches.saturating_add(state.background_dispatches);
        agg.preempts = agg.preempts.saturating_add(state.preempts);
        agg.kicks_idle = agg.kicks_idle.saturating_add(state.kicks_idle);
        agg.kicks_preempt = agg.kicks_preempt.saturating_add(state.kicks_preempt);
        agg.profile_transitions = agg.profile_transitions.saturating_add(state.profile_transitions);
        agg.waker_boosts = agg.waker_boosts.saturating_add(state.waker_boosts);
        agg.srpt_short_tasks = agg.srpt_short_tasks.saturating_add(state.srpt_short_tasks);
        agg.budget_refills = agg.budget_refills.saturating_add(state.budget_refills);
        agg.budget_exhaustions = agg.budget_exhaustions.saturating_add(state.budget_exhaustions);
        agg.contained_starvation_rounds = max_u64(agg.contained_starvation_rounds, state.contained_starvation_rounds);
        agg.shared_starvation_rounds = max_u64(agg.shared_starvation_rounds, state.shared_starvation_rounds);
        agg.high_priority_burst_rounds = max_u64(agg.high_priority_burst_rounds, state.high_priority_burst_rounds);
        i = i + 1;
    }
    agg
}

/// What the kernel side counts for all CPUs together, and the slices in nanoseconds.
#[derive(Clone, Copy, Debug, PartialEq, Eq, Structural)]
pub struct GlobalState {
    pub nr_running: u64,
    pub interactive_dispatches: u64,
    pub waker_boost_dispatches: u64,
    pub normal_dispatches: u64,
    pub compute_dispatches: u64,
    pub background_dispatches: u64,
    pub preempts: u64,
    pub kicks_idle: u64,
    pub kicks_preempt: u64,
    pub profile_transitions: u64,
    pub waker_boosts: u64,
    pub srpt_short_tasks: u64,
    pub budget_refills: u64,
    pub budget_exhaustions: u64,
    pub autotune_mode: u64,
    pub autotune_generation: u64,
    pub tune_interactive_slice_ns: u64,
    pub tune_normal_slice_ns: u64,
    pub tune_compute_slice_ns: u64,
    pub tune_background_slice_ns: u64,
}

/// The global counters and those of all CPUs can be added up.
pub open spec fn sums_fit(g: GlobalState, cpus: Metrics) -> bool {
    &&& g.interactive_dispatches + cpus.interactive_dispatches <= u64::MAX
    &&& g.waker_boost_dispatches + cpus.waker_boost_dispatches <= u64::MAX
    &&& g.normal_dispatches + cpus.normal_dispatches <= u64::MAX
    &&& g.compute_dispatches + cpus.compute_dispatches <= u64::MAX
    &&& g.background_dispatches + cpus.background_dispatches <= u64::MAX
    &&& g.preempts + cpus.preempts <= u64::MAX
    &&& g.kicks_idle + cpus.kicks_idle <= u64::MAX
    &&& g.kicks_preempt + cpus.kicks_preempt <= u64::MAX
    &&& g.profile_transitions + cpus.profile_transitions <= u64::MAX
    &&& g.waker_boosts + cpus.waker_boosts <= u64::MAX
    &&& g.srpt_short_tasks + cpus.srpt_short_tasks <= u64::MAX
    &&& g.budget_refills + cpus.budget_refills <= u64::MAX
    &&& g.budget_exhaustions + cpus.budget_exhaustions <= u64::MAX
}

/// The counters of the scheduler: events counted globally and on CPUs, the largest
/// rounds of all CPUs, and the tuning with slices in microseconds.
pub fn combine(g: &GlobalState, cpus: &Metrics) -> (r: Metrics)
    requires
        sums_fit(*g, *cpus),
    ensures
        r == (Metrics {
            nr_running: g.nr_running,
            interactive_dispatches: (g.interactive_dispatches + cpus.interactive_dispatches) as u64,
            waker_boost_dispatches: (g.waker_boost_dispatches + cpus.waker_boost_dispatches) as u64,
            normal_dispatches: (g.normal_dispatches + cpus.normal_dispatches) as u64,
            compute_dispatches: (g.compute_dispatches + cpus.compute_dispatches) as u64,
            background_dispatches: (g.background_dispatches + cpus.background_dispatches) as u64,
            preempts: (g.preempts + cpus.preempts) as u64,
            kicks_idle: (g.kicks_idle + cpus.kicks_idle) as u64,
            kicks_preempt: (g.kicks_preempt + cpus.kicks_preempt) as u64,
            profile_transitions: (g.profile_transitions + cpus.profile_transitions) as u64,
            waker_boosts: (g.waker_boosts + cpus.waker_boosts) as u64,
            srpt_short_tasks: (g.srpt_short_tasks + cpus.srpt_short_tasks) as u64,
            budget_refills: (g.budget_refills + cpus.budget_refills) as u64,
            budget_exhaustions: (g.budget_exhaustions + cpus.budget_exhaustions) as u64,
            contained_starvation_rounds: cpus.contained_starvation_rounds,
            shared_starvation_rounds: cpus.shared_starvation_rounds,
            high_priority_burst_rounds: cpus.high_priority_burst_rounds,
            autotune_mode: g.autotune_mode,
            autotune_generation: g.autotune_generation,
            tune_interactive_slice_us: g.tune_interactive_slice_ns / 1000,
            tune_normal_slice_us: g.tune_normal_slice_ns / 1000,
            tune_compute_slice_us: g.tune_compute_slice_ns / 1000,
            tune_background_slice_us: g.tune_background_slice_ns / 1000,
        }),
{
    Metrics {
        nr_running: g.nr_running,
        interactive_dispatches: g.interactive_dispatches + cpus.interactive_dispatches,
        waker_boost_dispatches: g.waker_boost_dispatches + cpus.waker_boost_dispatches,
        normal_dispatches: g.normal_dispatches + cpus.normal_dispatches,
        compute_dispatches: g.compute_dispatches + cpus.compute_dispatches,
        background_dispatches: g.background_dispatches + cpus.background_dispatches,
        preempts: g.preempts + cpus.preempts,
        kicks_idle: g.kicks_idle + cpus.kicks_idle,
        kicks_preempt: g.kicks_preempt + cpus.kicks_preempt,
        profile_transitions: g.profile_transitions + cpus.profile_transitions,
        waker_boosts: g.waker_boosts + cpus.waker_boosts,
        srpt_short_tasks: g.srpt_short_tasks + cpus.srpt_short_tasks,
        budget_refills: g.budget_refills + cpus.budget_refills,
        budget_exhaustions: g.budget_exhaustions + cpus.budget_exhaustions,
        contained_starvation_rounds: cpus.contained_starvation_rounds,
        shared_starvation_rounds: cpus.shared_starvation_rounds,
        high_priority_burst_rounds: cpus.high_priority_burst_rounds,
        autotune_mode: g.autotune_mode,
        autotune_generation: g.autotune_generation,
        tune_interactive_slice_us: g.tune_interactive_slice_ns / 1000,
        tune_normal_slice_us: g.tune_normal_slice_ns / 1000,
        tune_compute_slice_us: g.tune_compute_slice_ns / 1000,
        tune_background_slice_us: g.tune_background_slice_ns / 1000,
    }
}

/// `a + b`, wrapped around.
pub open spec fn wrapping_sum(a: u64, b: u64) -> u64 {
    if a + b > u64::MAX {
        (a + b - u64::MAX - 1) as u64
    } else {
        (a + b) as u64
    }
}

/// What was counted between three looks is what was counted between the first two and
/// between the last two, whether counters wrapped around or not.
pub proof fn deltas_add_up(a: Metrics, b: Metrics, c: Metrics)
    ensures
        c.since(a).interactive_dispatches == wrapping_sum(
            c.since(b).interactive_dispatches,
            b.since(a).interactive_dispatches,
        ),
        c.since(a).waker_boost_dispatches == wrapping_sum(
            c.since(b).waker_boost_dispatches,
            b.since(a).waker_boost_dispatches,
        ),
        c.since(a).normal_dispatches == wrapping_sum(
            c.since(b).normal_dispatches,
            b.since(a).normal_dispatches,
        ),
        c.since(a).compute_dispatches == wrapping_sum(
            c.since(b).compute_dispatches,
            b.since(a).compute_dispatches,
        ),
        c.since(a).background_dispatches == wrapping_sum(
            c.since(b).background_dispatches,
            b.since(a).background_dispatches,
        ),
        c.since(a).preempts == wrapping_sum(
            c.since(b).preempts,
            b.since(a).preempts,
        ),
        c.since(a).kicks_idle == wrapping_sum(
            c.since(b).kicks_idle,
            b.since(a).kicks_idle,
        ),
        c.since(a).kicks_preempt == wrapping_sum(
            c.since(b).kicks_preempt,
            b.since(a).kicks_preempt,
        ),
        c.since(a).profile_transitions == wrapping_sum(
            c.since(b).profile_transitions,
            b.since(a).profile_transitions,
        ),
        c.since(a).waker_boosts == wrapping_sum(
            c.since(b).waker_boosts,
            b.since(a).waker_boosts,
        ),
        c.since(a).srpt_short_tasks == wrapping_sum(
            c.since(b).srpt_short_tasks,
            b.since(a).srpt_short_tasks,
        ),
        c.since(a).budget_refills == wrapping_sum(
            c.since(b).budget_refills,
            b.since(a).budget_refills,
        ),
        c.since(a).budget_exhaustions == wrapping_sum(
            c.since(b).budget_exhaustions,
            b.since(a).budget_exhaustions,
        ),
{
}

/// Events of two CPUs add up, and stop at the largest number; of rounds the larger count
/// stands. Neither depends on which CPU comes first.
pub proof fn cpus_are_joined_in_any_order(a: CpuState, b: CpuState)
    ensures
        ({
            let (r, t) = (joined(joined(no_metrics(), a), b), joined(joined(no_metrics(), b), a));
            &&& r == t
            &&& a.interactive_dispatches + b.interactive_dispatches <= u64::MAX
                ==> r.interactive_dispatches == a.interactive_dispatches + b.interactive_dispatches
            &&& a.waker_boost_dispatches + b.waker_boost_dispatches <= u64::MAX
                ==> r.waker_boost_dispatches == a.waker_boost_dispatches + b.waker_boost_dispatches
            &&& a.normal_dispatches + b.normal_dispatches <= u64::MAX ==> r.normal_dispatches
                == a.normal_dispatches + b.normal_dispatches
            &&& a.compute_dispatches + b.compute_dispatches <= u64::MAX ==> r.compute_dispatches
                == a.compute_dispatches + b.compute_dispatches
            &&& a.background_dispatches + b.background_dispatches <= u64::MAX
                ==> r.background_dispatches == a.background_dispatches + b.background_dispatches
            &&& a.preempts + b.preempts <= u64::MAX ==> r.preempts == a.preempts + b.preempts
            &&& a.preempts + b.preempts > u64::MAX ==> r.preempts == u64::MAX
            &&& a.kicks_idle + b.kicks_idle <= u64::MAX ==> r.kicks_idle == a.kicks_idle
                + b.kicks_idle
            &&& a.kicks_preempt + b.kicks_preempt <= u64::MAX ==> r.kicks_preempt == a.kicks_preempt
                + b.kicks_preempt
            &&& a.profile_transitions + b.profile_transitions <= u64::MAX ==> r.profile_transitions
                == a.profile_transitions + b.profile_transitions
            &&& a.waker_boosts + b.waker_boosts <= u64::MAX ==> r.waker_boosts == a.waker_boosts
                + b.waker_boosts
            &&& a.srpt_short_tasks + b.srpt_short_tasks <= u64::MAX ==> r.srpt_short_tasks
                == a.srpt_short_tasks + b.srpt_short_tasks
            &&& a.budget_refills + b.budget_refills <= u64::MAX ==> r.budget_refills
                == a.budget_refills + b.budget_refills
            &&& a.budget_exhaustions + b.budget_exhaustions <= u64::MAX ==> r.budget_exhaustions
                == a.budget_exhaustions + b.budget_exhaustions
            &&& r.contained_starvation_rounds >= a.contained_starvation_rounds
            &&& r.shared_starvation_rounds >= a.shared_starvation_rounds
            &&& r.high_priority_burst_rounds >= a.high_priority_burst_rounds
            &&& r.contained_starvation_rounds == a.contained_starvation_rounds
                || r.contained_starvation_rounds == b.contained_starvation_rounds
            &&& r.shared_starvation_rounds == a.shared_starvation_rounds
                || r.shared_starvation_rounds == b.shared_starvation_rounds
            &&& r.high_priority_burst_rounds == a.high_priority_burst_rounds
                || r.high_priority_burst_rounds == b.high_priority_burst_rounds
        }),
{
}

/// Over all CPUs, the rounds are the largest of any CPU: none has more, and if there are
/// any, some CPU has as many.
pub proof fn largest_rounds_stand(states: Seq<CpuState>, n: int)
    requires
        0 <= n <= states.len(),
    ensures
        ({
            let r = joined_over(states, n);
            &&& forall|i: int|
                0 <= i < n ==> {
                    &&& (#[trigger] states[i]).contained_starvation_rounds
                        <= r.contained_starvation_rounds
                    &&& states[i].shared_starvation_rounds <= r.shared_starvation_rounds
                    &&& states[i].high_priority_burst_rounds <= r.high_priority_burst_rounds
                    &&& states[i].preempts <= r.preempts
                }
            &&& r.contained_starvation_rounds > 0 ==> exists|i: int|
                0 <= i < n && (#[trigger] states[i]).contained_starvation_rounds
                    == r.contained_starvation_rounds
            &&& r.shared_starvation_rounds > 0 ==> exists|i: int|
                0 <= i < n && (#[trigger] states[i]).shared_starvation_rounds
                    == r.shared_starvation_rounds
            &&& r.high_priority_burst_rounds > 0 ==> exists|i: int|
                0 <= i < n && (#[trigger] states[i]).high_priority_burst_rounds
                    == r.high_priority_burst_rounds
        }),
    decreases n,
{
    if n > 0 {
        largest_rounds_stand(states, n - 1);
        let last = states[n - 1];
    }
}

} // verus!
