//! Counters of the scheduler and their report.

use vstd::prelude::*;
use vstd::string::StringExecFns;

use crate::descent::autorate::AutorateState;
use crate::descent::optimizer_thompson::{estimate, ThompsonSampler};
use crate::descent::profiles::PARAM_COUNT;
use crate::descent::report::PieSummary;
use crate::text::{
    decimal, decimal_text, left_aligned, push_decimal, push_left, push_right, right_aligned,
    thousandths, thousandths_text,
};

verus! {

/// Counters of the scheduler.
#[derive(Debug, Clone, Copy, PartialEq, Eq, Structural)]
pub struct Metrics {
    pub nr_running: u64,
    pub nr_cpus: u64,
    pub nr_kthread_dispatches: u64,
    pub nr_direct_dispatches: u64,
    pub nr_shared_dispatches: u64,
    pub nr_tasks_latency_critical: u64,
    pub nr_tasks_normal: u64,
    pub nr_tasks_hog: u64,
    pub nr_tasks_background: u64,
    pub thompson_updates: u64,
    pub thompson_uncertainty: u64,
    pub pie_updates: u64,
    pub pie_avg_latency_us: u64,
    pub pie_target_latency_us: u64,
    pub pie_integral: i64,
    pub pie_latency_error_us: i64,
    pub autorate_enabled: u64,
    pub autorate_state: u64,
    pub autorate_rate_percent: u64,
}

/// What the kernel side counts.
#[derive(Debug, Clone, Copy, PartialEq, Eq, Structural)]
pub struct KernelCounters {
    pub nr_running: u64,
    pub nr_online_cpus: u64,
    pub nr_kthread_dispatches: u64,
    pub nr_direct_dispatches: u64,
    pub nr_shared_dispatches: u64,
}

/// The number of a state.
pub open spec fn state_number(state: AutorateState) -> u64 {
    match state {
        AutorateState::Idle => 0,
        AutorateState::Exploring => 1,
        AutorateState::BackingOff => 2,
        AutorateState::Steady => 3,
    }
}

/// Autorate control as counters show it: whether it is on, the state of its first
/// class, and its rate in percent, which is in the middle where it is not known.
pub open spec fn autorate_counters(autorate: Option<Option<(AutorateState, u64)>>) -> (u64, u64, u64) {
    match autorate {
        Some(Some((state, percent))) => (1, state_number(state), percent),
        Some(None) => (1, 0, 50),
        None => (0, 0, 0),
    }
}

impl Metrics {
    /// The counters of the kernel side, of the PIE controller and of autorate control.
    /// Tasks by class and a target over all classes are not counted.
    pub fn collect(
        kernel: &KernelCounters,
        pie: &PieSummary,
        autorate: Option<Option<(AutorateState, u64)>>,
    ) -> (r: Self)
        ensures
            r == (Metrics {
                nr_running: kernel.nr_running,
                nr_cpus: kernel.nr_online_cpus,
                nr_kthread_dispatches: kernel.nr_kthread_dispatches,
                nr_direct_dispatches: kernel.nr_direct_dispatches,
                nr_shared_dispatches: kernel.nr_shared_dispatches,
                nr_tasks_latency_critical: 0,
                nr_tasks_normal: 0,
                nr_tasks_hog: 0,
                nr_tasks_background: 0,
                thompson_updates: 0,
                thompson_uncertainty: 0,
                pie_updates: pie.updates,
                pie_avg_latency_us: pie.avg_latency_us,
                pie_target_latency_us: 0,
                pie_integral: pie.integral,
                pie_latency_error_us: pie.latency_error_us,
                autorate_enabled: autorate_counters(autorate).0,
                autorate_state: autorate_counters(autorate).1,
                autorate_rate_percent: autorate_counters(autorate).2,
            }),
    {
        let (autorate_enabled, autorate_state, autorate_rate_percent): (u64, u64, u64) = match autorate {
            Some(None) => (1, 0, 50),
            Some(Some((state, percent))) => (
                1,
                match state {
                    AutorateState::Idle => 0,
                    AutorateState::Exploring => 1,
                    AutorateState::BackingOff => 2,
                    AutorateState::Steady => 3,
                },
                percent,
            ),
            None => (0, 0, 0),
        };
        Metrics {
            nr_running: kernel.nr_running,
            nr_cpus: kernel.nr_online_cpus,
            nr_kthread_dispatches: kernel.nr_kthread_dispatches,
            nr_direct_dispatches: kernel.nr_direct_dispatches,
            nr_shared_dispatches: kernel.nr_shared_dispatches,
            nr_tasks_latency_critical: 0,
            nr_tasks_normal: 0,
            nr_tasks_hog: 0,
            nr_tasks_background: 0,
            thompson_updates: 0,
            thompson_uncertainty: 0,
            pie_updates: pie.updates,
            pie_avg_latency_us: pie.avg_latency_us,
            pie_target_latency_us: 0,
            pie_integral: pie.integral,
            pie_latency_error_us: pie.latency_error_us,
            autorate_enabled,
            autorate_state,
            autorate_rate_percent,
        }
    }

    /// No event counter is behind that of `rhs`.
    pub open spec fn follows(self, rhs: Metrics) -> bool {
        &&& self.nr_kthread_dispatches >= rhs.nr_kthread_dispatches
        &&& self.nr_direct_dispatches >= rhs.nr_direct_dispatches
        &&& self.nr_shared_dispatches >= rhs.nr_shared_dispatches
    }

    /// What happened since `rhs`: dispatches are counted from there, everything else is
    /// as it is now.
    pub fn delta(&self, rhs: &Self) -> (r: Self)
        requires
            self.follows(*rhs),
        ensures
            r == (Metrics {
                nr_kthread_dispatches: (self.nr_kthread_dispatches - rhs.nr_kthread_dispatches) as u64,
                nr_direct_dispatches: (self.nr_direct_dispatches - rhs.nr_direct_dispatches) as u64,
                nr_shared_dispatches: (self.nr_shared_dispatches - rhs.nr_shared_dispatches) as u64,
                ..*self
            }),
    {
        let mut m = *self;
        m.nr_kthread_dispatches = self.nr_kthread_dispatches - rhs.nr_kthread_dispatches;
        m.nr_direct_dispatches = self.nr_direct_dispatches - rhs.nr_direct_dispatches;
        m.nr_shared_dispatches = self.nr_shared_dispatches - rhs.nr_shared_dispatches;
        m
    }

    /// One line that reports the counters.
    pub fn format(&self) -> (r: String)
        ensures
            r@ == "[scx_descent] tasks -> r: "@ + right_aligned(decimal(self.nr_running as nat), 2) + "/"@
                + left_aligned(decimal(self.nr_cpus as nat), 2) + " | dispatch -> k: "@
                + left_aligned(decimal(self.nr_kthread_dispatches as nat), 5) + " d: "@
                + left_aligned(decimal(self.nr_direct_dispatches as nat), 5) + " s: "@ + left_aligned(
                decimal(self.nr_shared_dispatches as nat),
                5,
            ) + " | thompson: updates="@ + decimal(self.thompson_updates as nat) + " unc="@
                + thousandths(self.thompson_uncertainty as nat) + " | classes: lc:"@ + decimal(
                self.nr_tasks_latency_critical as nat,
            ) + " n:"@ + decimal(self.nr_tasks_normal as nat) + " h:"@ + decimal(
                self.nr_tasks_hog as nat,
            ) + " bg:"@ + decimal(self.nr_tasks_background as nat) + "\n"@,
    {
        let mut out: String = "[scx_descent] tasks -> r: ".to_owned();
        push_right(&mut out, decimal_text(self.nr_running).as_str(), 2);
        out.append("/");
        push_left(&mut out, decimal_text(self.nr_cpus).as_str(), 2);
        out.append(" | dispatch -> k: ");
        push_left(&mut out, decimal_text(self.nr_kthread_dispatches).as_str(), 5);
        out.append(" d: ");
        push_left(&mut out, decimal_text(self.nr_direct_dispatches).as_str(), 5);
        out.append(" s: ");
        push_left(&mut out, decimal_text(self.nr_shared_dispatches).as_str(), 5);
        out.append(" | thompson: updates=");
        push_decimal(&mut out, self.thompson_updates);
        out.append(" unc=");
        out.append(thousandths_text(self.thompson_uncertainty).as_str());
        out.append(" | classes: lc:");
        push_decimal(&mut out, self.nr_tasks_latency_critical);
        out.append(" n:");
        push_decimal(&mut out, self.nr_tasks_normal);
        out.append(" h:");
        push_decimal(&mut out, self.nr_tasks_hog);
        out.append(" bg:");
        push_decimal(&mut out, self.nr_tasks_background);
        out.append("\n");
        out
    }
}

/// What the Thompson sampler knows of a class on a CPU; values and losses in thousandths.
#[derive(Debug, Clone, Copy)]
pub struct ThompsonStats {
    pub cpu: u32,
    pub class: u32,
    /// Estimates of the parameters.
    pub param_means: [u64; PARAM_COUNT],
    /// Their standard deviations.
    pub param_stds: [u64; PARAM_COUNT],
    /// Their numbers of observations.
    pub n_observations: [u64; PARAM_COUNT],
    /// The parameters in use.
    pub current_params: [u64; PARAM_COUNT],
    pub last_loss: u64,
    pub update_count: u64,
}

impl ThompsonStats {
    /// What a sampler knows of a class on a CPU; zeros where there is no estimate. Updates
    /// are not counted.
    pub fn from_sampler(
        cpu: u32,
        class: u32,
        thompson: &ThompsonSampler,
        current_params: [u64; PARAM_COUNT],
        last_loss: u64,
    ) -> (r: Option<Self>)
        ensures
            r matches Some(s) && {
                &&& s.cpu == cpu
                &&& s.class == class
                &&& s.current_params == current_params
                &&& s.last_loss == last_loss
                &&& s.update_count == 0
                &&& forall|p: int|
                    0 <= p < PARAM_COUNT ==> (
                        #[trigger] s.param_means@[p],
                        s.param_stds@[p],
                        s.n_observations@[p],
                    ) == match estimate(thompson.pairs(), cpu, class, p) {
                        Some(v) => (v.mean, v.std, v.n_observations),
                        None => (0u64, 0u64, 0u64),
                    }
            },
    {
        let mut param_means: [u64; PARAM_COUNT] = [0; PARAM_COUNT];
        let mut param_stds: [u64; PARAM_COUNT] = [0; PARAM_COUNT];
        let mut n_observations: [u64; PARAM_COUNT] = [0; PARAM_COUNT];
        let mut p: usize = 0;
        while p < PARAM_COUNT
            invariant
                p <= 5,
                forall|q: int|
                    0 <= q < 5 ==> (#[trigger] param_means@[q], param_stds@[q], n_observations@[q])
                        == match estimate(thompson.pairs(), cpu, class, q) {
                        Some(v) => if q < p {
                            (v.mean, v.std, v.n_observations)
                        } else {
                            (0u64, 0u64, 0u64)
                        },
                        None => (0u64, 0u64, 0u64),
                    },
            decreases 5 - p,
        {
            if let Some(v) = thompson.get_posterior(cpu, class, p) {
                param_means[p] = v.mean;
                param_stds[p] = v.std;
                n_observations[p] = v.n_observations;
            }
            p = p + 1;
        }
        Some(
            ThompsonStats {
                cpu,
                class,
                param_means,
                param_stds,
                n_observations,
                current_params,
                last_loss,
                update_count: 0,
            },
        )
    }
}

} // verus!
