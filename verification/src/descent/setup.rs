//! Settings that are derived from the command line.

use vstd::prelude::*;

use crate::descent::autorate::AutorateConfig;
use crate::descent::profiles::{
    is_gaming, is_production, is_server, names_gaming, names_server, Profile,
};
use crate::text::lowercase;

verus! {

/// The profile with the given name, or the production profile.
pub fn select_profile(name: &str) -> (r: Profile)
    ensures
        names_gaming(lowercase(name@)) ==> is_gaming(r),
        names_server(lowercase(name@)) ==> is_server(r),
        !names_gaming(lowercase(name@)) && !names_server(lowercase(name@)) ==> is_production(r),
{
    proof {
        crate::descent::profiles::lemma_names_differ(lowercase(name@));
    }
    match Profile::from_str(name) {
        Some(profile) => profile,
        None => Profile::production(),
    }
}

/// What the command line sets differently from the profile.
#[derive(Debug, Clone, Copy)]
pub struct ProfileOverrides {
    pub response_ms: Option<u64>,
    pub pie_alpha: Option<u64>,
    pub pie_beta: Option<u64>,
    /// Target latencies of the classes in microseconds.
    pub target_latency_us: [Option<u64>; 4],
    /// Whether autorate control is on; what follows is of no effect otherwise.
    pub autorate: bool,
    /// Thresholds and rates in thousandths.
    pub autorate_high_load: Option<u64>,
    pub autorate_low_load: Option<u64>,
    pub autorate_ramp_up: Option<u64>,
    pub autorate_ramp_down: Option<u64>,
    pub autorate_decay: Option<u64>,
}

/// What is set, or else what was there.
pub open spec fn set_or(set: Option<u64>, default: u64) -> u64 {
    match set {
        Some(v) => v,
        None => default,
    }
}

/// The target latency of a class in nanoseconds.
pub open spec fn target_or(set: Option<u64>, default: u64) -> u64 {
    match set {
        Some(us) => (us * 1000) as u64,
        None => default,
    }
}

fn choose_value(set: Option<u64>, default: u64) -> (r: u64)
    ensures
        r == set_or(set, default),
{
    match set {
        Some(v) => v,
        None => default,
    }
}

impl ProfileOverrides {
    /// The target latencies fit their type in nanoseconds.
    pub open spec fn targets_fit(self) -> bool {
        forall|c: int|
            0 <= c < 4 ==> (#[trigger] self.target_latency_us[c] matches Some(us) ==> us * 1000
                <= u64::MAX)
    }

    /// The autorate configuration with what is set.
    pub open spec fn autorate_of(self, c: AutorateConfig) -> AutorateConfig {
        if self.autorate {
            AutorateConfig {
                enabled: true,
                high_load_threshold: set_or(self.autorate_high_load, c.high_load_threshold),
                low_load_threshold: set_or(self.autorate_low_load, c.low_load_threshold),
                ramp_up_rate: set_or(self.autorate_ramp_up, c.ramp_up_rate),
                ramp_down_rate: set_or(self.autorate_ramp_down, c.ramp_down_rate),
                decay_rate: set_or(self.autorate_decay, c.decay_rate),
                ..c
            }
        } else {
            c
        }
    }

    /// Sets what the command line sets.
    pub fn apply(&self, profile: &mut Profile)
        requires
            self.targets_fit(),
        ensures
            final(profile).name == old(profile).name,
            final(profile).default_params == old(profile).default_params,
            final(profile).bounds == old(profile).bounds,
            final(profile).pie_max_integral == old(profile).pie_max_integral,
            final(profile).response_ms == set_or(self.response_ms, old(profile).response_ms),
            final(profile).pie_alpha == set_or(self.pie_alpha, old(profile).pie_alpha),
            final(profile).pie_beta == set_or(self.pie_beta, old(profile).pie_beta),
            forall|c: int|
                0 <= c < 4 ==> #[trigger] final(profile).target_latencies_ns[c] == target_or(
                    self.target_latency_us[c],
                    old(profile).target_latencies_ns[c],
                ),
            final(profile).autorate == self.autorate_of(old(profile).autorate),
    {
        profile.response_ms = choose_value(self.response_ms, profile.response_ms);
        profile.pie_alpha = choose_value(self.pie_alpha, profile.pie_alpha);
        profile.pie_beta = choose_value(self.pie_beta, profile.pie_beta);
        let mut targets = profile.target_latencies_ns;
        let ghost before = targets;
        let mut c: usize = 0;
        while c < 4
            invariant
                c <= 4,
                self.targets_fit(),
                forall|k: int|
                    0 <= k < 4 ==> #[trigger] targets[k] == if k < c {
                        target_or(self.target_latency_us[k], before[k])
                    } else {
                        before[k]
                    },
            decreases 4 - c,
        {
            if let Some(us) = self.target_latency_us[c] {
                assert(self.target_latency_us[c as int] == Some(us));
                targets[c] = us * 1000;
            }
            c = c + 1;
        }
        profile.target_latencies_ns = targets;
        if self.autorate {
            let mut config = profile.autorate;
            config.enabled = true;
            config.high_load_threshold = choose_value(
                self.autorate_high_load,
                config.high_load_threshold,
            );
            config.low_load_threshold = choose_value(
                self.autorate_low_load,
                config.low_load_threshold,
            );
            config.ramp_up_rate = choose_value(self.autorate_ramp_up, config.ramp_up_rate);
            config.ramp_down_rate = choose_value(self.autorate_ramp_down, config.ramp_down_rate);
            config.decay_rate = choose_value(self.autorate_decay, config.decay_rate);
            profile.autorate = config;
        }
    }
}

/// Settings of the kernel side.
#[derive(Debug, Clone, Copy, PartialEq, Eq, Structural)]
pub struct KernelSettings {
    pub smt_enabled: bool,
    pub numa_disabled: bool,
    pub primary_all: bool,
    pub slice_max_ns: u64,
    pub slice_lag_ns: u64,
    pub throttle_ns: u64,
}

/// What the settings of the kernel side depend on.
#[derive(Debug, Clone, Copy, PartialEq, Eq, Structural)]
pub struct Machine {
    /// Whether the machine has SMT, and whether the command line turns it off.
    pub smt: bool,
    pub disable_smt: bool,
    /// Number of NUMA nodes with CPUs, and whether the command line turns NUMA off.
    pub nodes: usize,
    pub disable_numa: bool,
    /// Number of CPUs in the primary domain and of all CPU numbers.
    pub primary_cpus: usize,
    pub nr_cpu_ids: usize,
    /// Times in microseconds.
    pub slice_us: u64,
    pub slice_us_lag: u64,
    pub throttle_us: u64,
}

impl Machine {
    /// The settings of the kernel side; nothing if a time does not fit. NUMA is off on
    /// a machine with one node.
    pub fn settings(&self) -> (r: Option<KernelSettings>)
        ensures
            r == if self.slice_us * 1000 <= u64::MAX && self.slice_us_lag * 1000 <= u64::MAX
                && self.throttle_us * 1000 <= u64::MAX {
                Some(
                    KernelSettings {
                        smt_enabled: !self.disable_smt && self.smt,
                        numa_disabled: self.disable_numa || self.nodes == 1,
                        primary_all: self.primary_cpus == self.nr_cpu_ids,
                        slice_max_ns: (self.slice_us * 1000) as u64,
                        slice_lag_ns: (self.slice_us_lag * 1000) as u64,
                        throttle_ns: (self.throttle_us * 1000) as u64,
                    },
                )
            } else {
                None
            },
    {
        match (
            self.slice_us.checked_mul(1000),
            self.slice_us_lag.checked_mul(1000),
            self.throttle_us.checked_mul(1000),
        ) {
            (Some(slice_max_ns), Some(slice_lag_ns), Some(throttle_ns)) => Some(
                KernelSettings {
                    smt_enabled: !self.disable_smt && self.smt,
                    numa_disabled: self.disable_numa || self.nodes == 1,
                    primary_all: self.primary_cpus == self.nr_cpu_ids,
                    slice_max_ns,
                    slice_lag_ns,
                    throttle_ns,
                },
            ),
            _ => None,
        }
    }
}

} // verus!
