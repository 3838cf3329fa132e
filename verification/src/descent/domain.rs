//! The primary CPU domain and the CPU frequency, by power profile and command line.

use vstd::prelude::*;

use crate::cpumask::{cpus_to_cpumask, mask_text};
use crate::text::same;
use crate::topology::{get_primary_cpus, preferred, Cpu, Powermode};

verus! {

/// What the system's power profile asks for.
#[derive(Debug, Clone, Copy, PartialEq, Eq, Structural)]
pub enum PowerProfile {
    Powersave,
    /// `power` for a balance on the side of saving power.
    Balanced { power: bool },
    Performance,
    Unknown,
}

/// The CPUs of a mode, or all if it has none.
pub open spec fn mode_cpus(mode: Powermode, cpus: Seq<Cpu>) -> Seq<usize> {
    if preferred(mode, cpus).len() == 0 {
        preferred(Powermode::Any, cpus)
    } else {
        preferred(mode, cpus)
    }
}

/// No CPU number is so large that its mask could not be written.
pub open spec fn ids_fit(cpus: Seq<Cpu>) -> bool {
    forall|i: int| 0 <= i < cpus.len() ==> (#[trigger] cpus[i]).id <= usize::MAX - 8
}

proof fn lemma_preferred_fit(mode: Powermode, cpus: Seq<Cpu>)
    requires
        ids_fit(cpus),
    ensures
        forall|i: int|
            0 <= i < preferred(mode, cpus).len() ==> #[trigger] preferred(mode, cpus)[i] <= usize::MAX
                - 8,
    decreases cpus.len(),
{
    reveal(Seq::filter);
    if cpus.len() > 0 {
        let rest = cpus.drop_last();
        assert forall|i: int| 0 <= i < rest.len() implies (#[trigger] rest[i]).id <= usize::MAX - 8 by {
            assert(rest[i] == cpus[i]);
        }
        lemma_preferred_fit(mode, rest);
        let keep = |c: Cpu| mode.admits(c.core_type);
        let before = preferred(mode, rest);
        let all = preferred(mode, cpus);
        assert(cpus.last() == cpus[cpus.len() - 1]);
        assert forall|i: int| 0 <= i < all.len() implies #[trigger] all[i] <= usize::MAX - 8 by {
            if i < before.len() {
                assert(all[i] == before[i]);
            } else {
                assert(all[i] == cpus.last().id);
            }
        }
    }
}

/// The mask of the CPUs of a mode, or of all if it has none.
pub fn epp_to_cpumask(mode: Powermode, cpus: &[Cpu]) -> (r: String)
    requires
        ids_fit(cpus@),
    ensures
        r@ == mask_text(mode_cpus(mode, cpus@)),
{
    proof {
        lemma_preferred_fit(mode, cpus@);
        lemma_preferred_fit(Powermode::Any, cpus@);
    }
    let mut list = get_primary_cpus(mode, cpus);
    if list.is_empty() {
        list = get_primary_cpus(Powermode::Any, cpus);
    }
    cpus_to_cpumask(&list)
}

/// The mode that a domain on the command line stands for; none for a mask.
pub open spec fn domain_mode(domain: Seq<char>, profile: PowerProfile) -> Option<Powermode> {
    if domain == "powersave"@ {
        Some(Powermode::Powersave)
    } else if domain == "performance"@ {
        Some(Powermode::Performance)
    } else if domain == "turbo"@ {
        Some(Powermode::Turbo)
    } else if domain == "auto"@ {
        if profile == PowerProfile::Powersave || profile == (PowerProfile::Balanced { power: true }) {
            Some(Powermode::Powersave)
        } else {
            Some(Powermode::Any)
        }
    } else if domain == "all"@ {
        Some(Powermode::Any)
    } else {
        None
    }
}

/// The mask of the primary domain: that of the mode which the command line and the
/// power profile ask for, or the one on the command line.
pub fn resolve_energy_domain(primary_domain: &str, power_profile: PowerProfile, cpus: &[Cpu]) -> (r:
    String)
    requires
        ids_fit(cpus@),
    ensures
        r@ == match domain_mode(primary_domain@, power_profile) {
            Some(mode) => mask_text(mode_cpus(mode, cpus@)),
            None => primary_domain@,
        },
{
    if same(primary_domain, "powersave") {
        epp_to_cpumask(Powermode::Powersave, cpus)
    } else if same(primary_domain, "performance") {
        epp_to_cpumask(Powermode::Performance, cpus)
    } else if same(primary_domain, "turbo") {
        epp_to_cpumask(Powermode::Turbo, cpus)
    } else if same(primary_domain, "auto") {
        match power_profile {
            PowerProfile::Powersave => epp_to_cpumask(Powermode::Powersave, cpus),
            PowerProfile::Balanced { power } => if power {
                epp_to_cpumask(Powermode::Powersave, cpus)
            } else {
                epp_to_cpumask(Powermode::Any, cpus)
            },
            PowerProfile::Performance => epp_to_cpumask(Powermode::Any, cpus),
            PowerProfile::Unknown => epp_to_cpumask(Powermode::Any, cpus),
        }
    } else if same(primary_domain, "all") {
        epp_to_cpumask(Powermode::Any, cpus)
    } else {
        primary_domain.to_owned()
    }
}

/// The CPU performance level that is asked for: the least in the powersave domain, -1
/// for an automatic one, else the largest.
pub fn cpufreq_perf_level(primary_domain: &str, auto: bool) -> (r: i64)
    ensures
        r == if primary_domain@ == "powersave"@ {
            0i64
        } else if auto {
            -1i64
        } else {
            1024i64
        },
{
    if same(primary_domain, "powersave") {
        0
    } else if auto {
        -1
    } else {
        1024
    }
}

/// The word for a performance level.
pub fn perf_level_name(level: i64) -> (r: String)
    ensures
        r@ == if level == 1024 {
            "max"@
        } else if level == 0 {
            "min"@
        } else if level < 0 {
            "auto"@
        } else {
            crate::text::decimal(level as nat)
        },
{
    if level == 1024 {
        "max".to_owned()
    } else if level == 0 {
        "min".to_owned()
    } else if level < 0 {
        "auto".to_owned()
    } else {
        crate::text::decimal_text(level as u64)
    }
}

/// What a look at the power profile leads to.
#[derive(Debug, Clone, Copy, PartialEq, Eq, Structural)]
pub enum Refresh {
    /// Nothing to do.
    Keep,
    /// The scheduler is restarted.
    Restart,
    /// The CPU performance level is set anew.
    Rescale,
}

/// Whether the power profile is looked at again: not if it was unknown at first.
pub fn watches_power_profile(known: PowerProfile) -> (r: bool)
    ensures
        r == (known != PowerProfile::Unknown),
{
    known != PowerProfile::Unknown
}

/// What a change of the power profile leads to: a restart where the domain follows the
/// profile.
pub fn refresh_sched_domain(known: PowerProfile, fetched: PowerProfile, primary_domain: &str) -> (r:
    Refresh)
    ensures
        r == if known == PowerProfile::Unknown || fetched == known {
            Refresh::Keep
        } else if primary_domain@ == "auto"@ {
            Refresh::Restart
        } else {
            Refresh::Rescale
        },
{
    if known == PowerProfile::Unknown || fetched == known {
        Refresh::Keep
    } else if same(primary_domain, "auto") {
        Refresh::Restart
    } else {
        Refresh::Rescale
    }
}

/// The power profile matters to the automatic domain alone, which is that of the
/// power-efficient CPUs where the profile saves power and that of all CPUs otherwise.
pub proof fn profiles_matter_to_the_automatic_domain(
    domain: Seq<char>,
    profile: PowerProfile,
    other: PowerProfile,
)
    ensures
        domain != "auto"@ ==> domain_mode(domain, profile) == domain_mode(domain, other),
        domain == "auto"@ ==> {
            let mode = domain_mode(domain, profile);
            &&& profile == PowerProfile::Powersave || profile == (PowerProfile::Balanced {
                power: true,
            }) ==> mode == Some(Powermode::Powersave)
            &&& profile == PowerProfile::Performance || profile == PowerProfile::Unknown || profile
                == (PowerProfile::Balanced { power: false }) ==> mode == Some(Powermode::Any)
        },
        domain == "all"@ ==> domain_mode(domain, profile) == Some(Powermode::Any),
        domain == "turbo"@ ==> domain_mode(domain, profile) == Some(Powermode::Turbo),
        domain == "performance"@ ==> domain_mode(domain, profile) == Some(Powermode::Performance),
        domain == "powersave"@ ==> domain_mode(domain, profile) == Some(Powermode::Powersave),
{
    reveal_strlit("auto");
    reveal_strlit("all");
    reveal_strlit("turbo");
    reveal_strlit("performance");
    reveal_strlit("powersave");
    assert("auto"@.len() == 4 && "all"@.len() == 3 && "turbo"@.len() == 5 && "performance"@.len()
        == 11 && "powersave"@.len() == 9);
}

/// A mode has CPUs wherever there are any: its preferred ones, and all where it prefers none.
pub proof fn modes_never_leave_without_cpus(mode: Powermode, cpus: Seq<Cpu>, i: int)
    requires
        0 <= i < cpus.len(),
    ensures
        mode_cpus(mode, cpus).len() > 0,
        preferred(mode, cpus).len() > 0 ==> mode_cpus(mode, cpus) == preferred(mode, cpus),
        preferred(mode, cpus).len() == 0 ==> mode_cpus(mode, cpus).contains(cpus[i].id),
{
    let id = cpus[i].id;
    crate::topology::modes_pick_their_cores(Powermode::Any, cpus, id);
    assert(preferred(Powermode::Any, cpus).contains(id));
}

} // verus!
