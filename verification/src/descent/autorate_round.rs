//! One round of autorate control: from what was measured on all CPUs to the base
//! parameters of each class.

use vstd::prelude::*;

use crate::descent::autorate::AutorateConfig;
use crate::descent::autorate_control::{AutorateController, Board};
use crate::descent::profiles::{Profile, DESCENT_CLASS_MAX, PARAM_COUNT};
use crate::descent::rounds::{
    class_load, class_reading, class_totals, cycle_sum, effective_latency, latency_sum, sample_sum,
    ClassTotals, CpuSample,
};
use crate::descent::shares::param_floor;
use crate::ratio::Ratio;

verus! {

/// What was measured of a class on all CPUs can be summed up.
pub open spec fn sums_fit(samples: Seq<CpuSample>, class: int) -> bool {
    let n = samples.len() as int;
    &&& latency_sum(samples, class, n) <= i64::MAX
    &&& sample_sum(samples, class, n) <= u64::MAX
    &&& cycle_sum(samples, class, n) <= u64::MAX
}

/// The latency and load of a class in an interval; nothing if neither was measured.
pub open spec fn reading_of(samples: Seq<CpuSample>, class: int, profile: Profile) -> Option<
    (u64, Ratio),
> {
    let n = samples.len() as int;
    let t = ClassTotals {
        latency_ns: latency_sum(samples, class, n) as u64,
        samples: sample_sum(samples, class, n) as u64,
        cycles: cycle_sum(samples, class, n) as u64,
    };
    if t.samples > 0 || t.cycles > 0 {
        Some(
            (
                effective_latency(t, profile.target_latencies_ns@[class]),
                class_load(t, n as usize, profile.response_ms * 1_000_000),
            ),
        )
    } else {
        None
    }
}

/// The board after the first `n` classes took in their readings.
pub open spec fn after_round(
    b: Board,
    samples: Seq<CpuSample>,
    profile: Profile,
    config: AutorateConfig,
    now_ns: u64,
    n: int,
) -> Board
    decreases n,
{
    if n <= 0 {
        b
    } else {
        let before = after_round(b, samples, profile, config, now_ns, n - 1);
        match reading_of(samples, n - 1, profile) {
            Some((latency_ns, load)) => before.updated_one(
                (n - 1) as u32,
                latency_ns,
                profile.target_latencies_ns@[n - 1],
                load,
                config,
                now_ns,
            ),
            None => before,
        }
    }
}

/// A base parameter of a class: from the share that the class has once its reading is
/// taken in; the baseline if there was no reading or autorate is off.
pub open spec fn base_param(
    b: Board,
    samples: Seq<CpuSample>,
    profile: Profile,
    config: AutorateConfig,
    now_ns: u64,
    class: int,
    p: int,
) -> int {
    if reading_of(samples, class, profile) is None {
        profile.autorate.baseline_params@[class]@[p] as int
    } else if !config.enabled {
        config.baseline_params@[class]@[p] as int
    } else {
        param_floor(
            after_round(b, samples, profile, config, now_ns, class + 1).states[class].current_share,
            config.share_configs@[class],
            p,
            config.min_params@[class]@[p],
            config.baseline_params@[class]@[p],
            config.max_params@[class]@[p],
        )
    }
}

/// Takes in what was measured on all CPUs, class by class, and returns the base parameters
/// of each class.
pub fn autorate_round(
    autorate: &mut AutorateController,
    samples: &[CpuSample],
    profile: &Profile,
    now_ns: u64,
) -> (r: [[u64; PARAM_COUNT]; DESCENT_CLASS_MAX])
    requires
        old(autorate).wf(),
        old(autorate).config.enabled ==> old(autorate).ranges_ordered() && old(autorate).has_room(4),
        old(autorate).stats.baseline_updates + 4 <= u64::MAX,
        profile.response_ms * 1_000_000 <= u64::MAX,
        forall|c: int|
            0 <= c < DESCENT_CLASS_MAX ==> #[trigger] profile.target_latencies_ns@[c] <= i64::MAX,
        forall|c: int| 0 <= c < DESCENT_CLASS_MAX ==> #[trigger] sums_fit(samples@, c),
    ensures
        final(autorate).wf(),
        final(autorate).same_config(*old(autorate)),
        final(autorate).board() == after_round(
            old(autorate).board(),
            samples@,
            *profile,
            old(autorate).config,
            now_ns,
            DESCENT_CLASS_MAX as int,
        ),
        forall|c: int, p: int|
            0 <= c < DESCENT_CLASS_MAX && 0 <= p < PARAM_COUNT ==> #[trigger] r@[c]@[p] == base_param(
                old(autorate).board(),
                samples@,
                *profile,
                old(autorate).config,
                now_ns,
                c,
                p,
            ),
{
    let mut base: [[u64; PARAM_COUNT]; DESCENT_CLASS_MAX] = profile.autorate.baseline_params;
    let ghost start = old(autorate).board();
    let ghost config = old(autorate).config;
    let mut class: usize = 0;
    while class < DESCENT_CLASS_MAX
        invariant
            class <= 4,
            start == old(autorate).board(),
            config == old(autorate).config,
            autorate.wf(),
            config.enabled ==> autorate.ranges_ordered() && autorate.has_room(4 - class),
            autorate.stats.baseline_updates + (4 - class) <= u64::MAX,
            autorate.same_config(*old(autorate)),
            autorate.board() == after_round(
                start,
                samples@,
                *profile,
                config,
                now_ns,
                class as int,
            ),
            profile.response_ms * 1_000_000 <= u64::MAX,
            forall|c: int|
                0 <= c < DESCENT_CLASS_MAX ==> #[trigger] profile.target_latencies_ns@[c]
                    <= i64::MAX,
            forall|c: int| 0 <= c < DESCENT_CLASS_MAX ==> #[trigger] sums_fit(samples@, c),
            forall|c: int| class <= c < 4 ==> #[trigger] base@[c] == profile.autorate.baseline_params@[c],
            forall|c: int, p: int|
                0 <= c < class && 0 <= p < PARAM_COUNT ==> #[trigger] base@[c]@[p] == base_param(
                    start,
                    samples@,
                    *profile,
                    config,
                    now_ns,
                    c,
                    p,
                ),
        decreases 4 - class,
    {
        assert(sums_fit(samples@, class as int));
        assert(profile.target_latencies_ns@[class as int] <= i64::MAX);
        let totals = class_totals(samples, class);
        let target_ns: u64 = profile.target_latencies_ns[class];
        let reading = class_reading(&totals, samples.len(), profile.response_ms, target_ns);
        assert(reading == reading_of(samples@, class as int, *profile));
        if let Some((latency_ns, load)) = reading {
            proof {
                if totals.samples > 0 {
                    assert(totals.latency_ns as int / totals.samples as int <= totals.latency_ns)
                        by (nonlinear_arith)
                        requires
                            totals.samples > 0,
                            totals.latency_ns >= 0,
                    ;
                }
                assert(latency_ns <= i64::MAX);
            }
            let (params, _) = autorate.update(
                class as u32,
                latency_ns,
                target_ns,
                load,
                totals.samples,
                now_ns,
            );
            base[class] = params;
        }
        class = class + 1;
    }
    base
}

} // verus!
