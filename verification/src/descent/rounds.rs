//! Rounds of control: what the kernel side measured on each CPU for each class, the
//! load and latency of a class over all CPUs, and the updates of the PIE controller.

use vstd::prelude::*;

use crate::descent::bound_debug::{stats_of, BoundKey, Records};
use crate::descent::optimizer_pie::{
    after_clamps, clamps_leave_others, is_next_state, next_error, wanted_params, PieController,
    PieState,
};
use crate::descent::profiles::{bounds_ordered, DESCENT_CLASS_MAX, PARAM_COUNT};
use crate::ratio::Ratio;
use crate::wire::{le_u64, u64_at};

verus! {

/// Latencies of a class on a CPU.
#[derive(Debug, Clone, Copy, PartialEq, Eq, Structural)]
pub struct LatencyMetrics {
    pub total_latency_ns: u64,
    pub max_latency_ns: u64,
    pub sample_count: u64,
}

/// Load of a class on a CPU.
#[derive(Debug, Clone, Copy, PartialEq, Eq, Structural)]
pub struct LoadMetrics {
    pub cycles_spent: u64,
    pub sample_count: u64,
    pub last_update_ns: u64,
}

/// The number at the beginning of `bytes`; 0 if there are fewer than eight.
pub fn read_u64(bytes: &[u8]) -> (r: u64)
    ensures
        r == if bytes@.len() >= 8 {
            le_u64(bytes@, 0)
        } else {
            0
        },
{
    if bytes.len() >= 8 {
        u64_at(bytes, 0)
    } else {
        0
    }
}

/// Where the latencies of a class begin in the value of a CPU: behind the parameters
/// of all classes.
pub open spec fn latency_offset(class: u32) -> int {
    160 + class * 24
}

/// Where the load of a class begins in the value of a CPU: behind the latencies of all
/// classes.
pub open spec fn load_offset(class: u32) -> int {
    256 + class * 24
}

/// The latencies of a class in the value that the kernel side keeps for a CPU; zeros
/// for a class that does not exist or a value that is too short.
pub fn read_latency_metrics(data: &[u8], class: u32) -> (r: LatencyMetrics)
    ensures
        r == if class < DESCENT_CLASS_MAX && data@.len() >= latency_offset(class) + 24 {
            LatencyMetrics {
                total_latency_ns: le_u64(data@, latency_offset(class)),
                max_latency_ns: le_u64(data@, latency_offset(class) + 8),
                sample_count: le_u64(data@, latency_offset(class) + 16),
            }
        } else {
            LatencyMetrics { total_latency_ns: 0, max_latency_ns: 0, sample_count: 0 }
        },
{
    if class as usize >= DESCENT_CLASS_MAX || data.len() < 160 + class as usize * 24 + 24 {
        return LatencyMetrics { total_latency_ns: 0, max_latency_ns: 0, sample_count: 0 };
    }
    let at: usize = 160 + class as usize * 24;
    LatencyMetrics {
        total_latency_ns: u64_at(data, at),
        max_latency_ns: u64_at(data, at + 8),
        sample_count: u64_at(data, at + 16),
    }
}

/// The load of a class in the value that the kernel side keeps for a CPU; zeros for a
/// class that does not exist or a value that is too short.
pub fn read_load_metrics(data: &[u8], class: u32) -> (r: LoadMetrics)
    ensures
        r == if class < DESCENT_CLASS_MAX && data@.len() >= load_offset(class) + 24 {
            LoadMetrics {
                cycles_spent: le_u64(data@, load_offset(class)),
                sample_count: le_u64(data@, load_offset(class) + 8),
                last_update_ns: le_u64(data@, load_offset(class) + 16),
            }
        } else {
            LoadMetrics { cycles_spent: 0, sample_count: 0, last_update_ns: 0 }
        },
{
    if class as usize >= DESCENT_CLASS_MAX || data.len() < 256 + class as usize * 24 + 24 {
        return LoadMetrics { cycles_spent: 0, sample_count: 0, last_update_ns: 0 };
    }
    let at: usize = 256 + class as usize * 24;
    LoadMetrics {
        cycles_spent: u64_at(data, at),
        sample_count: u64_at(data, at + 8),
        last_update_ns: u64_at(data, at + 16),
    }
}

/// What was measured on a CPU, by class.
#[derive(Debug, Clone, Copy)]
pub struct CpuSample {
    pub latency: [LatencyMetrics; DESCENT_CLASS_MAX],
    pub load: [LoadMetrics; DESCENT_CLASS_MAX],
}

/// What was measured of a class on all CPUs.
#[derive(Debug, Clone, Copy, PartialEq, Eq, Structural)]
pub struct ClassTotals {
    pub latency_ns: u64,
    pub samples: u64,
    pub cycles: u64,
}

/// The sum of the latencies of a class on the first `n` CPUs.
pub open spec fn latency_sum(s: Seq<CpuSample>, class: int, n: int) -> int
    decreases n,
{
    if n <= 0 {
        0
    } else {
        latency_sum(s, class, n - 1) + s[n - 1].latency[class].total_latency_ns
    }
}

/// The number of latency samples of a class on the first `n` CPUs.
pub open spec fn sample_sum(s: Seq<CpuSample>, class: int, n: int) -> int
    decreases n,
{
    if n <= 0 {
        0
    } else {
        sample_sum(s, class, n - 1) + s[n - 1].latency[class].sample_count
    }
}

/// The cycles of a class on the first `n` CPUs.
pub open spec fn cycle_sum(s: Seq<CpuSample>, class: int, n: int) -> int
    decreases n,
{
    if n <= 0 {
        0
    } else {
        cycle_sum(s, class, n - 1) + s[n - 1].load[class].cycles_spent
    }
}

proof fn lemma_sums_grow(s: Seq<CpuSample>, class: int, a: int, b: int)
    requires
        0 <= a <= b <= s.len(),
        0 <= class < DESCENT_CLASS_MAX,
    ensures
        0 <= latency_sum(s, class, a) <= latency_sum(s, class, b),
        0 <= sample_sum(s, class, a) <= sample_sum(s, class, b),
        0 <= cycle_sum(s, class, a) <= cycle_sum(s, class, b),
    decreases b,
{
    if a < b {
        lemma_sums_grow(s, class, a, b - 1);
    } else if a > 0 {
        lemma_sums_grow(s, class, a - 1, b - 1);
    }
}

/// What was measured of a class on all CPUs.
pub fn class_totals(samples: &[CpuSample], class: usize) -> (r: ClassTotals)
    requires
        class < DESCENT_CLASS_MAX,
        latency_sum(samples@, class as int, samples@.len() as int) <= u64::MAX,
        sample_sum(samples@, class as int, samples@.len() as int) <= u64::MAX,
        cycle_sum(samples@, class as int, samples@.len() as int) <= u64::MAX,
    ensures
        r.latency_ns == latency_sum(samples@, class as int, samples@.len() as int),
        r.samples == sample_sum(samples@, class as int, samples@.len() as int),
        r.cycles == cycle_sum(samples@, class as int, samples@.len() as int),
{
    let ghost c = class as int;
    let ghost all = samples@.len() as int;
    let mut t = ClassTotals { latency_ns: 0, samples: 0, cycles: 0 };
    let mut i: usize = 0;
    while i < samples.len()
        invariant
            i <= samples@.len() == all,
            c == class < 4,
            latency_sum(samples@, c, all) <= u64::MAX,
            sample_sum(samples@, c, all) <= u64::MAX,
            cycle_sum(samples@, c, all) <= u64::MAX,
            t.latency_ns == latency_sum(samples@, c, i as int),
            t.samples == sample_sum(samples@, c, i as int),
            t.cycles == cycle_sum(samples@, c, i as int),
        decreases samples@.len() - i,
    {
        proof {
            lemma_sums_grow(samples@, c, i + 1, all);
        }
        t.latency_ns = t.latency_ns + samples[i].latency[class].total_latency_ns;
        t.samples = t.samples + samples[i].latency[class].sample_count;
        t.cycles = t.cycles + samples[i].load[class].cycles_spent;
        i = i + 1;
    }
    t
}

/// The number of load samples of a class on the first `n` CPUs.
pub open spec fn load_sample_sum(s: Seq<CpuSample>, class: int, n: int) -> int
    decreases n,
{
    if n <= 0 {
        0
    } else {
        load_sample_sum(s, class, n - 1) + s[n - 1].load[class].sample_count
    }
}

proof fn lemma_load_samples_grow(s: Seq<CpuSample>, class: int, a: int, b: int)
    requires
        0 <= a <= b <= s.len(),
        0 <= class < DESCENT_CLASS_MAX,
    ensures
        0 <= load_sample_sum(s, class, a) <= load_sample_sum(s, class, b),
    decreases b,
{
    if a < b {
        lemma_load_samples_grow(s, class, a, b - 1);
    } else if a > 0 {
        lemma_load_samples_grow(s, class, a - 1, b - 1);
    }
}

/// The cycles and the load samples of a class on CPUs.
pub fn load_totals(samples: &[CpuSample], class: usize) -> (r: (u64, u64))
    requires
        class < DESCENT_CLASS_MAX,
        cycle_sum(samples@, class as int, samples@.len() as int) <= u64::MAX,
        load_sample_sum(samples@, class as int, samples@.len() as int) <= u64::MAX,
    ensures
        r.0 == cycle_sum(samples@, class as int, samples@.len() as int),
        r.1 == load_sample_sum(samples@, class as int, samples@.len() as int),
{
    let ghost c = class as int;
    let ghost all = samples@.len() as int;
    let mut cycles: u64 = 0;
    let mut count: u64 = 0;
    let mut i: usize = 0;
    while i < samples.len()
        invariant
            i <= samples@.len() == all,
            c == class < 4,
            cycle_sum(samples@, c, all) <= u64::MAX,
            load_sample_sum(samples@, c, all) <= u64::MAX,
            cycles == cycle_sum(samples@, c, i as int),
            count == load_sample_sum(samples@, c, i as int),
        decreases samples@.len() - i,
    {
        proof {
            lemma_sums_grow(samples@, c, i + 1, all);
            lemma_load_samples_grow(samples@, c, i + 1, all);
        }
        cycles = cycles + samples[i].load[class].cycles_spent;
        count = count + samples[i].load[class].sample_count;
        i = i + 1;
    }
    (cycles, count)
}

/// The mean latency of a class; the target where nothing was measured.
pub open spec fn effective_latency(t: ClassTotals, target_ns: u64) -> u64 {
    let avg = if t.samples > 0 { t.latency_ns / t.samples } else { 0 };
    if avg > 0 {
        avg
    } else {
        target_ns
    }
}

/// The load of a class: its mean cycles per CPU, of the interval, and not more than
/// that; none without CPUs or interval.
pub open spec fn class_load(t: ClassTotals, nr_cpus: usize, interval_ns: int) -> Ratio {
    if interval_ns > 0 && nr_cpus > 0 {
        let avg = t.cycles as int / nr_cpus as int;
        Ratio {
            num: (if avg < interval_ns { avg } else { interval_ns }) as u64,
            den: interval_ns as u64,
        }
    } else {
        Ratio { num: 0, den: 1 }
    }
}

/// The latency and load of a class in an interval; nothing if neither was measured.
pub fn class_reading(t: &ClassTotals, nr_cpus: usize, response_ms: u64, target_ns: u64) -> (r: Option<
    (u64, Ratio),
>)
    requires
        response_ms * 1_000_000 <= u64::MAX,
    ensures
        r == if t.samples > 0 || t.cycles > 0 {
            Some((effective_latency(*t, target_ns), class_load(*t, nr_cpus, response_ms * 1_000_000)))
        } else {
            None
        },
        r matches Some(reading) ==> reading.1.valid() && reading.1.num <= reading.1.den,
{
    if t.samples == 0 && t.cycles == 0 {
        return None;
    }
    let avg_latency_ns: u64 = if t.samples > 0 { t.latency_ns / t.samples } else { 0 };
    let interval_ns: u64 = response_ms * 1_000_000;
    let load = if interval_ns > 0 && nr_cpus > 0 {
        let avg_cycles_per_cpu: u64 = t.cycles / nr_cpus as u64;
        Ratio {
            num: if avg_cycles_per_cpu < interval_ns { avg_cycles_per_cpu } else { interval_ns },
            den: interval_ns,
        }
    } else {
        Ratio { num: 0, den: 1 }
    };
    let effective_latency_ns: u64 = if avg_latency_ns > 0 { avg_latency_ns } else { target_ns };
    Some((effective_latency_ns, load))
}

/// New parameters of a class on a CPU.
#[derive(Debug, Clone, Copy)]
pub struct ParamWrite {
    pub cpu: u32,
    pub class: u32,
    pub params: [u64; PARAM_COUNT],
}

/// The parameters that every CPU and class starts with, in order.
pub fn initial_writes(pie: &PieController, nr_cpus: u32) -> (r: Vec<ParamWrite>)
    requires
        nr_cpus * 4 <= u32::MAX,
    ensures
        r@.len() == nr_cpus * 4,
        forall|n: int|
            0 <= n < nr_cpus * 4 ==> (#[trigger] r@[n]).cpu == pair_cpu(n) && r@[n].class == pair_class(
                n,
            ) && r@[n].params == pie.config().defaults_of(pair_class(n)),
{
    let mut out: Vec<ParamWrite> = Vec::new();
    let mut n: u32 = 0;
    while n < nr_cpus * 4
        invariant
            n <= nr_cpus * 4 <= u32::MAX,
            out@.len() == n,
            forall|m: int|
                0 <= m < n ==> (#[trigger] out@[m]).cpu == pair_cpu(m) && out@[m].class == pair_class(
                    m,
                ) && out@[m].params == pie.config().defaults_of(pair_class(m)),
        decreases nr_cpus * 4 - n,
    {
        let params = pie.get_default_params(n % 4);
        out.push(ParamWrite { cpu: n / 4, class: n % 4, params });
        n = n + 1;
    }
    out
}

/// The CPU of the pair number `n` of CPU and class.
pub open spec fn pair_cpu(n: int) -> u32 {
    (n / 4) as u32
}

/// The class of the pair number `n` of CPU and class.
pub open spec fn pair_class(n: int) -> u32 {
    (n % 4) as u32
}

/// What was measured of the latency of a pair.
pub open spec fn pair_latency(s: Seq<CpuSample>, n: int) -> LatencyMetrics {
    s[n / 4].latency[n % 4]
}

/// The mean latency of a pair with samples.
pub open spec fn mean_latency(m: LatencyMetrics) -> u64 {
    m.total_latency_ns / m.sample_count
}

/// The state that a measurement of a pair starts from: with base parameters, these
/// are fine-tuned in place of the current ones.
pub open spec fn started(s: PieState, base: Option<[[u64; 5]; 4]>, class: u32) -> PieState {
    match base {
        Some(b) => PieState { current_params: b[class as int], ..s },
        None => s,
    }
}

/// The new parameters of the first `n` pairs that have samples.
pub open spec fn writes(pie: PieController, s: Seq<CpuSample>, n: int) -> Seq<ParamWrite>
    decreases n,
{
    if n <= 0 {
        Seq::empty()
    } else {
        let before = writes(pie, s, n - 1);
        if pair_latency(s, n - 1).sample_count > 0 {
            before.push(
                ParamWrite {
                    cpu: pair_cpu(n - 1),
                    class: pair_class(n - 1),
                    params: pie.state(pair_cpu(n - 1), pair_class(n - 1)).current_params,
                },
            )
        } else {
            before
        }
    }
}

/// The records of clamps after the first `n` pairs of a controller were updated.
pub open spec fn round_records(
    first: PieController,
    s: Seq<CpuSample>,
    base: Option<[[u64; 5]; 4]>,
    n: int,
) -> Records
    decreases n,
{
    if n <= 0 {
        first.debugger().records()
    } else {
        pair_records(round_records(first, s, base, n - 1), first, s, base, n - 1)
    }
}

/// The records of clamps after pair number `n` of a controller was updated.
pub open spec fn pair_records(
    r: Records,
    first: PieController,
    s: Seq<CpuSample>,
    base: Option<[[u64; 5]; 4]>,
    n: int,
) -> Records {
    let (cpu, class) = (pair_cpu(n), pair_class(n));
    let start = started(first.state(cpu, class), base, class);
    let measured = mean_latency(pair_latency(s, n));
    if first.debugger().enabled() && pair_latency(s, n).sample_count > 0 {
        after_clamps(
            r,
            first.config().param_bounds,
            cpu,
            class,
            wanted_params(first.config(), start, measured),
            next_error(start, measured),
            PARAM_COUNT as int,
        )
    } else {
        r
    }
}

/// A pair was updated, or has no samples and is as before.
pub open spec fn pair_done(
    before: PieController,
    after: PieController,
    s: Seq<CpuSample>,
    base: Option<[[u64; 5]; 4]>,
    n: int,
) -> bool {
    let (cpu, class) = (pair_cpu(n), pair_class(n));
    if pair_latency(s, n).sample_count > 0 {
        is_next_state(
            before.config(),
            class,
            started(before.state(cpu, class), base, class),
            mean_latency(pair_latency(s, n)),
            after.state(cpu, class),
        )
    } else {
        after.state(cpu, class) == before.state(cpu, class)
    }
}

/// Every pair with samples can be updated.
pub open spec fn round_fits(
    pie: PieController,
    s: Seq<CpuSample>,
    base: Option<[[u64; 5]; 4]>,
) -> bool {
    forall|n: int|
        0 <= n < s.len() * 4 && (#[trigger] pair_latency(s, n)).sample_count > 0
            ==> pie.can_update_from(
            started(pie.state(pair_cpu(n), pair_class(n)), base, pair_class(n)),
            pair_cpu(n),
            pair_class(n),
            mean_latency(pair_latency(s, n)),
        )
}

proof fn lemma_pair(n: int, cpus: int)
    requires
        0 <= n < cpus * 4,
        cpus <= u32::MAX,
    ensures
        pair_cpu(n) == n / 4 < cpus,
        pair_class(n) == n % 4,
        pair_cpu(n) * 4 + pair_class(n) == n,
{
}

/// One round of the PIE controller: every CPU and class with latency samples is
/// updated with its mean latency, on top of the base parameters of the class if there
/// are any. Returns the new parameters, in order.
pub fn update_pie(
    pie: &mut PieController,
    samples: &[CpuSample],
    base: &Option<[[u64; 5]; 4]>,
) -> (r: Vec<ParamWrite>)
    requires
        old(pie).wf(),
        bounds_ordered(old(pie).config().param_bounds),
        samples@.len() == old(pie).cpus(),
        samples@.len() * 4 <= u32::MAX,
        round_fits(*old(pie), samples@, *base),
    ensures
        final(pie).wf(),
        final(pie).cpus() == old(pie).cpus(),
        final(pie).config() == old(pie).config(),
        final(pie).debugger().enabled() == old(pie).debugger().enabled(),
        final(pie).debugger().threshold() == old(pie).debugger().threshold(),
        forall|n: int|
            0 <= n < samples@.len() * 4 ==> #[trigger] pair_done(
                *old(pie),
                *final(pie),
                samples@,
                *base,
                n,
            ),
        final(pie).debugger().records() == round_records(
            *old(pie),
            samples@,
            *base,
            samples@.len() as int * 4,
        ),
        r@ == writes(*final(pie), samples@, samples@.len() as int * 4),
{
    let ghost s = samples@;
    let total: usize = samples.len() * 4;
    let mut out: Vec<ParamWrite> = Vec::new();
    let mut n: usize = 0;
    assert(out@ =~= writes(*pie, s, 0));
    while n < total
        invariant
            n <= total == s.len() * 4 <= u32::MAX,
            s == samples@,
            pie.wf(),
            bounds_ordered(pie.config().param_bounds),
            pie.cpus() == old(pie).cpus() == s.len(),
            pie.config() == old(pie).config(),
            pie.debugger().enabled() == old(pie).debugger().enabled(),
            pie.debugger().threshold() == old(pie).debugger().threshold(),
            round_fits(*old(pie), s, *base),
            forall|m: int| 0 <= m < n ==> #[trigger] pair_done(*old(pie), *pie, s, *base, m),
            forall|m: int|
                n <= m < total ==> pie.state(#[trigger] pair_cpu(m), pair_class(m)) == old(pie).state(
                    pair_cpu(m),
                    pair_class(m),
                ),
            forall|m: int, i: usize|
                n <= m < total && i < PARAM_COUNT ==> stats_of(
                    pie.debugger().records(),
                    BoundKey { cpu: #[trigger] pair_cpu(m), class: pair_class(m), param_idx: i },
                ) == #[trigger] stats_of(
                    old(pie).debugger().records(),
                    BoundKey { cpu: pair_cpu(m), class: pair_class(m), param_idx: i },
                ),
            pie.debugger().records() == round_records(*old(pie), s, *base, n as int),
            out@ == writes(*pie, s, n as int),
        decreases total - n,
    {
        let cpu: u32 = (n / 4) as u32;
        let class: u32 = (n % 4) as u32;
        let m = samples[n / 4].latency[n % 4];
        let ghost before = *pie;
        assert(cpu == pair_cpu(n as int) && class == pair_class(n as int));
        assert(m == pair_latency(s, n as int));
        if m.sample_count > 0 {
            let avg: u64 = m.total_latency_ns / m.sample_count;
            proof {
                lemma_pair(n as int, s.len() as int);
                let start = started(old(pie).state(cpu, class), *base, class);
                assert(old(pie).can_update_from(start, cpu, class, avg));
                assert(pie.state(cpu, class) == old(pie).state(cpu, class));
                if pie.debugger().enabled() {
                    assert forall|i: int| 0 <= i < PARAM_COUNT implies #[trigger] stats_of(
                        pie.debugger().records(),
                        BoundKey { cpu, class, param_idx: i as usize },
                    ) == stats_of(
                        old(pie).debugger().records(),
                        BoundKey { cpu, class, param_idx: i as usize },
                    ) by {
                        assert(stats_of(
                            old(pie).debugger().records(),
                            BoundKey {
                                cpu: pair_cpu(n as int),
                                class: pair_class(n as int),
                                param_idx: i as usize,
                            },
                        ) == stats_of(
                            pie.debugger().records(),
                            BoundKey { cpu, class, param_idx: i as usize },
                        ));
                    }
                }
                assert(pie.can_update_from(start, cpu, class, avg));
            }
            let params = match base {
                Some(b) => pie.update_with_base_params(cpu, class, avg, b[class as usize]),
                None => pie.update(cpu, class, avg),
            };
            out.push(ParamWrite { cpu, class, params });
        }
        proof {
            lemma_round_step(*old(pie), before, *pie, s, *base, n as int);
        }
        n = n + 1;
    }
    out
}

proof fn lemma_round_step(
    first: PieController,
    before: PieController,
    after: PieController,
    s: Seq<CpuSample>,
    base: Option<[[u64; 5]; 4]>,
    n: int,
)
    requires
        0 <= n < s.len() * 4 <= u32::MAX,
        before.cpus() == s.len(),
        after.cpus() == s.len(),
        before.config() == after.config(),
        before.debugger().enabled() == after.debugger().enabled(),
        forall|c: u32, k: u32|
            before.has(c, k) && !(c == pair_cpu(n) && k == pair_class(n)) ==> #[trigger] after.state(
                c,
                k,
            ) == before.state(c, k),
        forall|m: int| 0 <= m < n ==> #[trigger] pair_done(first, before, s, base, m),
        forall|m: int|
            n <= m < s.len() * 4 ==> before.state(#[trigger] pair_cpu(m), pair_class(m)) == first.state(
                pair_cpu(m),
                pair_class(m),
            ),
        forall|m: int, i: usize|
            n <= m < s.len() * 4 && i < PARAM_COUNT ==> stats_of(
                before.debugger().records(),
                BoundKey { cpu: #[trigger] pair_cpu(m), class: pair_class(m), param_idx: i },
            ) == #[trigger] stats_of(
                first.debugger().records(),
                BoundKey { cpu: pair_cpu(m), class: pair_class(m), param_idx: i },
            ),
        after.debugger().records() == pair_records(before.debugger().records(), first, s, base, n),
        before.debugger().records() == round_records(first, s, base, n),
        pair_done(first, after, s, base, n),
    ensures
        forall|m: int| 0 <= m < n + 1 ==> #[trigger] pair_done(first, after, s, base, m),
        forall|m: int|
            n + 1 <= m < s.len() * 4 ==> after.state(#[trigger] pair_cpu(m), pair_class(m))
                == first.state(pair_cpu(m), pair_class(m)),
        forall|m: int, i: usize|
            n + 1 <= m < s.len() * 4 && i < PARAM_COUNT ==> stats_of(
                after.debugger().records(),
                BoundKey { cpu: #[trigger] pair_cpu(m), class: pair_class(m), param_idx: i },
            ) == #[trigger] stats_of(
                first.debugger().records(),
                BoundKey { cpu: pair_cpu(m), class: pair_class(m), param_idx: i },
            ),
        after.debugger().records() == round_records(first, s, base, n + 1),
        writes(after, s, n) == writes(before, s, n),
{
    let cpus = s.len() as int;
    lemma_pair(n, cpus);
    assert forall|m: int| 0 <= m < cpus * 4 && m != n implies after.state(
        #[trigger] pair_cpu(m),
        pair_class(m),
    ) == before.state(pair_cpu(m), pair_class(m)) by {
        lemma_pair(m, cpus);
        assert(before.has(pair_cpu(m), pair_class(m)));
    }
    assert forall|m: int| 0 <= m < n + 1 implies #[trigger] pair_done(first, after, s, base, m) by {
        if m < n {
            assert(pair_done(first, before, s, base, m));
            assert(after.state(pair_cpu(m), pair_class(m)) == before.state(pair_cpu(m), pair_class(m)));
        }
    }
    assert forall|m: int, i: usize| n + 1 <= m < cpus * 4 && i < PARAM_COUNT implies stats_of(
        after.debugger().records(),
        BoundKey { cpu: #[trigger] pair_cpu(m), class: pair_class(m), param_idx: i },
    ) == #[trigger] stats_of(
        first.debugger().records(),
        BoundKey { cpu: pair_cpu(m), class: pair_class(m), param_idx: i },
    ) by {
        lemma_pair(m, cpus);
        let other = BoundKey { cpu: pair_cpu(m), class: pair_class(m), param_idx: i };
        let start = started(first.state(pair_cpu(n), pair_class(n)), base, pair_class(n));
        let measured = mean_latency(pair_latency(s, n));
        clamps_leave_others(
            before.debugger().records(),
            first.config().param_bounds,
            pair_cpu(n),
            pair_class(n),
            wanted_params(first.config(), start, measured),
            next_error(start, measured),
            PARAM_COUNT as int,
            other,
        );
    }
    lemma_same_prefix(before, after, s, n);
}

proof fn lemma_same_prefix(
    before: PieController,
    after: PieController,
    s: Seq<CpuSample>,
    n: int,
)
    requires
        0 <= n <= s.len() * 4,
        forall|m: int|
            0 <= m < n ==> after.state(#[trigger] pair_cpu(m), pair_class(m)) == before.state(
                pair_cpu(m),
                pair_class(m),
            ),
    ensures
        writes(after, s, n) == writes(before, s, n),
    decreases n,
{
    if n > 0 {
        lemma_same_prefix(before, after, s, n - 1);
        assert(after.state(pair_cpu(n - 1), pair_class(n - 1)) == before.state(
            pair_cpu(n - 1),
            pair_class(n - 1),
        ));
    }
}

/// The totals of a class over two groups of CPUs are the sums of the totals of each, and one
/// CPU alone has its own.
pub proof fn totals_add_up_over_cpus(a: Seq<CpuSample>, b: Seq<CpuSample>, class: int, n: int)
    requires
        0 <= n <= b.len(),
    ensures
        latency_sum(a + b, class, a.len() + n) == latency_sum(a, class, a.len() as int)
            + latency_sum(b, class, n),
        sample_sum(a + b, class, a.len() + n) == sample_sum(a, class, a.len() as int) + sample_sum(
            b,
            class,
            n,
        ),
        cycle_sum(a + b, class, a.len() + n) == cycle_sum(a, class, a.len() as int) + cycle_sum(
            b,
            class,
            n,
        ),
        n == 1 ==> {
            &&& latency_sum(b, class, n) == b[0].latency[class].total_latency_ns
            &&& sample_sum(b, class, n) == b[0].latency[class].sample_count
            &&& cycle_sum(b, class, n) == b[0].load[class].cycles_spent
        },
    decreases n,
{
    reveal_with_fuel(latency_sum, 2);
    reveal_with_fuel(sample_sum, 2);
    reveal_with_fuel(cycle_sum, 2);
    if n == 0 {
        lemma_same_totals(a, a + b, class, a.len() as int);
    } else {
        totals_add_up_over_cpus(a, b, class, n - 1);
        assert((a + b)[a.len() + n - 1] == b[n - 1]);
    }
}

proof fn lemma_same_totals(s: Seq<CpuSample>, t: Seq<CpuSample>, class: int, n: int)
    requires
        n <= s.len(),
        n <= t.len(),
        forall|i: int| 0 <= i < n ==> s[i] == t[i],
    ensures
        latency_sum(s, class, n) == latency_sum(t, class, n),
        sample_sum(s, class, n) == sample_sum(t, class, n),
        cycle_sum(s, class, n) == cycle_sum(t, class, n),
    decreases n,
{
    if n > 0 {
        lemma_same_totals(s, t, class, n - 1);
    }
}

/// The latency of a class is the mean of its samples, rounded down, and its target where that
/// is nothing.
pub proof fn latencies_are_means(t: ClassTotals, target_ns: u64)
    ensures
        ({
            let (r, sum, n) = (
                effective_latency(t, target_ns) as int,
                t.latency_ns as int,
                t.samples as int,
            );
            &&& 0 < n <= sum ==> r * n <= sum < r * n + n
            &&& n == 0 || sum < n ==> r == target_ns
        }),
{
    let (sum, n) = (t.latency_ns as int, t.samples as int);
    if n > 0 {
        let q = sum / n;
        vstd::arithmetic::div_mod::lemma_fundamental_div_mod(sum, n);
        vstd::arithmetic::div_mod::lemma_mod_bound(sum, n);
        assert(n * q == q * n) by (nonlinear_arith);
        assert(q > 0 <==> sum >= n) by (nonlinear_arith)
            requires
                n > 0,
                sum >= 0,
                q * n <= sum < q * n + n,
        ;
    }
}

/// The load of a class is its cycles by the time that all CPUs had, and never above one.
pub proof fn loads_are_parts_of_the_time(t: ClassTotals, nr_cpus: usize, interval_ns: int)
    requires
        interval_ns <= u64::MAX,
    ensures
        ({
            let r = class_load(t, nr_cpus, interval_ns);
            let (busy, cpus) = (r.num as int, nr_cpus as int);
            &&& interval_ns <= 0 || cpus == 0 ==> busy == 0
            &&& interval_ns > 0 && cpus > 0 ==> {
                &&& r.den == interval_ns
                &&& busy <= interval_ns
                &&& busy * cpus <= t.cycles
                &&& busy < interval_ns ==> t.cycles < busy * cpus + cpus
            }
        }),
{
    let (cycles, cpus) = (t.cycles as int, nr_cpus as int);
    if interval_ns > 0 && cpus > 0 {
        let avg = cycles / cpus;
        vstd::arithmetic::div_mod::lemma_fundamental_div_mod(cycles, cpus);
        vstd::arithmetic::div_mod::lemma_mod_bound(cycles, cpus);
        assert(avg >= 0) by (nonlinear_arith)
            requires
                avg == cycles / cpus,
                cycles >= 0,
                cpus > 0,
        ;
        let busy = if avg < interval_ns {
            avg
        } else {
            interval_ns
        };
        assert(busy * cpus <= cycles) by (nonlinear_arith)
            requires
                0 <= busy <= avg,
                cpus * avg <= cycles,
                cpus > 0,
        ;
        assert(avg * cpus == cpus * avg) by (nonlinear_arith);
    }
}

/// The values of a CPU lie one behind the other: latencies from 160 on, 24 bytes for each
/// class, and loads right behind them in the same way.
pub proof fn values_lie_behind_each_other(class: u32)
    requires
        class < 4,
    ensures
        latency_offset(0) == 160,
        load_offset(0) == latency_offset(3) + 24,
        latency_offset((class + 1) as u32) == latency_offset(class) + 24,
        load_offset((class + 1) as u32) == load_offset(class) + 24,
{
}

/// A round updates each class on each CPU that has samples with the mean of its own latencies,
/// on top of its base parameters if there are any, and leaves the others as they were.
pub proof fn rounds_update_each_cpu_and_class(
    before: PieController,
    after: PieController,
    s: Seq<CpuSample>,
    base: Option<[[u64; 5]; 4]>,
    cpu: u32,
    class: u32,
    start: PieState,
)
    requires
        start == (PieState { current_params: start.current_params, ..before.state(cpu, class) }),
        base is None ==> start.current_params == before.state(cpu, class).current_params,
        base is Some ==> start.current_params == base->0[class as int],
        cpu < s.len(),
        class < 4,
        s.len() * 4 <= u32::MAX,
        forall|n: int|
            0 <= n < s.len() * 4 ==> #[trigger] pair_done(before, after, s, base, n),
    ensures
        ({
            let m = s[cpu as int].latency[class as int];
            &&& m.sample_count == 0 ==> after.state(cpu, class) == before.state(
                cpu,
                class,
            )
            &&& m.sample_count > 0 ==> exists|mean: u64| #[trigger]
                is_next_state(before.config(), class, start, mean, after.state(cpu, class)) && mean
                    * m.sample_count <= m.total_latency_ns < mean * m.sample_count + m.sample_count
        }),
{
    let n = cpu * 4 + class;
    assert(n / 4 == cpu && n % 4 == class);
    assert(pair_done(before, after, s, base, n));
    let m = s[cpu as int].latency[class as int];
    if m.sample_count > 0 {
        let (sum, k) = (m.total_latency_ns as int, m.sample_count as int);
        let q = sum / k;
        vstd::arithmetic::div_mod::lemma_fundamental_div_mod(sum, k);
        vstd::arithmetic::div_mod::lemma_mod_bound(sum, k);
        assert(k * q == q * k) by (nonlinear_arith);
        let mean = mean_latency(m);
        assert(mean == q);
        assert(start == started(before.state(cpu, class), base, class));
        assert(is_next_state(before.config(), class, start, mean, after.state(cpu, class)));
    }
}

/// The parameters that are written are those of the classes and CPUs with samples, all of
/// them and no others.
pub proof fn writes_are_those_with_samples(pie: PieController, s: Seq<CpuSample>, n: int, w: ParamWrite)
    requires
        0 <= n <= s.len() * 4,
        s.len() * 4 <= u32::MAX,
    ensures
        writes(pie, s, n).contains(w) <==> w.class < 4 && w.cpu * 4 + w.class < n
            && s[w.cpu as int].latency[w.class as int].sample_count > 0 && w.params == pie.state(
            w.cpu,
            w.class,
        ).current_params,
    decreases n,
{
    if n > 0 {
        writes_are_those_with_samples(pie, s, n - 1, w);
        lemma_pair(n - 1, s.len() as int);
        let (before, list) = (writes(pie, s, n - 1), writes(pie, s, n));
        if list.contains(w) {
            let i = choose|i: int| 0 <= i < list.len() && list[i] == w;
            if i < before.len() {
                assert(before[i] == w);
            }
        }
        if before.contains(w) {
            let i = choose|i: int| 0 <= i < before.len() && before[i] == w;
            assert(list[i] == w);
        }
        if w.class < 4 && w.cpu * 4 + w.class == n - 1 {
            assert((n - 1) / 4 == w.cpu && (n - 1) % 4 == w.class);
            if pair_latency(s, n - 1).sample_count > 0 {
                assert(list[list.len() - 1].cpu == w.cpu && list[list.len() - 1].class == w.class);
                assert(list.contains(list[list.len() - 1]));
            }
        }
    }
}

} // verus!
