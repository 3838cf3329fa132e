//! What is reported of the PIE controller.

use vstd::prelude::*;
use vstd::string::StringExecFns;

use crate::descent::bound_debug::{quotient, CLASS_NAMES};
use crate::descent::optimizer_pie::{PieController, PieState};
use crate::descent::rounds::{pair_class, pair_cpu};
use crate::text::{decimal, push_decimal, push_signed, signed};

verus! {

/// The PIE controller summed up over all CPUs and classes.
#[derive(Debug, Clone, Copy, PartialEq, Eq, Structural)]
pub struct PieSummary {
    /// Number of CPUs and classes.
    pub states: u64,
    /// Number of updates.
    pub updates: u64,
    /// Mean smoothed latency in microseconds.
    pub avg_latency_us: u64,
    /// Sum of the integrals, without their scale.
    pub integral: i64,
    /// Mean latency error in microseconds.
    pub latency_error_us: i64,
}

/// The state of pair number `n` of CPU and class.
pub open spec fn pair_state(pie: PieController, n: int) -> PieState {
    pie.state(pair_cpu(n), pair_class(n))
}

/// The sum of the smoothed latencies of the first `n` pairs.
pub open spec fn latency_total(pie: PieController, n: int) -> int
    decreases n,
{
    if n <= 0 {
        0
    } else {
        latency_total(pie, n - 1) + pair_state(pie, n - 1).current_latency_ns
    }
}

/// The sum of the latency errors of the first `n` pairs.
pub open spec fn error_total(pie: PieController, n: int) -> int
    decreases n,
{
    if n <= 0 {
        0
    } else {
        error_total(pie, n - 1) + (pair_state(pie, n - 1).current_latency_ns - pair_state(
            pie,
            n - 1,
        ).target_latency_ns)
    }
}

/// The sum of the integrals of the first `n` pairs.
pub open spec fn integral_total(pie: PieController, n: int) -> int
    decreases n,
{
    if n <= 0 {
        0
    } else {
        integral_total(pie, n - 1) + pair_state(pie, n - 1).integral_accum
    }
}

/// The number of updates of the first `n` pairs.
pub open spec fn update_total(pie: PieController, n: int) -> int
    decreases n,
{
    if n <= 0 {
        0
    } else {
        update_total(pie, n - 1) + pair_state(pie, n - 1).update_count
    }
}

proof fn lemma_updates_grow(pie: PieController, a: int, b: int)
    requires
        0 <= a <= b,
    ensures
        0 <= update_total(pie, a) <= update_total(pie, b),
    decreases b,
{
    if a < b {
        lemma_updates_grow(pie, a, b - 1);
    } else if a > 0 {
        lemma_updates_grow(pie, a - 1, b - 1);
    }
}

/// Sums the PIE controller up over `nr_cpus` CPUs.
pub fn summarize(pie: &PieController, nr_cpus: u32) -> (r: PieSummary)
    requires
        pie.wf(),
        nr_cpus == pie.cpus(),
        nr_cpus * 4 <= u32::MAX,
        update_total(*pie, nr_cpus * 4) <= u64::MAX,
    ensures
        ({
            let n = nr_cpus * 4;
            &&& r.states == n
            &&& r.updates == update_total(*pie, n)
            &&& r.avg_latency_us == if n > 0 { latency_total(*pie, n) / n / 1000 } else { 0 }
            &&& r.integral == quotient(integral_total(*pie, n), 1024)
            &&& r.latency_error_us == if n > 0 {
                quotient(quotient(error_total(*pie, n), n), 1000)
            } else {
                0
            }
        }),
{
    let total: u32 = nr_cpus * 4;
    let mut latency: u128 = 0;
    let mut error: i128 = 0;
    let mut integral: i64 = 0;
    let mut updates: u64 = 0;
    let mut n: u32 = 0;
    while n < total
        invariant
            n <= total == nr_cpus * 4 <= u32::MAX,
            pie.wf(),
            nr_cpus == pie.cpus(),
            update_total(*pie, total as int) <= u64::MAX,
            latency == latency_total(*pie, n as int),
            latency <= n * u64::MAX,
            error == error_total(*pie, n as int),
            -(n * u64::MAX) <= error <= n * u64::MAX,
            integral == integral_total(*pie, n as int),
            -(n * 1_000_000) <= integral <= n * 1_000_000,
            updates == update_total(*pie, n as int),
        decreases total - n,
    {
        let cpu: u32 = n / 4;
        let class: u32 = n % 4;
        assert(pie.has(cpu, class));
        assert(cpu == pair_cpu(n as int) && class == pair_class(n as int));
        proof {
            lemma_updates_grow(*pie, n + 1, total as int);
            pie.lemma_integral_bounded(cpu, class);
            assert((n + 1) * u64::MAX == n * u64::MAX + u64::MAX);
            assert(n * u64::MAX <= u32::MAX * u64::MAX) by (nonlinear_arith)
                requires
                    n <= u32::MAX,
            ;
        }
        if let Some(state) = pie.get_state(cpu, class) {
            latency = latency + state.current_latency_ns as u128;
            error = error + (state.current_latency_ns as i128 - state.target_latency_ns as i128);
            integral = integral + state.integral_accum;
            updates = updates + state.update_count;
        }
        n = n + 1;
    }
    let (avg_latency, avg_error): (u128, i128) = if total > 0 {
        (latency / total as u128, error / total as i128)
    } else {
        (0, 0)
    };
    proof {
        if total > 0 {
            let t = total as int;
            let l = latency as int;
            let e = if error >= 0 { error as int } else { -error };
            assert(0 <= l / t <= u64::MAX) by (nonlinear_arith)
                requires
                    0 <= l <= t * u64::MAX,
                    t > 0,
            ;
            assert(0 <= e / t <= u64::MAX) by (nonlinear_arith)
                requires
                    0 <= e <= t * u64::MAX,
                    t > 0,
            ;
        }
    }
    let avg_error_us: i128 = avg_error / 1000;
    PieSummary {
        states: total as u64,
        updates,
        avg_latency_us: (avg_latency / 1000) as u64,
        integral: integral / 1024,
        latency_error_us: avg_error_us as i64,
    }
}

/// The lines on one class of a CPU.
pub open spec fn class_text(s: PieState, class: int) -> Seq<char> {
    "  Class "@ + decimal(class as nat) + " ("@ + CLASS_NAMES@[class]@ + "): target="@ + decimal(
        (s.target_latency_ns / 1000) as nat,
    ) + "µs current="@ + decimal((s.current_latency_ns / 1000) as nat) + "µs error="@ + signed(
        quotient(s.current_latency_ns - s.target_latency_ns, 1000),
    ) + "µs integral="@ + signed(quotient(s.integral_accum as int, 1024)) + " updates="@ + decimal(
        s.update_count as nat,
    ) + "\n    Params: lw="@ + decimal(s.current_params[0] as nat) + " slice="@ + decimal(
        s.current_params[1] as nat,
    ) + " scale="@ + decimal(s.current_params[2] as nat) + " preempt="@ + decimal(
        s.current_params[3] as nat,
    ) + " migrate="@ + decimal(s.current_params[4] as nat) + "\n"@
}

/// The lines on the first `n` classes of a CPU.
pub open spec fn classes_text(pie: PieController, cpu: u32, n: int) -> Seq<char>
    decreases n,
{
    if n <= 0 {
        Seq::empty()
    } else {
        classes_text(pie, cpu, n - 1) + class_text(pie.state(cpu, (n - 1) as u32), n - 1)
    }
}

/// The lines on the first `n` CPUs.
pub open spec fn cpus_text(pie: PieController, n: int) -> Seq<char>
    decreases n,
{
    if n <= 0 {
        Seq::empty()
    } else {
        cpus_text(pie, n - 1) + "\nCPU "@ + decimal((n - 1) as nat) + ":\n"@ + classes_text(
            pie,
            (n - 1) as u32,
            4,
        )
    }
}

fn class_lines(s: &PieState, class: usize) -> (r: String)
    requires
        class < 4,
    ensures
        r@ == class_text(*s, class as int),
{
    let error_us: i128 = (s.current_latency_ns as i128 - s.target_latency_ns as i128) / 1000;
    let mut out: String = "  Class ".to_owned();
    push_decimal(&mut out, class as u64);
    out.append(" (");
    out.append(CLASS_NAMES[class]);
    out.append("): target=");
    push_decimal(&mut out, s.target_latency_ns / 1000);
    out.append("µs current=");
    push_decimal(&mut out, s.current_latency_ns / 1000);
    out.append("µs error=");
    push_signed(&mut out, error_us as i64);
    out.append("µs integral=");
    push_signed(&mut out, s.integral_accum / 1024);
    out.append(" updates=");
    push_decimal(&mut out, s.update_count);
    out.append("\n    Params: lw=");
    push_decimal(&mut out, s.current_params[0]);
    out.append(" slice=");
    push_decimal(&mut out, s.current_params[1]);
    out.append(" scale=");
    push_decimal(&mut out, s.current_params[2]);
    out.append(" preempt=");
    push_decimal(&mut out, s.current_params[3]);
    out.append(" migrate=");
    push_decimal(&mut out, s.current_params[4]);
    out.append("\n");
    out
}

/// The number of CPUs that are shown.
pub open spec fn shown(nr_cpus: int) -> int {
    if nr_cpus < 4 {
        nr_cpus
    } else {
        4
    }
}

/// A report on the controller: the classes of the first four CPUs, and the number of
/// states and updates in all.
pub fn pie_debug_text(pie: &PieController, nr_cpus: u32) -> (r: String)
    requires
        pie.wf(),
        nr_cpus == pie.cpus(),
        nr_cpus * 4 <= u32::MAX,
        update_total(*pie, nr_cpus * 4) <= u64::MAX,
    ensures
        r@ == cpus_text(*pie, shown(nr_cpus as int)) + "\nGlobal: "@ + decimal((nr_cpus * 4) as nat)
            + " states, "@ + decimal(update_total(*pie, nr_cpus * 4) as nat) + " updates\n"@,
{
    let mut out: String = String::new();
    let limit: u32 = if nr_cpus < 4 { nr_cpus } else { 4 };
    let mut cpu: u32 = 0;
    assert(out@ =~= cpus_text(*pie, 0));
    while cpu < limit
        invariant
            cpu <= limit <= nr_cpus,
            pie.wf(),
            nr_cpus == pie.cpus(),
            out@ == cpus_text(*pie, cpu as int),
        decreases limit - cpu,
    {
        out.append("\nCPU ");
        push_decimal(&mut out, cpu as u64);
        out.append(":\n");
        let ghost start = out@;
        let mut class: u32 = 0;
        assert(out@ =~= start + classes_text(*pie, cpu, 0));
        while class < 4
            invariant
                class <= 4,
                cpu < limit <= nr_cpus,
                pie.wf(),
                nr_cpus == pie.cpus(),
                out@ == start + classes_text(*pie, cpu, class as int),
            decreases 4 - class,
        {
            assert(pie.has(cpu, class));
            if let Some(state) = pie.get_state(cpu, class) {
                let ghost before = out@;
                out.append(class_lines(state, class as usize).as_str());
                assert(out@ =~= start + classes_text(*pie, cpu, class + 1));
            }
            class = class + 1;
        }
        assert(out@ =~= cpus_text(*pie, cpu + 1));
        cpu = cpu + 1;
    }
    let summary = summarize(pie, nr_cpus);
    out.append("\nGlobal: ");
    push_decimal(&mut out, summary.states);
    out.append(" states, ");
    push_decimal(&mut out, summary.updates);
    out.append(" updates\n");
    out
}

/// Where all pairs agree, each total is the number of pairs times what they agree on; an
/// error is what the latency lies above its target.
pub proof fn totals_multiply_what_pairs_agree_on(
    pie: PieController,
    n: int,
    latency: int,
    target: int,
    integral: int,
    updates: int,
)
    requires
        0 <= n,
        forall|i: int|
            0 <= i < n ==> {
                let s = #[trigger] pair_state(pie, i);
                &&& s.current_latency_ns == latency
                &&& s.target_latency_ns == target
                &&& s.integral_accum == integral
                &&& s.update_count == updates
            },
    ensures
        latency_total(pie, n) == n * latency,
        error_total(pie, n) == n * (latency - target),
        integral_total(pie, n) == n * integral,
        update_total(pie, n) == n * updates,
    decreases n,
{
    if n > 0 {
        totals_multiply_what_pairs_agree_on(pie, n - 1, latency, target, integral, updates);
        let s = pair_state(pie, n - 1);
        assert((n - 1) * latency + latency == n * latency) by (nonlinear_arith);
        assert((n - 1) * (latency - target) + (latency - target) == n * (latency - target))
            by (nonlinear_arith);
        assert((n - 1) * integral + integral == n * integral) by (nonlinear_arith);
        assert((n - 1) * updates + updates == n * updates) by (nonlinear_arith);
    } else {
        assert(0 * latency == 0 && 0 * (latency - target) == 0 && 0 * integral == 0 && 0 * updates
            == 0);
    }
}

} // verus!
