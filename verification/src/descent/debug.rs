//! Debug output on the Thompson sampler.

use vstd::prelude::*;
use vstd::string::StringExecFns;

use crate::descent::bound_debug::CLASS_NAMES;
use crate::descent::optimizer_thompson::{
    baseline_of, estimate, sums, Pairs, ThompsonSampler, ValuePosterior,
};
use crate::descent::profiles::{DESCENT_CLASS_MAX, PARAM_COUNT};
use crate::text::{
    decimal, fixed_point, fixed_point_text, nearest_even, push_decimal, rounded_even,
};
use crate::timer::Timer;

verus! {

/// Format of debug output.
#[derive(Clone, Copy, Debug, PartialEq, Eq, Structural)]
pub enum DebugFormat {
    Text,
    Json,
}

/// Paces debug output.
#[derive(Clone, Copy, Debug, PartialEq, Eq, Structural)]
pub struct ThompsonDebugger {
    pub timer: Timer,
    pub format: DebugFormat,
}

/// The line on all estimates together.
pub open spec fn totals_line(s: Pairs) -> Seq<char> {
    let t = sums(s, s.len() as int);
    "  Total posteriors: "@ + decimal(t.0 as nat) + " | Total observations: "@ + decimal(t.1 as nat)
        + " | Avg uncertainty: "@ + fixed_point(
        nearest_even(
            (if t.0 > 0 {
                t.2 / t.0
            } else {
                0
            }),
            10,
        ) as nat,
        2,
    ) + "\n"@
}

/// The line on an estimate of the first CPU.
pub open spec fn estimate_line(class: int, p: int, v: ValuePosterior) -> Seq<char> {
    "  CPU 0 class "@ + CLASS_NAMES@[class]@ + " param "@ + decimal(p as nat) + ": mean="@ + decimal(
        nearest_even(v.mean as int, 1000) as nat,
    ) + " std="@ + decimal(nearest_even(v.std as int, 1000) as nat) + " n="@ + decimal(
        v.n_observations as nat,
    ) + " ["@ + decimal((v.min / 1000) as nat) + ", "@ + decimal((v.max / 1000) as nat) + "]\n"@
}

/// The line on the smoothed loss of a class on the first CPU.
pub open spec fn loss_line(class: int, baseline: u64) -> Seq<char> {
    "  CPU 0 class "@ + CLASS_NAMES@[class]@ + " baseline loss: "@ + fixed_point(
        nearest_even(baseline as int, 10) as nat,
        2,
    ) + "\n"@
}

/// The lines on the first `n` parameters of a class on the first CPU.
pub open spec fn estimate_lines(s: Pairs, class: int, n: int) -> Seq<char>
    decreases n,
{
    if n <= 0 {
        Seq::empty()
    } else {
        estimate_lines(s, class, n - 1) + match estimate(s, 0, class as u32, n - 1) {
            Some(v) => estimate_line(class, n - 1, v),
            None => Seq::empty(),
        }
    }
}

/// The lines on the first `n` classes on the first CPU.
pub open spec fn class_lines(s: Pairs, n: int) -> Seq<char>
    decreases n,
{
    if n <= 0 {
        Seq::empty()
    } else {
        class_lines(s, n - 1) + estimate_lines(s, n - 1, PARAM_COUNT as int) + match baseline_of(
            s,
            0,
            (n - 1) as u32,
        ) {
            Some(baseline) => loss_line(n - 1, baseline),
            None => Seq::empty(),
        }
    }
}

/// What is known at the time `at`, as a text: all estimates together, and those of the
/// first CPU.
pub open spec fn sampler_text(s: Pairs, at: Seq<char>) -> Seq<char> {
    "[scx_descent Thompson Sampling] State at "@ + at + "\n"@ + totals_line(s) + class_lines(
        s,
        DESCENT_CLASS_MAX as int,
    )
}

fn totals_text(stats: (usize, u64, u64), Ghost(s): Ghost<Pairs>) -> (r: String)
    requires
        stats.0 == sums(s, s.len() as int).0,
        stats.1 == sums(s, s.len() as int).1,
        stats.2 == if stats.0 > 0 {
            sums(s, s.len() as int).2 / stats.0 as int
        } else {
            0
        },
    ensures
        r@ == totals_line(s),
{
    let mut out: String = "  Total posteriors: ".to_owned();
    push_decimal(&mut out, stats.0 as u64);
    out.append(" | Total observations: ");
    push_decimal(&mut out, stats.1);
    out.append(" | Avg uncertainty: ");
    out.append(fixed_point_text(rounded_even(stats.2 as u128, 10), 2).as_str());
    out.append("\n");
    out
}

fn estimate_text(class: usize, p: usize, v: &ValuePosterior) -> (r: String)
    requires
        class < DESCENT_CLASS_MAX,
    ensures
        r@ == estimate_line(class as int, p as int, *v),
{
    let mut out: String = "  CPU 0 class ".to_owned();
    out.append(CLASS_NAMES[class]);
    out.append(" param ");
    push_decimal(&mut out, p as u64);
    out.append(": mean=");
    push_decimal(&mut out, rounded_even(v.mean as u128, 1000));
    out.append(" std=");
    push_decimal(&mut out, rounded_even(v.std as u128, 1000));
    out.append(" n=");
    push_decimal(&mut out, v.n_observations);
    out.append(" [");
    push_decimal(&mut out, v.min / 1000);
    out.append(", ");
    push_decimal(&mut out, v.max / 1000);
    out.append("]\n");
    out
}

fn loss_text(class: usize, baseline: u64) -> (r: String)
    requires
        class < DESCENT_CLASS_MAX,
    ensures
        r@ == loss_line(class as int, baseline),
{
    let mut out: String = "  CPU 0 class ".to_owned();
    out.append(CLASS_NAMES[class]);
    out.append(" baseline loss: ");
    out.append(fixed_point_text(rounded_even(baseline as u128, 10), 2).as_str());
    out.append("\n");
    out
}

impl ThompsonDebugger {
    /// Output as text every `interval_ms` milliseconds from `now_ns` on.
    pub fn new(interval_ms: u64, now_ns: u64) -> (r: Self)
        requires
            interval_ms * 1_000_000 <= u64::MAX,
        ensures
            r == (ThompsonDebugger {
                timer: Timer { last_ns: now_ns, interval_ns: (interval_ms * 1_000_000) as u64 },
                format: DebugFormat::Text,
            }),
    {
        ThompsonDebugger {
            timer: Timer::new(now_ns, interval_ms * 1_000_000),
            format: DebugFormat::Text,
        }
    }

    /// The output, if it is due, with the time `at` in it; the interval then starts anew.
    pub fn maybe_output(&mut self, thompson: &ThompsonSampler, at: &str, now_ns: u64) -> (r: Option<
        String,
    >)
        requires
            thompson.wf(),
            thompson.sums_fit(),
        ensures
            if old(self).timer.due(now_ns) {
                r matches Some(text) && text@ == output_of(old(self).format, thompson.pairs(), at@)
            } else {
                r is None
            },
            *final(self) == if old(self).timer.due(now_ns) {
                ThompsonDebugger {
                    timer: Timer { last_ns: now_ns, interval_ns: old(self).timer.interval_ns },
                    format: old(self).format,
                }
            } else {
                *old(self)
            },
    {
        if self.timer.is_due(now_ns) {
            self.timer.restart(now_ns);
            Some(self.output(thompson, at))
        } else {
            None
        }
    }

    /// The output in the format that is set, with the time `at` in it. There is none in JSON
    /// yet.
    pub fn output(&self, thompson: &ThompsonSampler, at: &str) -> (r: String)
        requires
            thompson.wf(),
            thompson.sums_fit(),
        ensures
            r@ == output_of(self.format, thompson.pairs(), at@),
    {
        match self.format {
            DebugFormat::Text => self.output_text(thompson, at),
            DebugFormat::Json => {
                let out = String::new();
                assert(out@ =~= Seq::<char>::empty());
                out
            },
        }
    }

    fn output_text(&self, thompson: &ThompsonSampler, at: &str) -> (r: String)
        requires
            thompson.wf(),
            thompson.sums_fit(),
        ensures
            r@ == sampler_text(thompson.pairs(), at@),
    {
        let ghost s = thompson.pairs();
        let mut out: String = "[scx_descent Thompson Sampling] State at ".to_owned();
        out.append(at);
        out.append("\n");
        let stats = thompson.get_stats();
        out.append(totals_text(stats, Ghost(s)).as_str());
        let ghost start = out@;
        let mut class: usize = 0;
        assert(out@ =~= start + class_lines(s, 0));
        while class < DESCENT_CLASS_MAX
            invariant
                class <= 4,
                s == thompson.pairs(),
                out@ == start + class_lines(s, class as int),
            decreases 4 - class,
        {
            let ghost before = out@;
            let mut p: usize = 0;
            assert(out@ =~= before + estimate_lines(s, class as int, 0));
            while p < PARAM_COUNT
                invariant
                    p <= 5,
                    class < 4,
                    s == thompson.pairs(),
                    out@ == before + estimate_lines(s, class as int, p as int),
                decreases 5 - p,
            {
                if let Some(v) = thompson.get_posterior(0, class as u32, p) {
                    out.append(estimate_text(class, p, &v).as_str());
                }
                p = p + 1;
                assert(out@ =~= before + estimate_lines(s, class as int, p as int));
            }
            if let Some(baseline) = thompson.get_baseline(0, class as u32) {
                out.append(loss_text(class, baseline).as_str());
            }
            class = class + 1;
            assert(out@ =~= start + class_lines(s, class as int));
        }
        out
    }
}

/// The output in a format, with the time `at` in it.
pub open spec fn output_of(format: DebugFormat, s: Pairs, at: Seq<char>) -> Seq<char> {
    match format {
        DebugFormat::Text => sampler_text(s, at),
        DebugFormat::Json => Seq::empty(),
    }
}

} // verus!
