//! The report on parameter bounds as a text.

use vstd::prelude::*;
use vstd::string::StringExecFns;

use crate::descent::bound_debug::{
    is_report, total, updates, ActivityRow, BoundDebugger, BoundReport, BoundStatus, BoundType,
    ConstrainedRow, CLASS_NAMES, PARAM_NAMES,
};
use crate::ratio::Ratio;
use crate::text::{
    decimal, decimal_text, fixed_point, fixed_point_text, left_aligned, nearest_even, push_decimal,
    push_left, push_right, right_aligned, rounded_even,
};

verus! {

/// A ratio in percent, with one digit behind the decimal point.
pub open spec fn percent(r: Ratio) -> Seq<char> {
    fixed_point(nearest_even(1000 * r.num as int, r.den as int) as nat, 1)
}

fn percent_text(r: &Ratio) -> (t: String)
    requires
        r.valid(),
        r.num <= r.den,
    ensures
        t@ == percent(*r),
{
    fixed_point_text(rounded_even(1000 * r.num as u128, r.den), 1)
}

/// A number behind its sign.
pub open spec fn with_sign(n: int) -> Seq<char> {
    if n < 0 {
        "-"@ + decimal((-n) as nat)
    } else {
        "+"@ + decimal(n as nat)
    }
}

fn with_sign_text(n: i64) -> (r: String)
    ensures
        r@ == with_sign(n as int),
{
    if n < 0 {
        let mut out: String = "-".to_owned();
        let size: u64 = if n == i64::MIN { 0x8000_0000_0000_0000 } else { (-n) as u64 };
        push_decimal(&mut out, size);
        out
    } else {
        let mut out: String = "+".to_owned();
        push_decimal(&mut out, n as u64);
        out
    }
}

/// The line on a constrained parameter.
pub open spec fn constrained_line(row: ConstrainedRow) -> Seq<char> {
    "  "@ + right_aligned(decimal(row.key.cpu as nat), 3) + "  "@ + left_aligned(
        CLASS_NAMES@[row.key.class as int]@,
        20,
    ) + " "@ + left_aligned(PARAM_NAMES@[row.key.param_idx as int]@, 20) + " "@ + left_aligned(
        match row.bound {
            BoundType::Min => "MIN"@,
            BoundType::Max => "MAX"@,
        },
        5,
    ) + "  "@ + right_aligned(decimal(row.hits as nat), 5) + "  "@ + right_aligned(
        percent(row.hit_percent),
        5,
    ) + "%  "@ + right_aligned(with_sign(row.error_avg_us as int), 7) + "µs\n"@
}

fn constrained_line_text(row: &ConstrainedRow) -> (r: String)
    requires
        row.printable(),
    ensures
        r@ == constrained_line(*row),
{
    let mut out: String = "  ".to_owned();
    push_right(&mut out, decimal_text(row.key.cpu as u64).as_str(), 3);
    out.append("  ");
    push_left(&mut out, CLASS_NAMES[row.key.class as usize], 20);
    out.append(" ");
    push_left(&mut out, PARAM_NAMES[row.key.param_idx], 20);
    out.append(" ");
    let bound: &str = match row.bound {
        BoundType::Min => "MIN",
        BoundType::Max => "MAX",
    };
    push_left(&mut out, bound, 5);
    out.append("  ");
    push_right(&mut out, decimal_text(row.hits).as_str(), 5);
    out.append("  ");
    push_right(&mut out, percent_text(&row.hit_percent).as_str(), 5);
    out.append("%  ");
    push_right(&mut out, with_sign_text(row.error_avg_us).as_str(), 7);
    out.append("µs\n");
    out
}

/// The lines on the constrained parameters.
pub open spec fn constrained_lines(rows: Seq<ConstrainedRow>) -> Seq<char>
    decreases rows.len(),
{
    if rows.len() == 0 {
        Seq::empty()
    } else {
        constrained_lines(rows.drop_last()) + constrained_line(rows.last())
    }
}

/// The line on the activity of a parameter.
pub open spec fn activity_line(row: ActivityRow) -> Seq<char> {
    "  "@ + left_aligned(CLASS_NAMES@[row.class as int]@, 20) + " "@ + left_aligned(
        PARAM_NAMES@[row.param_idx as int]@,
        20,
    ) + " "@ + right_aligned(decimal(row.updates as nat), 7) + "  "@ + right_aligned(
        percent(Ratio { num: row.min_hits, den: row.updates }),
        5,
    ) + "%  "@ + right_aligned(percent(Ratio { num: row.max_hits, den: row.updates }), 5) + "%  "@
        + right_aligned(
        percent(
            Ratio {
                num: (row.updates - row.min_hits - row.max_hits) as u64,
                den: row.updates,
            },
        ),
        5,
    ) + "%  "@ + (match row.status {
        BoundStatus::Constrained => "CONSTRAINED"@,
        BoundStatus::Tight => "TIGHT"@,
        BoundStatus::Free => "OK"@,
    }) + "\n"@
}

fn activity_line_text(row: &ActivityRow) -> (r: String)
    requires
        row.printable(),
    ensures
        r@ == activity_line(*row),
{
    let min = Ratio { num: row.min_hits, den: row.updates };
    let max = Ratio { num: row.max_hits, den: row.updates };
    let within = Ratio { num: row.updates - row.min_hits - row.max_hits, den: row.updates };
    let mut out: String = "  ".to_owned();
    push_left(&mut out, CLASS_NAMES[row.class as usize], 20);
    out.append(" ");
    push_left(&mut out, PARAM_NAMES[row.param_idx], 20);
    out.append(" ");
    push_right(&mut out, decimal_text(row.updates).as_str(), 7);
    out.append("  ");
    push_right(&mut out, percent_text(&min).as_str(), 5);
    out.append("%  ");
    push_right(&mut out, percent_text(&max).as_str(), 5);
    out.append("%  ");
    push_right(&mut out, percent_text(&within).as_str(), 5);
    out.append("%  ");
    out.append(row.status.name());
    out.append("\n");
    out
}

/// The lines on the activity of all parameters.
pub open spec fn activity_lines(rows: Seq<ActivityRow>) -> Seq<char>
    decreases rows.len(),
{
    if rows.len() == 0 {
        Seq::empty()
    } else {
        activity_lines(rows.drop_last()) + activity_line(rows.last())
    }
}

/// The first three lines of a report.
pub open spec fn head(r: BoundReport) -> Seq<char> {
    "\n=== Parameter Bounds Debug Report ===\nSummary: "@ + decimal(r.active_params as nat)
        + " parameters active, "@ + decimal(r.constrained_params as nat) + " constrained, "@
        + decimal(r.freely_operating as nat) + " freely operating\nOverall constraint rate: "@
        + percent(r.summary.overall_constraint_percentage) + "% (min: "@ + decimal(
        r.summary.total_min_hits as nat,
    ) + " hits, max: "@ + decimal(r.summary.total_max_hits as nat) + " hits, within: "@ + decimal(
        r.within as nat,
    ) + ")\n"@
}

/// What a report says of the constrained parameters.
pub open spec fn constrained_part(r: BoundReport) -> Seq<char> {
    if r.constrained@.len() > 0 {
        "\nConstrained Parameters (>80% at bounds):\n  CPU  Class                Param              Bound    Hits    %   LatencyErr\n"@
            + constrained_lines(r.constrained@)
    } else if r.active_params > 0 {
        "\n✓ No constrained parameters - all parameters operating within bounds!\n"@
    } else {
        "\n⚠ No parameter updates recorded - scheduler may not be receiving latency metrics\n"@
    }
}

/// A report as a text.
pub open spec fn report_text(r: BoundReport) -> Seq<char> {
    head(r) + constrained_part(r)
        + "\nPer-Class Parameter Activity:\n  Class                Param              Updates  Min%    Max%   Within%  Status\n"@
        + activity_lines(r.activity@)
}

impl BoundReport {
    fn head_text(&self) -> (r: String)
        requires
            self.printable(),
        ensures
            r@ == head(*self),
    {
        let mut out: String = "\n=== Parameter Bounds Debug Report ===\nSummary: ".to_owned();
        push_decimal(&mut out, self.active_params as u64);
        out.append(" parameters active, ");
        push_decimal(&mut out, self.constrained_params as u64);
        out.append(" constrained, ");
        push_decimal(&mut out, self.freely_operating as u64);
        out.append(" freely operating\nOverall constraint rate: ");
        out.append(percent_text(&self.summary.overall_constraint_percentage).as_str());
        out.append("% (min: ");
        push_decimal(&mut out, self.summary.total_min_hits);
        out.append(" hits, max: ");
        push_decimal(&mut out, self.summary.total_max_hits);
        out.append(" hits, within: ");
        push_decimal(&mut out, self.within);
        out.append(")\n");
        out
    }

    fn push_constrained(&self, out: &mut String)
        requires
            self.printable(),
        ensures
            final(out)@ == old(out)@ + constrained_part(*self),
    {
        let ghost before = out@;
        if self.constrained.len() > 0 {
            out.append(
                "\nConstrained Parameters (>80% at bounds):\n  CPU  Class                Param              Bound    Hits    %   LatencyErr\n",
            );
            let ghost start = out@;
            let mut i: usize = 0;
            assert(out@ =~= start + constrained_lines(self.constrained@.take(0)));
            while i < self.constrained.len()
                invariant
                    self.printable(),
                    i <= self.constrained.len(),
                    out@ == start + constrained_lines(self.constrained@.take(i as int)),
                decreases self.constrained.len() - i,
            {
                let ghost so_far = out@;
                let line = constrained_line_text(&self.constrained[i]);
                out.append(line.as_str());
                i = i + 1;
                proof {
                    let rows = self.constrained@.take(i as int);
                    assert(rows.drop_last() =~= self.constrained@.take(i - 1));
                    assert(out@ =~= start + constrained_lines(rows));
                }
            }
            assert(self.constrained@.take(i as int) =~= self.constrained@);
            assert(out@ =~= before + constrained_part(*self));
        } else if self.active_params > 0 {
            out.append("\n✓ No constrained parameters - all parameters operating within bounds!\n");
        } else {
            out.append(
                "\n⚠ No parameter updates recorded - scheduler may not be receiving latency metrics\n",
            );
        }
    }

    /// The report as a text.
    pub fn text(&self) -> (r: String)
        requires
            self.printable(),
        ensures
            r@ == report_text(*self),
    {
        let mut out: String = self.head_text();
        self.push_constrained(&mut out);
        out.append(
            "\nPer-Class Parameter Activity:\n  Class                Param              Updates  Min%    Max%   Within%  Status\n",
        );
        let ghost start = out@;
        let mut i: usize = 0;
        assert(out@ =~= start + activity_lines(self.activity@.take(0)));
        while i < self.activity.len()
            invariant
                self.printable(),
                i <= self.activity.len(),
                out@ == start + activity_lines(self.activity@.take(i as int)),
            decreases self.activity.len() - i,
        {
            let line = activity_line_text(&self.activity[i]);
            out.append(line.as_str());
            i = i + 1;
            proof {
                let rows = self.activity@.take(i as int);
                assert(rows.drop_last() =~= self.activity@.take(i - 1));
                assert(out@ =~= start + activity_lines(rows));
            }
        }
        assert(self.activity@.take(i as int) =~= self.activity@);
        out
    }
}

impl BoundDebugger {
    /// The report on the bounds for the CPUs below `nr_cpus`, as a text.
    pub fn format_report(&self, nr_cpus: usize) -> (r: String)
        requires
            self.wf(),
            nr_cpus <= u32::MAX,
            total(self.records(), updates()) <= u64::MAX,
        ensures
            exists|report: BoundReport| #[trigger]
                is_report(report, self.records(), self.threshold(), nr_cpus) && r@ == report_text(
                    report,
                ),
    {
        let report = self.report(nr_cpus);
        report.text()
    }
}

} // verus!
