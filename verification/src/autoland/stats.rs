//! Counters of the scheduler and how they are reported.

use vstd::prelude::*;
use vstd::string::StringExecFns;

use crate::text::{decimal, push_decimal};

verus! {

/// Counters of the scheduler.
#[derive(Debug, Clone, Copy, PartialEq, Eq, Structural)]
pub struct Metrics {
    pub nr_local_dispatch: u64,
    pub nr_remote_dispatch: u64,
    pub nr_keep_running: u64,
    pub nr_lc_tasks: u64,
    pub nr_normal_tasks: u64,
    pub nr_hog_tasks: u64,
    pub nr_preemptions: u64,
    pub lc_slice_us: u64,
    pub normal_slice_us: u64,
    pub hog_slice_us: u64,
}

/// What the kernel side of the scheduler keeps.
#[derive(Debug, Clone, Copy, PartialEq, Eq, Structural)]
pub struct KernelCounters {
    pub nr_local_dispatch: u64,
    pub nr_remote_dispatch: u64,
    pub nr_keep_running: u64,
    pub nr_lc_tasks: u64,
    pub nr_normal_tasks: u64,
    pub nr_hog_tasks: u64,
    pub slice_ns_lc: u64,
    pub slice_ns_normal: u64,
    pub slice_ns_hog: u64,
}

impl Metrics {
    /// The counters of the kernel side, slices in microseconds; preemptions are not
    /// counted there.
    pub fn from_kernel(k: &KernelCounters) -> (r: Self)
        ensures
            r == (Metrics {
                nr_local_dispatch: k.nr_local_dispatch,
                nr_remote_dispatch: k.nr_remote_dispatch,
                nr_keep_running: k.nr_keep_running,
                nr_lc_tasks: k.nr_lc_tasks,
                nr_normal_tasks: k.nr_normal_tasks,
                nr_hog_tasks: k.nr_hog_tasks,
                nr_preemptions: 0,
                lc_slice_us: k.slice_ns_lc / 1000,
                normal_slice_us: k.slice_ns_normal / 1000,
                hog_slice_us: k.slice_ns_hog / 1000,
            }),
    {
        Metrics {
            nr_local_dispatch: k.nr_local_dispatch,
            nr_remote_dispatch: k.nr_remote_dispatch,
            nr_keep_running: k.nr_keep_running,
            nr_lc_tasks: k.nr_lc_tasks,
            nr_normal_tasks: k.nr_normal_tasks,
            nr_hog_tasks: k.nr_hog_tasks,
            nr_preemptions: 0,
            lc_slice_us: k.slice_ns_lc / 1000,
            normal_slice_us: k.slice_ns_normal / 1000,
            hog_slice_us: k.slice_ns_hog / 1000,
        }
    }

    /// No event counter is behind that of `rhs`.
    pub open spec fn follows(self, rhs: Metrics) -> bool {
        &&& self.nr_local_dispatch >= rhs.nr_local_dispatch
        &&& self.nr_remote_dispatch >= rhs.nr_remote_dispatch
        &&& self.nr_keep_running >= rhs.nr_keep_running
        &&& self.nr_preemptions >= rhs.nr_preemptions
    }

    /// What happened since `rhs`: events are counted from there, tasks and slices are
    /// the current ones.
    pub fn delta(&self, rhs: &Self) -> (r: Self)
        requires
            self.follows(*rhs),
        ensures
            r == (Metrics {
                nr_local_dispatch: (self.nr_local_dispatch - rhs.nr_local_dispatch) as u64,
                nr_remote_dispatch: (self.nr_remote_dispatch - rhs.nr_remote_dispatch) as u64,
                nr_keep_running: (self.nr_keep_running - rhs.nr_keep_running) as u64,
                nr_preemptions: (self.nr_preemptions - rhs.nr_preemptions) as u64,
                ..*self
            }),
    {
        Metrics {
            nr_local_dispatch: self.nr_local_dispatch - rhs.nr_local_dispatch,
            nr_remote_dispatch: self.nr_remote_dispatch - rhs.nr_remote_dispatch,
            nr_keep_running: self.nr_keep_running - rhs.nr_keep_running,
            nr_preemptions: self.nr_preemptions - rhs.nr_preemptions,
            nr_lc_tasks: self.nr_lc_tasks,
            nr_normal_tasks: self.nr_normal_tasks,
            nr_hog_tasks: self.nr_hog_tasks,
            lc_slice_us: self.lc_slice_us,
            normal_slice_us: self.normal_slice_us,
            hog_slice_us: self.hog_slice_us,
        }
    }

    /// Three lines that report the counters.
    pub fn format(&self) -> (r: String)
        ensures
            r@ == "[scx_autoland] dispatch: local="@ + decimal(self.nr_local_dispatch as nat)
                + " remote="@ + decimal(self.nr_remote_dispatch as nat) + " running="@ + decimal(
                self.nr_keep_running as nat,
            ) + " preempt="@ + decimal(self.nr_preemptions as nat)
                + "\n[scx_autoland] tasks: LC="@ + decimal(self.nr_lc_tasks as nat) + " normal="@
                + decimal(self.nr_normal_tasks as nat) + " hog="@ + decimal(
                self.nr_hog_tasks as nat,
            ) + "\n[scx_autoland] slices: LC="@ + decimal(self.lc_slice_us as nat)
                + "us normal="@ + decimal(self.normal_slice_us as nat) + "us hog="@ + decimal(
                self.hog_slice_us as nat,
            ) + "us\n"@,
    {
        let mut out: String = "[scx_autoland] dispatch: local=".to_owned();
        push_decimal(&mut out, self.nr_local_dispatch);
        out.append(" remote=");
        push_decimal(&mut out, self.nr_remote_dispatch);
        out.append(" running=");
        push_decimal(&mut out, self.nr_keep_running);
        out.append(" preempt=");
        push_decimal(&mut out, self.nr_preemptions);
        out.append("\n[scx_autoland] tasks: LC=");
        push_decimal(&mut out, self.nr_lc_tasks);
        out.append(" normal=");
        push_decimal(&mut out, self.nr_normal_tasks);
        out.append(" hog=");
        push_decimal(&mut out, self.nr_hog_tasks);
        out.append("\n[scx_autoland] slices: LC=");
        push_decimal(&mut out, self.lc_slice_us);
        out.append("us normal=");
        push_decimal(&mut out, self.normal_slice_us);
        out.append("us hog=");
        push_decimal(&mut out, self.hog_slice_us);
        out.append("us\n");
        out
    }
}

/// The whole percents that a part is of a whole.
pub open spec fn percent(part: u64, whole: int) -> nat {
    (part * 100 / whole) as nat
}

fn push_percent(out: &mut String, part: u64, whole: u64)
    requires
        whole > 0,
        part <= whole,
    ensures
        final(out)@ == old(out)@ + decimal(percent(part, whole as int)),
{
    let p: u128 = part as u128 * 100 / whole as u128;
    proof {
        assert(part * 100 / (whole as int) <= 100) by (nonlinear_arith)
            requires
                0 <= part <= whole,
                whole > 0,
        ;
    }
    push_decimal(out, p as u64);
}

/// One line on the slices of latency-critical tasks, normal tasks and hogs in
/// microseconds, the preemption threshold, and the number of tasks of each class.
pub fn controller_line(slices: (u64, u64, u64, u32), lc: u64, normal: u64, hog: u64) -> (r: String)
    requires
        lc + normal + hog <= u64::MAX,
    ensures
        lc + normal + hog == 0 ==> r@ == "PID Controller: LC="@ + decimal(slices.0 as nat)
            + "us Normal="@ + decimal(slices.1 as nat) + "us Hog="@ + decimal(slices.2 as nat)
            + "us Preempt="@ + decimal(slices.3 as nat) + " (no tasks)"@,
        lc + normal + hog > 0 ==> r@ == "PID Controller: LC="@ + decimal(slices.0 as nat)
            + "us("@ + decimal(percent(lc, lc + normal + hog)) + "%) Normal="@ + decimal(
            slices.1 as nat,
        ) + "us("@ + decimal(percent(normal, lc + normal + hog)) + "%) Hog="@ + decimal(
            slices.2 as nat,
        ) + "us("@ + decimal(percent(hog, lc + normal + hog)) + "%) Preempt="@ + decimal(
            slices.3 as nat,
        ) + " Tasks=["@ + decimal(lc as nat) + "/"@ + decimal(normal as nat) + "/"@ + decimal(
            hog as nat,
        ) + "]"@,
{
    let total: u64 = lc + normal + hog;
    let mut out: String = "PID Controller: LC=".to_owned();
    push_decimal(&mut out, slices.0);
    if total > 0 {
        out.append("us(");
        push_percent(&mut out, lc, total);
        out.append("%) Normal=");
        push_decimal(&mut out, slices.1);
        out.append("us(");
        push_percent(&mut out, normal, total);
        out.append("%) Hog=");
        push_decimal(&mut out, slices.2);
        out.append("us(");
        push_percent(&mut out, hog, total);
        out.append("%) Preempt=");
        push_decimal(&mut out, slices.3 as u64);
        out.append(" Tasks=[");
        push_decimal(&mut out, lc);
        out.append("/");
        push_decimal(&mut out, normal);
        out.append("/");
        push_decimal(&mut out, hog);
        out.append("]");
    } else {
        out.append("us Normal=");
        push_decimal(&mut out, slices.1);
        out.append("us Hog=");
        push_decimal(&mut out, slices.2);
        out.append("us Preempt=");
        push_decimal(&mut out, slices.3 as u64);
        out.append(" (no tasks)");
    }
    out
}

} // verus!
