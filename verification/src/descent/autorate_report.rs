//! What is reported of the autorate controller.

use vstd::prelude::*;
use vstd::string::StringExecFns;

use crate::descent::autorate::AutorateState;
use crate::descent::autorate_control::{AutorateController, AutorateStats};
use crate::descent::autorate_state::ClassAutorateState;
use crate::descent::bound_debug::CLASS_NAMES;
use crate::descent::profiles::DESCENT_CLASS_MAX;
use crate::descent::shares::ONE;
use crate::text::{
    decimal, fixed_point, fixed_point_text, nearest_even, push_decimal, rounded_even,
};

verus! {

/// The line on all classes together.
pub open spec fn global_line(s: AutorateStats) -> Seq<char> {
    "Global: "@ + decimal(s.total_classes as nat) + " classes, "@ + decimal(
        s.adjustments_up as nat,
    ) + " up, "@ + decimal(s.adjustments_down as nat) + " down, "@ + decimal(
        s.adjustments_blocked as nat,
    ) + " blocked, avg_rate="@ + fixed_point(
        nearest_even(s.avg_share as int, 10_000_000) as nat,
        2,
    ) + "\n"@
}

/// The line on a class: its state, its share, and its load as a fraction and in percent.
pub open spec fn class_line(class: int, s: ClassAutorateState) -> Seq<char> {
    let load = nearest_even(10_000 * s.load.num as int, s.load.den as int) as nat;
    "  Class "@ + decimal(class as nat) + " ("@ + CLASS_NAMES@[class]@ + "): state="@ + (match s.state {
        AutorateState::Idle => "IDLE"@,
        AutorateState::Exploring => "EXPLORING"@,
        AutorateState::BackingOff => "BACKING_OFF"@,
        AutorateState::Steady => "STEADY"@,
    }) + " rate="@ + fixed_point(nearest_even(s.current_share as int, 1_000_000) as nat, 3)
        + " load="@ + fixed_point(load, 4) + " ("@ + fixed_point(load, 2) + "%)\n"@
}

/// The line on the cycles and load samples of a class.
pub open spec fn load_line(class: int, load: (u64, u64)) -> Seq<char> {
    "    Class "@ + decimal(class as nat) + " ("@ + CLASS_NAMES@[class]@ + "): cycles="@ + decimal(
        load.0 as nat,
    ) + " samples="@ + decimal(load.1 as nat) + "\n"@
}

/// The lines on the first `n` classes.
pub open spec fn class_lines(states: Seq<ClassAutorateState>, n: int) -> Seq<char>
    decreases n,
{
    if n <= 0 {
        Seq::empty()
    } else {
        class_lines(states, n - 1) + class_line(n - 1, states[n - 1])
    }
}

/// The lines on the loads of the first `n` classes.
pub open spec fn load_lines(loads: Seq<(u64, u64)>, n: int) -> Seq<char>
    decreases n,
{
    if n <= 0 {
        Seq::empty()
    } else {
        load_lines(loads, n - 1) + load_line(n - 1, loads[n - 1])
    }
}

fn global_text(s: &AutorateStats) -> (r: String)
    requires
        s.avg_share <= ONE,
    ensures
        r@ == global_line(*s),
{
    let mut out: String = "Global: ".to_owned();
    push_decimal(&mut out, s.total_classes as u64);
    out.append(" classes, ");
    push_decimal(&mut out, s.adjustments_up);
    out.append(" up, ");
    push_decimal(&mut out, s.adjustments_down);
    out.append(" down, ");
    push_decimal(&mut out, s.adjustments_blocked);
    out.append(" blocked, avg_rate=");
    out.append(fixed_point_text(rounded_even(s.avg_share as u128, 10_000_000), 2).as_str());
    out.append("\n");
    out
}

fn class_text(class: usize, s: &ClassAutorateState) -> (r: String)
    requires
        class < DESCENT_CLASS_MAX,
        s.wf(),
        s.load.num <= s.load.den,
    ensures
        r@ == class_line(class as int, *s),
{
    let load: u64 = rounded_even(10_000 * s.load.num as u128, s.load.den);
    let mut out: String = "  Class ".to_owned();
    push_decimal(&mut out, class as u64);
    out.append(" (");
    out.append(CLASS_NAMES[class]);
    out.append("): state=");
    out.append(s.state.name());
    out.append(" rate=");
    out.append(fixed_point_text(rounded_even(s.current_share as u128, 1_000_000), 3).as_str());
    out.append(" load=");
    out.append(fixed_point_text(load, 4).as_str());
    out.append(" (");
    out.append(fixed_point_text(load, 2).as_str());
    out.append("%)\n");
    out
}

fn load_text(class: usize, load: (u64, u64)) -> (r: String)
    requires
        class < DESCENT_CLASS_MAX,
    ensures
        r@ == load_line(class as int, load),
{
    let mut out: String = "    Class ".to_owned();
    push_decimal(&mut out, class as u64);
    out.append(" (");
    out.append(CLASS_NAMES[class]);
    out.append("): cycles=");
    push_decimal(&mut out, load.0);
    out.append(" samples=");
    push_decimal(&mut out, load.1);
    out.append("\n");
    out
}

/// A report on the controller: its counters, its classes, and the cycles and load
/// samples of each class as they were read.
pub fn autorate_debug_text(c: &AutorateController, loads: &[(u64, u64); DESCENT_CLASS_MAX]) -> (r:
    String)
    requires
        c.wf(),
        forall|i: int|
            0 <= i < DESCENT_CLASS_MAX ==> (#[trigger] c.class_states@[i]).load.num
                <= c.class_states@[i].load.den,
    ensures
        r@ == global_line(c.board().report()) + class_lines(
            c.class_states@,
            DESCENT_CLASS_MAX as int,
        ) + "\n  Raw load metrics from BPF:\n"@ + load_lines(loads@, DESCENT_CLASS_MAX as int),
{
    let stats = c.get_stats();
    proof {
        assert(c.class_states[0].wf() && c.class_states[1].wf() && c.class_states[2].wf()
            && c.class_states[3].wf());
    }
    let mut out: String = global_text(&stats);
    let ghost start = out@;
    let mut i: usize = 0;
    assert(out@ =~= start + class_lines(c.class_states@, 0));
    while i < DESCENT_CLASS_MAX
        invariant
            i <= 4,
            c.wf(),
            forall|k: int|
                0 <= k < DESCENT_CLASS_MAX ==> (#[trigger] c.class_states@[k]).load.num
                    <= c.class_states@[k].load.den,
            out@ == start + class_lines(c.class_states@, i as int),
        decreases 4 - i,
    {
        assert(c.class_states[i as int].wf());
        assert(c.class_states@[i as int].load.num <= c.class_states@[i as int].load.den);
        let line = class_text(i, &c.class_states[i]);
        out.append(line.as_str());
        i = i + 1;
        assert(out@ =~= start + class_lines(c.class_states@, i as int));
    }
    out.append("\n  Raw load metrics from BPF:\n");
    let ghost middle = out@;
    let mut k: usize = 0;
    assert(out@ =~= middle + load_lines(loads@, 0));
    while k < DESCENT_CLASS_MAX
        invariant
            k <= 4,
            out@ == middle + load_lines(loads@, k as int),
        decreases 4 - k,
    {
        let line = load_text(k, loads[k]);
        out.append(line.as_str());
        k = k + 1;
        assert(out@ =~= middle + load_lines(loads@, k as int));
    }
    out
}

} // verus!
