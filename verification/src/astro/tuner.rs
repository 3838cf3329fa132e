//! Adaptive tuning: which mode the mix of dispatches calls for, and how the slices
//! approach those of the mode.

use vstd::prelude::*;
use vstd::string::StringExecFns;

use crate::astro::stats::Metrics;
use crate::text::{decimal, push_decimal};

verus! {

/// What the slices are tuned for.
#[derive(Clone, Copy, Debug, PartialEq, Eq, Structural)]
pub enum AutoTuneMode {
    Balanced,
    Latency,
    Throughput,
}

impl AutoTuneMode {
    /// The number of a mode.
    pub fn as_u64(self) -> (r: u64)
        ensures
            r == match self {
                AutoTuneMode::Balanced => 0u64,
                AutoTuneMode::Latency => 1u64,
                AutoTuneMode::Throughput => 2u64,
            },
    {
        match self {
            AutoTuneMode::Balanced => 0,
            AutoTuneMode::Latency => 1,
            AutoTuneMode::Throughput => 2,
        }
    }

    /// The name of a mode.
    pub fn as_str(self) -> (r: &'static str)
        ensures
            r@ == match self {
                AutoTuneMode::Balanced => "balanced"@,
                AutoTuneMode::Latency => "latency"@,
                AutoTuneMode::Throughput => "throughput"@,
            },
    {
        match self {
            AutoTuneMode::Balanced => "balanced",
            AutoTuneMode::Latency => "latency",
            AutoTuneMode::Throughput => "throughput",
        }
    }
}

/// Slices in microseconds.
#[derive(Clone, Copy, Debug, PartialEq, Eq, Structural)]
pub struct RuntimeTunables {
    pub interactive_slice_us: u64,
    pub normal_slice_us: u64,
    pub compute_slice_us: u64,
    pub background_slice_us: u64,
}

/// The slices of a mode.
pub open spec fn target_of(mode: AutoTuneMode) -> RuntimeTunables {
    match mode {
        AutoTuneMode::Balanced => RuntimeTunables {
            interactive_slice_us: 150,
            normal_slice_us: 1000,
            compute_slice_us: 3000,
            background_slice_us: 500,
        },
        AutoTuneMode::Latency => RuntimeTunables {
            interactive_slice_us: 100,
            normal_slice_us: 800,
            compute_slice_us: 5000,
            background_slice_us: 300,
        },
        AutoTuneMode::Throughput => RuntimeTunables {
            interactive_slice_us: 200,
            normal_slice_us: 1200,
            compute_slice_us: 5000,
            background_slice_us: 300,
        },
    }
}

impl Default for RuntimeTunables {
    fn default() -> (r: Self)
        ensures
            r == target_of(AutoTuneMode::Balanced),
    {
        RuntimeTunables {
            interactive_slice_us: 150,
            normal_slice_us: 1000,
            compute_slice_us: 3000,
            background_slice_us: 500,
        }
    }
}

/// `value` after one step of at most `step` toward `target`.
pub open spec fn stepped(value: u64, target: u64, step: u64) -> int {
    if value < target {
        if value + step < target { value + step } else { target as int }
    } else {
        if value - step > target { value - step } else { target as int }
    }
}

/// Moves `value` by at most `step` toward `target`, and says whether it moved.
pub fn step_u64(value: &mut u64, target: u64, step: u64) -> (r: bool)
    requires
        *old(value) < target ==> *old(value) + step <= u64::MAX,
    ensures
        *final(value) == stepped(*old(value), target, step),
        r == (*old(value) != target),
{
    if *value == target {
        return false;
    }
    if *value < target {
        let next: u64 = *value + step;
        *value = if next < target { next } else { target };
    } else {
        let next: u64 = value.saturating_sub(step);
        *value = if next > target { next } else { target };
    }
    true
}

/// The slices after one step toward `target`.
pub open spec fn stepped_towards(t: RuntimeTunables, target: RuntimeTunables) -> RuntimeTunables {
    RuntimeTunables {
        interactive_slice_us: stepped(t.interactive_slice_us, target.interactive_slice_us, 25) as u64,
        normal_slice_us: stepped(t.normal_slice_us, target.normal_slice_us, 100) as u64,
        compute_slice_us: stepped(t.compute_slice_us, target.compute_slice_us, 250) as u64,
        background_slice_us: stepped(t.background_slice_us, target.background_slice_us, 50) as u64,
    }
}

impl RuntimeTunables {
    /// A step up from any of the slices fits its type.
    pub open spec fn can_step(self) -> bool {
        &&& self.interactive_slice_us + 25 <= u64::MAX
        &&& self.normal_slice_us + 100 <= u64::MAX
        &&& self.compute_slice_us + 250 <= u64::MAX
        &&& self.background_slice_us + 50 <= u64::MAX
    }

    /// The slices of a mode.
    pub fn target_for(mode: AutoTuneMode) -> (r: Self)
        ensures
            r == target_of(mode),
    {
        match mode {
            AutoTuneMode::Balanced => RuntimeTunables::default(),
            AutoTuneMode::Latency => RuntimeTunables {
                interactive_slice_us: 100,
                normal_slice_us: 800,
                compute_slice_us: 5000,
                background_slice_us: 300,
            },
            AutoTuneMode::Throughput => RuntimeTunables {
                interactive_slice_us: 200,
                normal_slice_us: 1200,
                compute_slice_us: 5000,
                background_slice_us: 300,
            },
        }
    }

    /// Moves every slice one step toward `target`, and says whether any moved.
    pub fn step_towards(&mut self, target: Self) -> (r: bool)
        requires
            old(self).can_step(),
        ensures
            *final(self) == stepped_towards(*old(self), target),
            r == (*old(self) != target),
    {
        let interactive = step_u64(&mut self.interactive_slice_us, target.interactive_slice_us, 25);
        let normal = step_u64(&mut self.normal_slice_us, target.normal_slice_us, 100);
        let compute = step_u64(&mut self.compute_slice_us, target.compute_slice_us, 250);
        let background = step_u64(&mut self.background_slice_us, target.background_slice_us, 50);
        interactive || normal || compute || background
    }
}

/// Slices in nanoseconds, as the kernel side takes them.
#[derive(Clone, Copy, Debug, PartialEq, Eq, Structural)]
pub struct KernelTunables {
    pub interactive_slice_ns: u64,
    pub normal_slice_ns: u64,
    pub compute_slice_ns: u64,
    pub background_slice_ns: u64,
}

impl RuntimeTunables {
    /// The slices in nanoseconds.
    pub fn to_kernel(&self) -> (r: KernelTunables)
        requires
            self.interactive_slice_us * 1000 <= u64::MAX,
            self.normal_slice_us * 1000 <= u64::MAX,
            self.compute_slice_us * 1000 <= u64::MAX,
            self.background_slice_us * 1000 <= u64::MAX,
        ensures
            r == (KernelTunables {
                interactive_slice_ns: (self.interactive_slice_us * 1000) as u64,
                normal_slice_ns: (self.normal_slice_us * 1000) as u64,
                compute_slice_ns: (self.compute_slice_us * 1000) as u64,
                background_slice_ns: (self.background_slice_us * 1000) as u64,
            }),
    {
        KernelTunables {
            interactive_slice_ns: self.interactive_slice_us * 1000,
            normal_slice_ns: self.normal_slice_us * 1000,
            compute_slice_ns: self.compute_slice_us * 1000,
            background_slice_ns: self.background_slice_us * 1000,
        }
    }
}

/// One line on a change of mode or slices.
pub fn change_line(mode: AutoTuneMode, tunables: &RuntimeTunables, generation: u64) -> (r: String)
    ensures
        r@ == "autotune="@ + (match mode {
            AutoTuneMode::Balanced => "balanced"@,
            AutoTuneMode::Latency => "latency"@,
            AutoTuneMode::Throughput => "throughput"@,
        }) + " gen="@ + decimal(generation as nat) + " int_slice="@ + decimal(
            tunables.interactive_slice_us as nat,
        ) + "us norm_slice="@ + decimal(tunables.normal_slice_us as nat) + "us comp_slice="@ + decimal(
            tunables.compute_slice_us as nat,
        ) + "us bg_slice="@ + decimal(tunables.background_slice_us as nat) + "us"@,
{
    let mut out: String = "autotune=".to_owned();
    out.append(mode.as_str());
    out.append(" gen=");
    push_decimal(&mut out, generation);
    out.append(" int_slice=");
    push_decimal(&mut out, tunables.interactive_slice_us);
    out.append("us norm_slice=");
    push_decimal(&mut out, tunables.normal_slice_us);
    out.append("us comp_slice=");
    push_decimal(&mut out, tunables.compute_slice_us);
    out.append("us bg_slice=");
    push_decimal(&mut out, tunables.background_slice_us);
    out.append("us");
    out
}

/// Number of consecutive readings that change the mode.
pub const MODE_STEPS: u8 = 3;

/// State of the tuner.
#[derive(Debug)]
pub struct AutoTuner {
    pub tunables: RuntimeTunables,
    pub mode: AutoTuneMode,
    pub pending_mode: AutoTuneMode,
    pub pending_steps: u8,
    pub generation: u64,
    pub prev_metrics: Metrics,
}

/// The mode that dispatches in an interval call for: latency if more than 30% of
/// them were interactive or boosted, or if there were preemptions for more than
/// 15%; else throughput if more than 25% of them were in the background; else
/// balanced. Too few dispatches leave the mode as it is.
pub open spec fn wanted_mode(mode: AutoTuneMode, delta: Metrics) -> AutoTuneMode {
    let total = delta.total_dispatches();
    if total < 3 {
        mode
    } else if (delta.interactive_dispatches + delta.waker_boost_dispatches) * 100 > 30 * total
        || delta.preempts * 100 > 15 * total {
        AutoTuneMode::Latency
    } else if delta.background_dispatches * 100 > 25 * total {
        AutoTuneMode::Throughput
    } else {
        AutoTuneMode::Balanced
    }
}

/// The mode after a reading that calls for `wanted`: it changes with the third
/// consecutive reading that calls for the same.
pub open spec fn next_mode(mode: AutoTuneMode, pending: AutoTuneMode, steps: u8, wanted: AutoTuneMode) -> AutoTuneMode {
    if wanted != mode && wanted == pending && steps + 1 >= MODE_STEPS {
        wanted
    } else {
        mode
    }
}

/// The number of consecutive readings after one that calls for `wanted`.
pub open spec fn next_steps(mode: AutoTuneMode, pending: AutoTuneMode, steps: u8, wanted: AutoTuneMode) -> u8 {
    if wanted == mode || next_mode(mode, pending, steps, wanted) != mode {
        0
    } else if wanted == pending {
        (steps + 1) as u8
    } else {
        1
    }
}

impl AutoTuner {
    /// A balanced tuner.
    pub fn new(initial_metrics: Metrics) -> (r: Self)
        ensures
            r.tunables == target_of(AutoTuneMode::Balanced),
            r.mode == AutoTuneMode::Balanced,
            r.pending_mode == AutoTuneMode::Balanced,
            r.pending_steps == 0,
            r.generation == 0,
            r.prev_metrics == initial_metrics,
    {
        AutoTuner {
            tunables: RuntimeTunables::default(),
            mode: AutoTuneMode::Balanced,
            pending_mode: AutoTuneMode::Balanced,
            pending_steps: 0,
            generation: 0,
            prev_metrics: initial_metrics,
        }
    }

    /// The mode that dispatches in an interval call for.
    pub fn evaluate_mode(&self, delta: &Metrics) -> (r: AutoTuneMode)
        requires
            delta.total_dispatches() <= u64::MAX,
        ensures
            r == wanted_mode(self.mode, *delta),
    {
        let total_disp: u64 = delta.interactive_dispatches + delta.waker_boost_dispatches
            + delta.normal_dispatches + delta.compute_dispatches + delta.background_dispatches;
        if total_disp < 3 {
            return self.mode;
        }
        let total: u128 = total_disp as u128;
        let fast: u128 = (delta.interactive_dispatches + delta.waker_boost_dispatches) as u128;
        if fast * 100 > 30 * total || delta.preempts as u128 * 100 > 15 * total {
            AutoTuneMode::Latency
        } else if delta.background_dispatches as u128 * 100 > 25 * total {
            AutoTuneMode::Throughput
        } else {
            AutoTuneMode::Balanced
        }
    }

    /// Takes in the counters of an interval. Where the mode or a slice changes, returns
    /// the mode, the slices and the number of the change.
    pub fn update(&mut self, current: &Metrics) -> (r: Option<(AutoTuneMode, RuntimeTunables, u64)>)
        requires
            old(self).tunables.can_step(),
            old(self).pending_steps < MODE_STEPS,
            old(self).generation < u64::MAX,
            current.since(old(self).prev_metrics).total_dispatches() <= u64::MAX,
        ensures
            ({
                let o = *old(self);
                let wanted = wanted_mode(o.mode, current.since(o.prev_metrics));
                let next = next_mode(o.mode, o.pending_mode, o.pending_steps, wanted);
                let changed = next != o.mode || o.tunables != target_of(next);
                &&& final(self).prev_metrics == *current
                &&& final(self).mode == next
                &&& final(self).pending_mode == wanted
                &&& final(self).pending_steps == next_steps(
                    o.mode,
                    o.pending_mode,
                    o.pending_steps,
                    wanted,
                )
                &&& final(self).pending_steps < MODE_STEPS
                &&& final(self).tunables == stepped_towards(o.tunables, target_of(next))
                &&& final(self).generation == if changed { o.generation + 1 } else { o.generation as int }
                &&& r == if changed {
                    Some((next, final(self).tunables, final(self).generation))
                } else {
                    None
                }
            }),
    {
        let delta = current.delta(&self.prev_metrics);
        self.prev_metrics = *current;

        let desired = self.evaluate_mode(&delta);
        let mut next = self.mode;
        if desired == self.mode {
            self.pending_mode = self.mode;
            self.pending_steps = 0;
        } else {
            if desired == self.pending_mode {
                self.pending_steps = self.pending_steps + 1;
            } else {
                self.pending_mode = desired;
                self.pending_steps = 1;
            }
            if self.pending_steps >= MODE_STEPS {
                next = desired;
                self.pending_mode = desired;
                self.pending_steps = 0;
            }
        }

        let target = RuntimeTunables::target_for(next);
        let mode_changed = next != self.mode;
        let tunables_changed = self.tunables.step_towards(target);
        if !mode_changed && !tunables_changed {
            return None;
        }
        self.mode = next;
        self.generation = self.generation + 1;
        Some((self.mode, self.tunables, self.generation))
    }
}

/// The slices lie between the least and the largest of all modes.
pub open spec fn in_range(t: RuntimeTunables) -> bool {
    &&& 100 <= t.interactive_slice_us <= 200
    &&& 800 <= t.normal_slice_us <= 1200
    &&& 3000 <= t.compute_slice_us <= 5000
    &&& 300 <= t.background_slice_us <= 500
}

/// Tuning starts in range and never leaves it, whatever the modes.
pub proof fn tuning_stays_in_range(t: RuntimeTunables, mode: AutoTuneMode)
    requires
        in_range(t),
    ensures
        in_range(target_of(AutoTuneMode::Balanced)),
        in_range(stepped_towards(t, target_of(mode))),
        t.can_step(),
{
}

/// For latency, interactive and normal slices are shorter than balanced ones and compute
/// slices longer; for throughput, interactive and normal slices are longer and background
/// slices shorter.
pub proof fn modes_trade_slices()
    ensures
        ({
            let b = target_of(AutoTuneMode::Balanced);
            let l = target_of(AutoTuneMode::Latency);
            let t = target_of(AutoTuneMode::Throughput);
            &&& l.interactive_slice_us < b.interactive_slice_us < t.interactive_slice_us
            &&& l.normal_slice_us < b.normal_slice_us < t.normal_slice_us
            &&& l.compute_slice_us > b.compute_slice_us
            &&& t.background_slice_us < b.background_slice_us
        }),
{
}

/// How far the slices are from those of a mode, in steps.
pub open spec fn steps_left(t: RuntimeTunables, target: RuntimeTunables) -> int {
    distance(t.interactive_slice_us, target.interactive_slice_us) + distance(
        t.normal_slice_us,
        target.normal_slice_us,
    ) + distance(t.compute_slice_us, target.compute_slice_us) + distance(
        t.background_slice_us,
        target.background_slice_us,
    )
}

/// The distance of two numbers.
pub open spec fn distance(a: u64, b: u64) -> int {
    if a >= b {
        a - b
    } else {
        b - a
    }
}

/// Every step toward the slices of a mode brings them nearer, until they are
/// reached; then they stay.
pub proof fn tuning_approaches_its_target(t: RuntimeTunables, mode: AutoTuneMode)
    requires
        in_range(t),
    ensures
        t != target_of(mode) ==> steps_left(stepped_towards(t, target_of(mode)), target_of(mode))
            < steps_left(t, target_of(mode)),
        t == target_of(mode) ==> stepped_towards(t, target_of(mode)) == t,
{
}

/// A mode changes only with the third of three consecutive readings that call for
/// the same.
pub proof fn modes_change_after_three_readings(mode: AutoTuneMode, pending: AutoTuneMode, wanted: AutoTuneMode)
    requires
        wanted != mode,
        pending != wanted,
    ensures
        next_mode(mode, pending, 0, wanted) == mode,
        next_steps(mode, pending, 0, wanted) == 1,
        next_mode(mode, wanted, 1, wanted) == mode,
        next_steps(mode, wanted, 1, wanted) == 2,
        next_mode(mode, wanted, 2, wanted) == wanted,
        next_steps(mode, wanted, 2, wanted) == 0,
{
}

/// From three dispatches on, each of two causes alone is enough for latency: interactive and
/// boosted dispatches above 30% of all, or preemptions for more than 15% of them. Without
/// either, background dispatches above 25% call for throughput, and nothing calls for
/// anything but balanced slices otherwise. Below three dispatches the mode stays.
pub proof fn causes_decide_the_mode(mode: AutoTuneMode, d: Metrics)
    ensures
        ({
            let all = d.interactive_dispatches + d.waker_boost_dispatches + d.normal_dispatches
                + d.compute_dispatches + d.background_dispatches;
            let wanted = wanted_mode(mode, d);
            &&& all <= 2 ==> wanted == mode
            &&& all >= 3 && 20 * d.preempts > 3 * all ==> wanted == AutoTuneMode::Latency
            &&& all >= 3 && 10 * (d.interactive_dispatches + d.waker_boost_dispatches) > 3 * all
                ==> wanted == AutoTuneMode::Latency
            &&& all >= 3 && wanted == AutoTuneMode::Latency ==> 20 * d.preempts > 3 * all || 10 * (
            d.interactive_dispatches + d.waker_boost_dispatches) > 3 * all
            &&& all >= 3 && wanted != AutoTuneMode::Latency ==> (wanted == AutoTuneMode::Throughput
                <==> 4 * d.background_dispatches > all)
        }),
{
}

/// More preemptions in an otherwise equal interval never lead away from latency, and with
/// enough of them every interval calls for it.
pub proof fn preemptions_never_lead_away_from_latency(mode: AutoTuneMode, d: Metrics, more: u64)
    requires
        d.preempts <= more,
    ensures
        wanted_mode(mode, d) == AutoTuneMode::Latency ==> wanted_mode(
            mode,
            Metrics { preempts: more, ..d },
        ) == AutoTuneMode::Latency,
        d.total_dispatches() >= 3 && more >= d.total_dispatches() ==> wanted_mode(
            mode,
            Metrics { preempts: more, ..d },
        ) == AutoTuneMode::Latency,
{
}

/// The mode that an interval with enough dispatches calls for does not depend on the mode
/// before it.
pub proof fn enough_dispatches_decide_alone(mode: AutoTuneMode, other: AutoTuneMode, d: Metrics)
    requires
        d.total_dispatches() >= 3,
    ensures
        wanted_mode(mode, d) == wanted_mode(other, d),
{
}

/// A step never passes its target and never leads away from it, and moves by its full size
/// where the target lies farther away than that.
pub proof fn steps_close_in(value: u64, target: u64, step: u64)
    ensures
        value <= target ==> value <= stepped(value, target, step) <= target,
        value >= target ==> target <= stepped(value, target, step) <= value,
        target - value >= step ==> stepped(value, target, step) == value + step,
        value - target >= step ==> stepped(value, target, step) == value - step,
        -step < target - value < step ==> stepped(value, target, step) == target,
{
}

/// With each reading the interactive slice moves by at most 25 microseconds, the normal one
/// by at most 100, the compute one by at most 250 and the background one by at most 50.
pub proof fn slices_move_in_small_steps(t: RuntimeTunables, target: RuntimeTunables)
    requires
        t.can_step(),
    ensures
        ({
            let n = stepped_towards(t, target);
            &&& n.interactive_slice_us == stepped(
                t.interactive_slice_us,
                target.interactive_slice_us,
                25,
            )
            &&& distance(n.interactive_slice_us, t.interactive_slice_us) <= 25
            &&& distance(n.normal_slice_us, t.normal_slice_us) <= 100
            &&& distance(n.compute_slice_us, t.compute_slice_us) <= 250
            &&& distance(n.background_slice_us, t.background_slice_us) <= 50
            &&& distance(t.interactive_slice_us, target.interactive_slice_us) <= 25
                ==> n.interactive_slice_us == target.interactive_slice_us
            &&& distance(t.normal_slice_us, target.normal_slice_us) <= 100 ==> n.normal_slice_us
                == target.normal_slice_us
            &&& distance(t.compute_slice_us, target.compute_slice_us) <= 250 ==> n.compute_slice_us
                == target.compute_slice_us
            &&& distance(t.background_slice_us, target.background_slice_us) <= 50
                ==> n.background_slice_us == target.background_slice_us
        }),
{
}

/// A reading that calls for the current mode forgets what was pending, and a mode is never
/// taken that the reading did not call for.
pub proof fn calm_readings_forget_what_was_pending(
    mode: AutoTuneMode,
    pending: AutoTuneMode,
    steps: u8,
    wanted: AutoTuneMode,
)
    requires
        steps < 3,
    ensures
        wanted == mode ==> next_mode(mode, pending, steps, wanted) == mode && next_steps(
            mode,
            pending,
            steps,
            wanted,
        ) == 0,
        next_mode(mode, pending, steps, wanted) != mode ==> next_mode(mode, pending, steps, wanted)
            == wanted && pending == wanted && steps == 2,
        wanted != mode && wanted != pending ==> next_steps(mode, pending, steps, wanted) == 1,
{
}

/// The slices of the modes. Latency shortens and throughput lengthens interactive and normal
/// slices of the balanced mode; both give compute tasks 5 ms and background tasks 0.3 ms.
pub proof fn modes_have_their_slices(mode: AutoTuneMode)
    ensures
        ({
            let t = target_of(mode);
            &&& mode == AutoTuneMode::Balanced ==> t.interactive_slice_us == 150 && t.normal_slice_us
                == 1000 && t.compute_slice_us == 3000 && t.background_slice_us == 500
            &&& mode == AutoTuneMode::Latency ==> t.interactive_slice_us == 100 && t.normal_slice_us
                == 800
            &&& mode == AutoTuneMode::Throughput ==> t.interactive_slice_us == 200
                && t.normal_slice_us == 1200
            &&& mode != AutoTuneMode::Balanced ==> t.compute_slice_us == 5000
                && t.background_slice_us == 300
        }),
{
}

} // verus!
