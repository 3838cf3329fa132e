//! Load-based controller: each class has a preferred slice, a multiple of the
//! baseline, and leaves it according to the share of tasks that are in the class.

use vstd::prelude::*;

use crate::ratio::Ratio;

verus! {

/// Least slice in microseconds.
pub const MIN_SLICE_US: u64 = 100;

/// Largest slice in microseconds.
pub const MAX_SLICE_US: u64 = 16000;

/// Least preemption threshold.
pub const PREEMPT_THRESHOLD_MIN: u32 = 64;

/// Largest preemption threshold.
pub const PREEMPT_THRESHOLD_MAX: u32 = 256;

/// Latency of latency-critical tasks above which they struggle, in microseconds.
pub const LC_LATENCY_CRITICAL_US: u64 = 1000;

/// Latency of latency-critical tasks below which it is good, in microseconds.
pub const LC_LATENCY_GOOD_US: u64 = 500;

/// Largest number of latency-critical tasks under light load.
pub const LIGHT_LC_TASKS: u64 = 2;

/// Largest number of normal tasks under light load.
pub const LIGHT_NORMAL_TASKS: u64 = 20;

/// Load-based controller of slices and preemption.
#[derive(Debug, Clone, Copy)]
pub struct AdaptiveController {
    /// Multiples of the baseline that the classes prefer.
    pub lc_ratio: Ratio,
    pub normal_ratio: Ratio,
    pub hog_ratio: Ratio,
    /// Baseline slice.
    pub baseline_slice_us: u64,
    /// Preferred slices.
    pub lc_preferred_slice_us: u64,
    pub normal_preferred_slice_us: u64,
    pub hog_preferred_slice_us: u64,
    /// Smoothed latencies.
    pub lc_latency_ewma: u64,
    pub normal_latency_ewma: u64,
    pub hog_latency_ewma: u64,
    /// Current slices.
    pub current_lc_slice_us: u64,
    pub current_normal_slice_us: u64,
    pub current_hog_slice_us: u64,
    /// Current preemption threshold.
    pub current_preempt_threshold: u32,
    /// Whether the controller adapts anything.
    pub enabled: bool,
}

/// `baseline` times `ratio`, rounded down, as far as the type goes.
pub open spec fn scaled(baseline: u64, ratio: Ratio) -> u64 {
    let product = baseline * ratio.num / (ratio.den as int);
    if product > u64::MAX {
        u64::MAX
    } else {
        product as u64
    }
}

fn scale(baseline: u64, ratio: Ratio) -> (r: u64)
    requires
        ratio.valid(),
    ensures
        r == scaled(baseline, ratio),
{
    proof {
        crate::ratio::lemma_product_fits(baseline, ratio.num);
    }
    let product: u128 = baseline as u128 * ratio.num as u128 / ratio.den as u128;
    if product > u64::MAX as u128 {
        u64::MAX
    } else {
        product as u64
    }
}

/// `v` brought into the range of slices.
pub open spec fn slice_clamp(v: int) -> int {
    if v < MIN_SLICE_US {
        MIN_SLICE_US as int
    } else if v > MAX_SLICE_US {
        MAX_SLICE_US as int
    } else {
        v
    }
}

fn clamp_slice(v: u64) -> (r: u64)
    ensures
        r == slice_clamp(v as int),
{
    if v < MIN_SLICE_US {
        MIN_SLICE_US
    } else if v > MAX_SLICE_US {
        MAX_SLICE_US
    } else {
        v
    }
}


/// The next slice of a class that shares more finely under heavy load: it shrinks
/// by a tenth, down to half of the preferred slice; under light load it is the
/// preferred one.
pub open spec fn shrinking_slice(current: u64, preferred: u64, heavy: bool) -> int {
    let least = if preferred / 2 >= MIN_SLICE_US { preferred as int / 2 } else { MIN_SLICE_US as int };
    let shrunk = current as int * 9 / 10;
    slice_clamp(
        if heavy {
            if shrunk >= least { shrunk } else { least }
        } else {
            preferred as int
        },
    )
}

/// The next slice of the class of CPU hogs: it grows by a tenth under heavy load, up
/// to four times the preferred slice; under light load it shrinks by a twentieth,
/// down to the preferred one.
pub open spec fn growing_slice(current: u64, preferred: u64, heavy: bool) -> int {
    let most = if preferred * 4 <= MAX_SLICE_US { preferred as int * 4 } else { MAX_SLICE_US as int };
    let grown = current as int * 11 / 10;
    let decayed = current as int * 95 / 100;
    slice_clamp(
        if heavy {
            if grown <= most { grown } else { most }
        } else if current > preferred && decayed >= preferred {
            decayed
        } else {
            preferred as int
        },
    )
}

/// The next preemption threshold. Latency-critical tasks come first: easier
/// preemption if they struggle or are many; harder preemption while their latency
/// is good, more so under a heavy load of hogs.
pub open spec fn next_preempt(current: u32, lc_latency: u64, lc_heavy: bool, hog_heavy: bool) -> int {
    let lower = |step: int|
        if current - step >= PREEMPT_THRESHOLD_MIN { current - step } else { PREEMPT_THRESHOLD_MIN as int };
    let raise = |step: int|
        if current + step <= PREEMPT_THRESHOLD_MAX { current + step } else { PREEMPT_THRESHOLD_MAX as int };
    if lc_latency > LC_LATENCY_CRITICAL_US {
        lower(32)
    } else if lc_heavy {
        lower(16)
    } else if lc_latency < LC_LATENCY_GOOD_US {
        if hog_heavy {
            raise(16)
        } else {
            raise(8)
        }
    } else {
        current as int
    }
}

/// A light load: so few tasks that none of the classes is heavy, whatever their shares.
pub open spec fn light(lc: int, normal: int, hog: int) -> bool {
    lc <= LIGHT_LC_TASKS && normal <= LIGHT_NORMAL_TASKS && hog == 0
}

/// More than `percent` of all tasks are in a class.
pub open spec fn heavy(nr: int, total: int, percent: int) -> bool {
    nr * 100 > percent * total
}

fn is_heavy(nr: u64, total: u64, percent: u64) -> (r: bool)
    requires
        percent <= 100,
    ensures
        r == heavy(nr as int, total as int, percent as int),
{
    proof {
        assert(0 <= percent * total <= 100 * u64::MAX) by (nonlinear_arith)
            requires
                0 <= percent <= 100,
                0 <= total <= u64::MAX,
        ;
    }
    nr as u128 * 100 > percent as u128 * total as u128
}

impl AdaptiveController {
    /// A controller with all slices at the preferred ones.
    pub fn new(
        baseline_slice_us: u64,
        lc_ratio: Ratio,
        normal_ratio: Ratio,
        hog_ratio: Ratio,
        enabled: bool,
    ) -> (r: Self)
        requires
            lc_ratio.valid(),
            normal_ratio.valid(),
            hog_ratio.valid(),
        ensures
            r == (AdaptiveController {
                lc_ratio,
                normal_ratio,
                hog_ratio,
                baseline_slice_us,
                lc_preferred_slice_us: scaled(baseline_slice_us, lc_ratio),
                normal_preferred_slice_us: scaled(baseline_slice_us, normal_ratio),
                hog_preferred_slice_us: scaled(baseline_slice_us, hog_ratio),
                lc_latency_ewma: 0,
                normal_latency_ewma: 0,
                hog_latency_ewma: 0,
                current_lc_slice_us: scaled(baseline_slice_us, lc_ratio),
                current_normal_slice_us: scaled(baseline_slice_us, normal_ratio),
                current_hog_slice_us: scaled(baseline_slice_us, hog_ratio),
                current_preempt_threshold: 128,
                enabled,
            }),
    {
        let lc_preferred: u64 = scale(baseline_slice_us, lc_ratio);
        let normal_preferred: u64 = scale(baseline_slice_us, normal_ratio);
        let hog_preferred: u64 = scale(baseline_slice_us, hog_ratio);
        AdaptiveController {
            lc_ratio,
            normal_ratio,
            hog_ratio,
            baseline_slice_us,
            lc_preferred_slice_us: lc_preferred,
            normal_preferred_slice_us: normal_preferred,
            hog_preferred_slice_us: hog_preferred,
            lc_latency_ewma: 0,
            normal_latency_ewma: 0,
            hog_latency_ewma: 0,
            current_lc_slice_us: lc_preferred,
            current_normal_slice_us: normal_preferred,
            current_hog_slice_us: hog_preferred,
            current_preempt_threshold: 128,
            enabled,
        }
    }

    /// The smoothed latency of a class: 2 is latency-critical, 1 are hogs, and
    /// everything else normal tasks.
    pub open spec fn latency_of(self, class: u32) -> u64 {
        if class == 2 {
            self.lc_latency_ewma
        } else if class == 1 {
            self.hog_latency_ewma
        } else {
            self.normal_latency_ewma
        }
    }

    /// Smooths a latency of a class in, with a weight of one quarter.
    pub fn update_latency(&mut self, class: u32, latency_us: u64)
        requires
            old(self).latency_of(class) * 3 + latency_us <= u64::MAX,
        ensures
            ({
                let v = ((old(self).latency_of(class) * 3 + latency_us) / 4) as u64;
                *final(self) == if class == 2 {
                    AdaptiveController { lc_latency_ewma: v, ..*old(self) }
                } else if class == 1 {
                    AdaptiveController { hog_latency_ewma: v, ..*old(self) }
                } else {
                    AdaptiveController { normal_latency_ewma: v, ..*old(self) }
                }
            }),
    {
        match class {
            2 => {
                self.lc_latency_ewma = (self.lc_latency_ewma * 3 + latency_us) / 4;
            },
            1 => {
                self.hog_latency_ewma = (self.hog_latency_ewma * 3 + latency_us) / 4;
            },
            _ => {
                self.normal_latency_ewma = (self.normal_latency_ewma * 3 + latency_us) / 4;
            },
        }
    }

    /// The three slices and the preemption threshold.
    pub open spec fn values(self) -> (u64, u64, u64, u32) {
        (
            self.current_lc_slice_us,
            self.current_normal_slice_us,
            self.current_hog_slice_us,
            self.current_preempt_threshold,
        )
    }

    /// The controller after it adapted to the number of tasks in each class.
    pub open spec fn updated(self, lc: u64, normal: u64, hog: u64) -> AdaptiveController {
        let total = lc + normal + hog;
        let busy = !light(lc as int, normal as int, hog as int);
        let lc_heavy = busy && heavy(lc as int, total, 5);
        let normal_heavy = busy && heavy(normal as int, total, 50);
        let hog_heavy = busy && heavy(hog as int, total, 10);
        if !self.enabled || total == 0 {
            self
        } else {
            AdaptiveController {
                current_lc_slice_us: shrinking_slice(
                    self.current_lc_slice_us,
                    self.lc_preferred_slice_us,
                    lc_heavy,
                ) as u64,
                current_normal_slice_us: shrinking_slice(
                    self.current_normal_slice_us,
                    self.normal_preferred_slice_us,
                    normal_heavy,
                ) as u64,
                current_hog_slice_us: growing_slice(
                    self.current_hog_slice_us,
                    self.hog_preferred_slice_us,
                    hog_heavy,
                ) as u64,
                current_preempt_threshold: next_preempt(
                    self.current_preempt_threshold,
                    self.lc_latency_ewma,
                    lc_heavy,
                    hog_heavy,
                ) as u32,
                ..self
            }
        }
    }

    /// Adapts slices and preemption to the number of tasks in each class, and returns
    /// them. The load of a class is heavy if too large a share of all tasks is in it, unless
    /// the load as a whole is light. Nothing changes while the controller is off, or without
    /// tasks.
    pub fn update(&mut self, nr_lc_tasks: u64, nr_normal_tasks: u64, nr_hog_tasks: u64) -> (r: (
        u64,
        u64,
        u64,
        u32,
    ))
        requires
            nr_lc_tasks + nr_normal_tasks + nr_hog_tasks <= u64::MAX,
        ensures
            r == final(self).values(),
            *final(self) == old(self).updated(nr_lc_tasks, nr_normal_tasks, nr_hog_tasks),
    {
        if !self.enabled {
            return self.get_current_values();
        }
        let nr_total: u64 = nr_lc_tasks + nr_normal_tasks + nr_hog_tasks;
        if nr_total == 0 {
            return self.get_current_values();
        }
        let busy = nr_lc_tasks > LIGHT_LC_TASKS || nr_normal_tasks > LIGHT_NORMAL_TASKS
            || nr_hog_tasks != 0;
        let lc_heavy = busy && is_heavy(nr_lc_tasks, nr_total, 5);
        let normal_heavy = busy && is_heavy(nr_normal_tasks, nr_total, 50);
        let hog_heavy = busy && is_heavy(nr_hog_tasks, nr_total, 10);

        let lc_slice: u64 = self.adjust_lc_slice(self.current_lc_slice_us, lc_heavy);
        let normal_slice: u64 = self.adjust_normal_slice(self.current_normal_slice_us, normal_heavy);
        let hog_slice: u64 = self.adjust_hog_slice(self.current_hog_slice_us, hog_heavy);
        let preempt_threshold: u32 = self.adjust_preemption_unified(lc_heavy, hog_heavy);

        self.current_lc_slice_us = lc_slice;
        self.current_normal_slice_us = normal_slice;
        self.current_hog_slice_us = hog_slice;
        self.current_preempt_threshold = preempt_threshold;
        (lc_slice, normal_slice, hog_slice, preempt_threshold)
    }

    /// The next slice of latency-critical tasks.
    pub fn adjust_lc_slice(&self, current: u64, is_heavy_load: bool) -> (r: u64)
        ensures
            r == shrinking_slice(current, self.lc_preferred_slice_us, is_heavy_load),
    {
        shrink(current, self.lc_preferred_slice_us, is_heavy_load)
    }

    /// The next slice of normal tasks.
    pub fn adjust_normal_slice(&self, current: u64, is_heavy_load: bool) -> (r: u64)
        ensures
            r == shrinking_slice(current, self.normal_preferred_slice_us, is_heavy_load),
    {
        shrink(current, self.normal_preferred_slice_us, is_heavy_load)
    }

    /// The next slice of hogs.
    pub fn adjust_hog_slice(&self, current: u64, is_heavy_load: bool) -> (r: u64)
        ensures
            r == growing_slice(current, self.hog_preferred_slice_us, is_heavy_load),
    {
        let preferred: u64 = self.hog_preferred_slice_us;
        let max_slice: u64 = if preferred <= MAX_SLICE_US / 4 { preferred * 4 } else { MAX_SLICE_US };
        let new_slice: u64 = if is_heavy_load {
            let grown: u128 = current as u128 * 11 / 10;
            if grown <= max_slice as u128 {
                grown as u64
            } else {
                max_slice
            }
        } else if current > preferred {
            let decayed: u64 = (current as u128 * 95 / 100) as u64;
            if decayed >= preferred {
                decayed
            } else {
                preferred
            }
        } else {
            preferred
        };
        clamp_slice(new_slice)
    }

    /// The next preemption threshold.
    pub fn adjust_preemption_unified(&self, lc_heavy: bool, hog_heavy: bool) -> (r: u32)
        ensures
            r == next_preempt(
                self.current_preempt_threshold,
                self.lc_latency_ewma,
                lc_heavy,
                hog_heavy,
            ),
    {
        let current: u32 = self.current_preempt_threshold;
        let lc_latency: u64 = self.lc_latency_ewma;
        if lc_latency > LC_LATENCY_CRITICAL_US {
            return current.saturating_sub(32).max(PREEMPT_THRESHOLD_MIN);
        }
        if lc_heavy {
            current.saturating_sub(16).max(PREEMPT_THRESHOLD_MIN)
        } else if hog_heavy && lc_latency < LC_LATENCY_GOOD_US {
            current.saturating_add(16).min(PREEMPT_THRESHOLD_MAX)
        } else if lc_latency < LC_LATENCY_GOOD_US {
            current.saturating_add(8).min(PREEMPT_THRESHOLD_MAX)
        } else {
            current
        }
    }

    /// The three slices and the preemption threshold.
    pub fn get_current_values(&self) -> (r: (u64, u64, u64, u32))
        ensures
            r == self.values(),
    {
        (
            self.current_lc_slice_us,
            self.current_normal_slice_us,
            self.current_hog_slice_us,
            self.current_preempt_threshold,
        )
    }

    /// Whether the controller adapts anything.
    pub fn is_enabled(&self) -> (r: bool)
        ensures
            r == self.enabled,
    {
        self.enabled
    }

    /// The three slices.
    pub fn get_current_slices(&self) -> (r: (u64, u64, u64))
        ensures
            r == (
                self.current_lc_slice_us,
                self.current_normal_slice_us,
                self.current_hog_slice_us,
            ),
    {
        (self.current_lc_slice_us, self.current_normal_slice_us, self.current_hog_slice_us)
    }

    /// Turns the controller on or off.
    pub fn set_enabled(&mut self, enabled: bool)
        ensures
            *final(self) == (AdaptiveController { enabled, ..*old(self) }),
    {
        self.enabled = enabled;
    }

    /// The shares of tasks above which the load of each class is heavy.
    pub fn get_thresholds(&self) -> (r: (Ratio, Ratio, Ratio))
        ensures
            r == (
                Ratio { num: 5, den: 100 },
                Ratio { num: 50, den: 100 },
                Ratio { num: 10, den: 100 },
            ),
    {
        (Ratio { num: 5, den: 100 }, Ratio { num: 50, den: 100 }, Ratio { num: 10, den: 100 })
    }
}

fn shrink(current: u64, preferred: u64, is_heavy_load: bool) -> (r: u64)
    ensures
        r == shrinking_slice(current, preferred, is_heavy_load),
{
    let half: u64 = preferred / 2;
    let min_slice: u64 = if half >= MIN_SLICE_US { half } else { MIN_SLICE_US };
    let new_slice: u64 = if is_heavy_load {
        let shrunk: u64 = (current as u128 * 9 / 10) as u64;
        if shrunk >= min_slice {
            shrunk
        } else {
            min_slice
        }
    } else {
        preferred
    };
    clamp_slice(new_slice)
}

/// After every update of an active controller the slices and the preemption
/// threshold are in range.
pub proof fn values_stay_in_range(
    current: u64,
    preferred: u64,
    threshold: u32,
    lc_latency: u64,
    own_heavy: bool,
    lc_heavy: bool,
    hog_heavy: bool,
)
    requires
        PREEMPT_THRESHOLD_MIN <= threshold <= PREEMPT_THRESHOLD_MAX,
    ensures
        MIN_SLICE_US <= shrinking_slice(current, preferred, own_heavy) <= MAX_SLICE_US,
        MIN_SLICE_US <= growing_slice(current, preferred, own_heavy) <= MAX_SLICE_US,
        PREEMPT_THRESHOLD_MIN <= next_preempt(threshold, lc_latency, lc_heavy, hog_heavy)
            <= PREEMPT_THRESHOLD_MAX,
{
}

/// Heavy load never lengthens the slice of latency-critical and normal tasks, nor
/// takes it below half of a preferred slice in range.
pub proof fn heavy_load_shares_more_finely(current: u64, preferred: u64)
    requires
        MIN_SLICE_US <= preferred <= MAX_SLICE_US,
        preferred as int / 2 <= current,
        MIN_SLICE_US <= current <= MAX_SLICE_US,
    ensures
        shrinking_slice(current, preferred, true) <= current,
        shrinking_slice(current, preferred, true) >= preferred as int / 2,
        shrinking_slice(current, preferred, false) == preferred,
{
}

/// The slice of hogs never exceeds four times the preferred one once it was within
/// that, and decays to it under light load without passing it.
pub proof fn hogs_stay_below_their_cap(current: u64, preferred: u64, is_heavy: bool)
    requires
        MIN_SLICE_US <= preferred <= MAX_SLICE_US,
        preferred <= current <= preferred * 4,
    ensures
        growing_slice(current, preferred, is_heavy) <= preferred * 4,
        growing_slice(current, preferred, false) >= preferred,
        growing_slice(current, preferred, false) <= current,
{
}

/// Heavy load takes a tenth off the slice of latency-critical and normal tasks, as long as
/// that leaves half of the preferred slice; light load brings the preferred slice back.
pub proof fn heavy_load_takes_a_tenth(current: u64, preferred: u64)
    requires
        200 <= preferred <= 16000,
        current <= 16000,
    ensures
        ({
            let r = shrinking_slice(current, preferred, true);
            &&& 2 * r >= preferred - 1
            &&& 2 * r > preferred ==> 10 * r <= 9 * current < 10 * r + 10
            &&& 9 * current < 10 * r + 10
            &&& shrinking_slice(current, preferred, false) == preferred
        }),
{
}

/// Heavy load adds a tenth to the slice of hogs, up to four times the preferred slice and to
/// 16 ms; light load takes a twentieth off, down to the preferred slice.
pub proof fn hog_slices_grow_and_decay(current: u64, preferred: u64)
    requires
        100 <= preferred <= 16000,
        preferred <= current <= 16000,
    ensures
        ({
            let (up, down) = (
                growing_slice(current, preferred, true),
                growing_slice(current, preferred, false),
            );
            &&& up <= 16000 && up <= 4 * preferred
            &&& 10 * up <= 11 * current
            &&& up < 16000 && up < 4 * preferred ==> 11 * current < 10 * up + 10
            &&& down >= preferred
            &&& 95 * current < 100 * down + 100
            &&& down > preferred ==> 100 * down <= 95 * current
        }),
{
}

/// The preemption threshold stays between 64 and 256. It falls by 32 while latency-critical
/// tasks wait longer than a millisecond, and by 16 while there are many of them. Otherwise it
/// rises while they wait less than half a millisecond, by 16 under a heavy load of hogs and
/// by 8 else, and rests in between.
pub proof fn preemption_serves_latency_critical_tasks(
    current: u32,
    latency: u64,
    lc_heavy: bool,
    hog_heavy: bool,
)
    requires
        64 <= current <= 256,
    ensures
        ({
            let r = next_preempt(current, latency, lc_heavy, hog_heavy);
            &&& 64 <= r <= 256
            &&& latency > 1000 ==> r == current - 32 || r == 64 && current < 96
            &&& latency <= 1000 && lc_heavy ==> r == current - 16 || r == 64 && current < 80
            &&& latency < 500 && !lc_heavy && hog_heavy ==> r == current + 16 || r == 256 && current
                > 240
            &&& latency < 500 && !lc_heavy && !hog_heavy ==> r == current + 8 || r == 256 && current
                > 248
            &&& 500 <= latency <= 1000 && !lc_heavy ==> r == current
        }),
{
}

/// Latency-critical tasks that wait longer never make preemption harder, whatever the load.
pub proof fn longer_waits_never_harden_preemption(
    current: u32,
    latency: u64,
    longer: u64,
    lc_heavy: bool,
    hog_heavy: bool,
)
    requires
        64 <= current <= 256,
        latency <= longer,
    ensures
        next_preempt(current, longer, lc_heavy, hog_heavy) <= next_preempt(
            current,
            latency,
            lc_heavy,
            hog_heavy,
        ),
{
}

/// The shares of the classes decide. With hogs, or with more than two latency-critical or
/// twenty normal tasks, latency-critical tasks are many above a twentieth of all tasks,
/// normal tasks above a half and hogs above a tenth. The slices of each class follow from
/// that alone, and a controller that is off or without tasks does nothing.
pub proof fn shares_of_tasks_decide(c: AdaptiveController, lc: u64, normal: u64, hog: u64)
    ensures
        ({
            let r = c.updated(lc, normal, hog);
            let total = lc + normal + hog;
            let busy = lc > 2 || normal > 20 || hog > 0;
            let (many_lc, many_normal, many_hogs) = (
                busy && 20 * lc > total,
                busy && 2 * normal > total,
                busy && 10 * hog > total,
            );
            &&& !c.enabled || total == 0 ==> r == c
            &&& c.enabled && total > 0 ==> {
                &&& r.current_lc_slice_us == shrinking_slice(
                    c.current_lc_slice_us,
                    c.lc_preferred_slice_us,
                    many_lc,
                )
                &&& r.current_normal_slice_us == shrinking_slice(
                    c.current_normal_slice_us,
                    c.normal_preferred_slice_us,
                    many_normal,
                )
                &&& r.current_hog_slice_us == growing_slice(
                    c.current_hog_slice_us,
                    c.hog_preferred_slice_us,
                    many_hogs,
                )
                &&& 64 <= c.current_preempt_threshold <= 256 ==> r.current_preempt_threshold
                    == next_preempt(
                    c.current_preempt_threshold,
                    c.lc_latency_ewma,
                    many_lc,
                    many_hogs,
                )
                &&& r.lc_latency_ewma == c.lc_latency_ewma && r.enabled
                &&& r.lc_preferred_slice_us == c.lc_preferred_slice_us
                &&& r.normal_preferred_slice_us == c.normal_preferred_slice_us
                &&& r.hog_preferred_slice_us == c.hog_preferred_slice_us
            }
        }),
{
}

/// A preferred slice is the baseline times its ratio, rounded down.
pub proof fn preferred_slices_are_multiples(baseline: u64, ratio: Ratio)
    requires
        ratio.valid(),
        baseline * ratio.num <= u64::MAX,
    ensures
        scaled(baseline, ratio) * ratio.den <= baseline * ratio.num,
        baseline * ratio.num < scaled(baseline, ratio) * ratio.den + ratio.den,
{
    let (x, d) = (baseline * ratio.num, ratio.den as int);
    vstd::arithmetic::div_mod::lemma_fundamental_div_mod(x, d);
    vstd::arithmetic::div_mod::lemma_mod_bound(x, d);
    assert(x / d <= x && x / d >= 0) by (nonlinear_arith)
        requires
            x >= 0,
            d >= 1,
    ;
    assert(d * (x / d) == (x / d) * d) by (nonlinear_arith);
}

} // verus!
