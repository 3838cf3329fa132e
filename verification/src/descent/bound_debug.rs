//! Tracking of parameters that reach their bounds: how often each parameter of
//! each CPU and class was clamped, at which bound, and at what latency error.

use std::collections::HashMap;
use vstd::prelude::*;

use crate::descent::profiles::{ParamBounds, DESCENT_CLASS_MAX, PARAM_COUNT};
use crate::ratio::{part_of, Ratio};

verus! {

broadcast use vstd::std_specs::hash::group_hash_axioms;

/// Which bound was reached.
#[derive(Debug, Clone, Copy, PartialEq, Eq, Hash, Structural)]
pub enum BoundType {
    Min,
    Max,
}

/// Counts for one parameter of one class on one CPU.
#[derive(Debug, Clone, Copy, PartialEq, Eq, Structural)]
pub struct BoundStats {
    /// How often the parameter was held at its least value.
    pub min_hits: u64,
    /// How often the parameter was held at its largest value.
    pub max_hits: u64,
    /// How often a clamp left the parameter as it was.
    pub within_bounds: u64,
    /// How often the parameter was updated.
    pub total_updates: u64,
    /// Sum of the latency errors while at the least value.
    pub latency_error_at_min: i64,
    /// Sum of the latency errors while at the largest value.
    pub latency_error_at_max: i64,
    /// The value that was last held at a bound.
    pub last_clamped_value: u64,
    /// The bound at which it was held.
    pub last_bound_value: u64,
}

/// Counts before anything was recorded.
pub open spec fn no_stats() -> BoundStats {
    BoundStats {
        min_hits: 0,
        max_hits: 0,
        within_bounds: 0,
        total_updates: 0,
        latency_error_at_min: 0,
        latency_error_at_max: 0,
        last_clamped_value: 0,
        last_bound_value: 0,
    }
}

impl Default for BoundStats {
    fn default() -> (r: Self)
        ensures
            r == no_stats(),
    {
        BoundStats {
            min_hits: 0,
            max_hits: 0,
            within_bounds: 0,
            total_updates: 0,
            latency_error_at_min: 0,
            latency_error_at_max: 0,
            last_clamped_value: 0,
            last_bound_value: 0,
        }
    }
}

impl BoundStats {
    /// Every clamp that was counted is one of the updates.
    pub open spec fn consistent(self) -> bool {
        self.min_hits + self.max_hits + self.within_bounds <= self.total_updates
    }

    /// The share of updates at the least value.
    pub fn min_hit_percent(&self) -> (r: Ratio)
        ensures
            r == part_of(self.min_hits, self.total_updates),
            r.valid(),
    {
        Ratio::of(self.min_hits, self.total_updates)
    }

    /// The share of updates at the largest value.
    pub fn max_hit_percent(&self) -> (r: Ratio)
        ensures
            r == part_of(self.max_hits, self.total_updates),
            r.valid(),
    {
        Ratio::of(self.max_hits, self.total_updates)
    }

    /// The share of updates at either bound.
    pub fn total_bound_hit_percent(&self) -> (r: Ratio)
        requires
            self.min_hits + self.max_hits <= u64::MAX,
        ensures
            r == part_of((self.min_hits + self.max_hits) as u64, self.total_updates),
            r.valid(),
    {
        Ratio::of(self.min_hits + self.max_hits, self.total_updates)
    }

    /// More than four updates in five ended at a bound.
    pub open spec fn constrained(self) -> bool {
        self.total_updates > 0 && (self.min_hits + self.max_hits) * 100 > 80 * self.total_updates
    }

    /// Whether more than four updates in five ended at a bound.
    pub fn is_constrained(&self) -> (r: bool)
        requires
            self.min_hits + self.max_hits <= u64::MAX,
        ensures
            r == self.constrained(),
    {
        self.total_bound_hit_percent().exceeds_milli(800)
    }

    /// The mean latency error at the bounds, rounded toward zero.
    pub fn avg_latency_error_at_bounds(&self) -> (r: i64)
        requires
            self.min_hits + self.max_hits <= i64::MAX,
            i64::MIN <= self.latency_error_at_min + self.latency_error_at_max <= i64::MAX,
        ensures
            r == if self.min_hits + self.max_hits == 0 {
                0
            } else {
                quotient(
                    self.latency_error_at_min + self.latency_error_at_max,
                    self.min_hits + self.max_hits,
                )
            },
    {
        let total_bound_hits: u64 = self.min_hits + self.max_hits;
        if total_bound_hits == 0 {
            return 0;
        }
        (self.latency_error_at_min + self.latency_error_at_max) / total_bound_hits as i64
    }
}

/// The quotient of `a` by a positive `b`, rounded toward zero.
pub open spec fn quotient(a: int, b: int) -> int {
    if a >= 0 {
        a / b
    } else {
        -((-a) / b)
    }
}

/// Names of the parameters.
pub const PARAM_NAMES: [&'static str; PARAM_COUNT] = [
    "latency_weight",
    "base_slice_ns",
    "vruntime_scale",
    "preemption_priority",
    "migration_cost",
];

/// Names of the classes.
pub const CLASS_NAMES: [&'static str; DESCENT_CLASS_MAX] = [
    "LATENCY_CRITICAL",
    "NORMAL",
    "HOG",
    "BACKGROUND",
];

/// One parameter of one class on one CPU.
#[derive(Debug, Clone, Copy, PartialEq, Eq, Hash, Structural)]
pub struct BoundKey {
    pub cpu: u32,
    pub class: u32,
    pub param_idx: usize,
}

impl BoundKey {
    /// The class and the parameter exist.
    pub open spec fn exists_in_tables(self) -> bool {
        self.class < DESCENT_CLASS_MAX && self.param_idx < PARAM_COUNT
    }

    spec fn code(self) -> u64 {
        (self.cpu * 20 + self.class * 5 + self.param_idx) as u64
    }

    fn to_code(&self) -> (r: u64)
        requires
            self.exists_in_tables(),
        ensures
            r == self.code(),
    {
        self.cpu as u64 * 20 + self.class as u64 * 5 + self.param_idx as u64
    }
}

/// What is known of each parameter, in the order of first mention.
pub type Records = Seq<(BoundKey, BoundStats)>;

/// The counts recorded for a key.
pub open spec fn lookup(s: Records, key: BoundKey) -> Option<BoundStats>
    decreases s.len(),
{
    if s.len() == 0 {
        None
    } else if s[0].0 == key {
        Some(s[0].1)
    } else {
        lookup(s.skip(1), key)
    }
}

/// The counts recorded for a key, or fresh ones.
pub open spec fn stats_of(s: Records, key: BoundKey) -> BoundStats {
    match lookup(s, key) {
        Some(stats) => stats,
        None => no_stats(),
    }
}

/// The records after the counts of a key became `stats`.
pub open spec fn store(s: Records, key: BoundKey, stats: BoundStats) -> Records
    decreases s.len(),
{
    if s.len() == 0 {
        seq![(key, stats)]
    } else if s[0].0 == key {
        s.update(0, (key, stats))
    } else {
        seq![s[0]] + store(s.skip(1), key, stats)
    }
}

proof fn lemma_at(s: Records, key: BoundKey, i: int, stats: BoundStats)
    requires
        0 <= i < s.len(),
        s[i].0 == key,
        forall|j: int| 0 <= j < i ==> (#[trigger] s[j]).0 != key,
    ensures
        lookup(s, key) == Some(s[i].1),
        store(s, key, stats) == s.update(i, (key, stats)),
    decreases s.len(),
{
    if i > 0 {
        assert(s[0].0 != key);
        assert forall|j: int| 0 <= j < i - 1 implies (#[trigger] s.skip(1)[j]).0 != key by {
            assert(s.skip(1)[j] == s[j + 1]);
        }
        lemma_at(s.skip(1), key, i - 1, stats);
        assert(seq![s[0]] + s.skip(1).update(i - 1, (key, stats)) =~= s.update(i, (key, stats)));
    }
}

proof fn lemma_absent(s: Records, key: BoundKey, stats: BoundStats)
    requires
        forall|j: int| 0 <= j < s.len() ==> (#[trigger] s[j]).0 != key,
    ensures
        lookup(s, key) is None,
        store(s, key, stats) == s.push((key, stats)),
    decreases s.len(),
{
    if s.len() > 0 {
        assert(s[0].0 != key);
        assert forall|j: int| 0 <= j < s.skip(1).len() implies (#[trigger] s.skip(1)[j]).0 != key by {
            assert(s.skip(1)[j] == s[j + 1]);
        }
        lemma_absent(s.skip(1), key, stats);
        assert(seq![s[0]] + s.skip(1).push((key, stats)) =~= s.push((key, stats)));
    } else {
        assert(seq![(key, stats)] =~= s.push((key, stats)));
    }
}

/// What is recorded for a key is found again, and leaves the records of all other
/// keys as they are.
pub proof fn recorded_counts_are_found(s: Records, key: BoundKey, stats: BoundStats, other: BoundKey)
    ensures
        lookup(store(s, key, stats), key) == Some(stats),
        other != key ==> lookup(store(s, key, stats), other) == lookup(s, other),
    decreases s.len(),
{
    let r = store(s, key, stats);
    if s.len() == 0 {
        assert(r.skip(1) =~= s);
        assert(lookup(r.skip(1), other) is None);
    } else if s[0].0 == key {
        assert(r.skip(1) =~= s.skip(1));
        assert(lookup(r, other) == if other == key { Some(stats) } else { lookup(r.skip(1), other) });
    } else {
        recorded_counts_are_found(s.skip(1), key, stats, other);
        assert(r.skip(1) =~= store(s.skip(1), key, stats));
        assert(r[0] == s[0]);
        assert(lookup(r, key) == lookup(r.skip(1), key));
        if s[0].0 != other {
            assert(lookup(r, other) == lookup(r.skip(1), other));
            assert(lookup(s, other) == lookup(s.skip(1), other));
        }
    }
}

/// The counts of a key after one more update.
pub open spec fn after_update(stats: BoundStats) -> BoundStats {
    BoundStats { total_updates: (stats.total_updates + 1) as u64, ..stats }
}

/// The counts of a key after one more update in which `original` became
/// `clamped` between the bounds `lo` and `hi`.
pub open spec fn after_clamp(
    stats: BoundStats,
    lo: u64,
    hi: u64,
    original: u64,
    clamped: u64,
    error: i64,
) -> BoundStats {
    let s = after_update(stats);
    if clamped == lo && original < lo {
        BoundStats {
            min_hits: (s.min_hits + 1) as u64,
            latency_error_at_min: (s.latency_error_at_min + error) as i64,
            last_clamped_value: original,
            last_bound_value: lo,
            ..s
        }
    } else if clamped == hi && original > hi {
        BoundStats {
            max_hits: (s.max_hits + 1) as u64,
            latency_error_at_max: (s.latency_error_at_max + error) as i64,
            last_clamped_value: original,
            last_bound_value: hi,
            ..s
        }
    } else {
        BoundStats { within_bounds: (s.within_bounds + 1) as u64, ..s }
    }
}

/// One more update can be counted.
pub open spec fn room_for_update(stats: BoundStats) -> bool {
    stats.total_updates < u64::MAX
}

/// One more update in which `original` became `clamped` between the bounds `lo` and `hi`
/// can be counted, with the given error added at the bound that was passed.
pub open spec fn room_for_clamp(
    stats: BoundStats,
    lo: u64,
    hi: u64,
    original: u64,
    clamped: u64,
    error: i64,
) -> bool {
    &&& stats.total_updates < u64::MAX
    &&& if clamped == lo && original < lo {
        i64::MIN <= stats.latency_error_at_min + error <= i64::MAX
    } else if clamped == hi && original > hi {
        i64::MIN <= stats.latency_error_at_max + error <= i64::MAX
    } else {
        true
    }
}

/// Records how often parameters reach their bounds.
pub struct BoundDebugger {
    index: HashMap<u64, usize>,
    entries: Vec<(BoundKey, BoundStats)>,
    bounds: ParamBounds,
    enabled: bool,
    constraint_threshold: Ratio,
}

impl BoundDebugger {
    /// What has been recorded, in the order of first mention.
    pub closed spec fn records(&self) -> Records {
        self.entries@
    }

    /// The bounds that clamps are held against.
    pub closed spec fn bounds(&self) -> ParamBounds {
        self.bounds
    }

    /// Whether anything is recorded.
    pub closed spec fn enabled(&self) -> bool {
        self.enabled
    }

    /// The share of updates above which a bound counts as constraining.
    pub closed spec fn threshold(&self) -> Ratio {
        self.constraint_threshold
    }

    /// No key is recorded twice, all keys exist, and all counts are consistent.
    pub closed spec fn wf(&self) -> bool {
        &&& self.index@.dom().finite()
        &&& self.constraint_threshold.valid()
        &&& forall|i: int|
            0 <= i < self.entries@.len() ==> {
                let k = (#[trigger] self.entries@[i]).0;
                &&& k.exists_in_tables()
                &&& self.index@.contains_key(k.code())
                &&& self.index@[k.code()] == i
                &&& self.entries@[i].1.consistent()
            }
        &&& forall|c: u64| #[trigger]
            self.index@.contains_key(c) ==> self.index@[c] < self.entries@.len()
                && self.entries@[self.index@[c] as int].0.code() == c
    }

    /// The counts of every key that was recorded are consistent: no more hits than
    /// updates.
    pub proof fn every_hit_is_an_update(&self, key: BoundKey)
        requires
            self.wf(),
        ensures
            stats_of(self.records(), key).consistent(),
    {
        if key.exists_in_tables() {
            self.lemma_found(key, no_stats());
        } else {
            lemma_absent(self.entries@, key, no_stats());
        }
    }

    /// No key is recorded twice.
    pub proof fn keys_are_recorded_once(&self, i: int, j: int)
        requires
            self.wf(),
            0 <= i < j < self.records().len(),
        ensures
            self.records()[i].0 != self.records()[j].0,
    {
        assert(self.index@[self.entries@[i].0.code()] == i);
        assert(self.index@[self.entries@[j].0.code()] == j);
    }

    proof fn lemma_found(&self, key: BoundKey, stats: BoundStats)
        requires
            self.wf(),
            key.exists_in_tables(),
        ensures
            self.index@.contains_key(key.code()) ==> {
                let i = self.index@[key.code()] as int;
                &&& 0 <= i < self.entries@.len()
                &&& self.entries@[i].0 == key
                &&& lookup(self.entries@, key) == Some(self.entries@[i].1)
                &&& store(self.entries@, key, stats) == self.entries@.update(i, (key, stats))
            },
            !self.index@.contains_key(key.code()) ==> {
                &&& lookup(self.entries@, key) is None
                &&& store(self.entries@, key, stats) == self.entries@.push((key, stats))
            },
    {
        if self.index@.contains_key(key.code()) {
            let i = self.index@[key.code()] as int;
            assert(self.entries@[i].0.code() == key.code());
            assert(self.entries@[i].0 == key);
            assert forall|j: int| 0 <= j < i implies (#[trigger] self.entries@[j]).0 != key by {
                assert(self.index@[self.entries@[j].0.code()] == j);
            }
            lemma_at(self.entries@, key, i, stats);
        } else {
            assert forall|j: int| 0 <= j < self.entries@.len() implies (#[trigger] self.entries@[j]).0
                != key by {
                assert(self.index@.contains_key(self.entries@[j].0.code()));
            }
            lemma_absent(self.entries@, key, stats);
        }
    }

    /// A debugger that has recorded nothing; a bound constrains a parameter that
    /// spends more than 80% of its updates there.
    pub fn new(bounds: ParamBounds, enabled: bool) -> (r: Self)
        ensures
            r.wf(),
            r.records() == Seq::<(BoundKey, BoundStats)>::empty(),
            r.bounds() == bounds,
            r.enabled() == enabled,
            r.threshold() == (Ratio { num: 80, den: 100 }),
    {
        BoundDebugger {
            index: HashMap::new(),
            entries: Vec::new(),
            bounds,
            enabled,
            constraint_threshold: Ratio { num: 80, den: 100 },
        }
    }

    /// Turns recording on or off.
    pub fn set_enabled(&mut self, enabled: bool)
        requires
            old(self).wf(),
        ensures
            final(self).wf(),
            final(self).enabled() == enabled,
            final(self).records() == old(self).records(),
            final(self).bounds() == old(self).bounds(),
            final(self).threshold() == old(self).threshold(),
    {
        self.enabled = enabled;
    }

    /// Sets the share of updates above which a bound counts as constraining.
    pub fn set_constraint_threshold(&mut self, threshold: Ratio)
        requires
            old(self).wf(),
            threshold.valid(),
        ensures
            final(self).wf(),
            final(self).threshold() == threshold,
            final(self).enabled() == old(self).enabled(),
            final(self).records() == old(self).records(),
            final(self).bounds() == old(self).bounds(),
    {
        self.constraint_threshold = threshold;
    }

    fn put(&mut self, key: BoundKey, stats: BoundStats)
        requires
            old(self).wf(),
            key.exists_in_tables(),
            stats.consistent(),
        ensures
            final(self).wf(),
            final(self).records() == store(old(self).records(), key, stats),
            final(self).enabled() == old(self).enabled(),
            final(self).bounds() == old(self).bounds(),
            final(self).threshold() == old(self).threshold(),
    {
        proof {
            self.lemma_found(key, stats);
        }
        let code: u64 = key.to_code();
        match self.index.get(&code) {
            Some(at) => {
                let i: usize = *at;
                self.entries.set(i, (key, stats));
            },
            None => {
                let i: usize = self.entries.len();
                self.index.insert(code, i);
                self.entries.push((key, stats));
            },
        }
    }

    fn fetch(&self, key: BoundKey) -> (r: BoundStats)
        requires
            self.wf(),
            key.exists_in_tables(),
        ensures
            r == stats_of(self.records(), key),
            r.consistent(),
    {
        proof {
            self.lemma_found(key, no_stats());
        }
        let code: u64 = key.to_code();
        match self.index.get(&code) {
            Some(at) => self.entries[*at].1,
            None => BoundStats::default(),
        }
    }

    /// Counts an update of a parameter. Nothing is recorded while recording is off,
    /// or for a class or parameter that does not exist.
    pub fn record_update(&mut self, cpu: u32, class: u32, param_idx: usize)
        requires
            old(self).wf(),
            old(self).enabled() && (BoundKey { cpu, class, param_idx }).exists_in_tables()
                ==> room_for_update(
                stats_of(old(self).records(), BoundKey { cpu, class, param_idx }),
            ),
        ensures
            final(self).wf(),
            final(self).records() == if old(self).enabled() && (BoundKey {
                cpu,
                class,
                param_idx,
            }).exists_in_tables() {
                store(
                    old(self).records(),
                    BoundKey { cpu, class, param_idx },
                    after_update(
                        stats_of(old(self).records(), BoundKey { cpu, class, param_idx }),
                    ),
                )
            } else {
                old(self).records()
            },
            final(self).enabled() == old(self).enabled(),
            final(self).bounds() == old(self).bounds(),
            final(self).threshold() == old(self).threshold(),
    {
        if !self.enabled || param_idx >= PARAM_COUNT || class as usize >= DESCENT_CLASS_MAX {
            return;
        }
        let key = BoundKey { cpu, class, param_idx };
        let mut stats = self.fetch(key);
        stats.total_updates = stats.total_updates + 1;
        self.put(key, stats);
    }

    /// Counts an update of a parameter in which clamping turned `original_value` into
    /// `clamped_value` at the given latency error. Nothing is recorded while
    /// recording is off, or for a class or parameter that does not exist.
    pub fn record_clamp(
        &mut self,
        cpu: u32,
        class: u32,
        param_idx: usize,
        original_value: u64,
        clamped_value: u64,
        latency_error_ns: i64,
    )
        requires
            old(self).wf(),
            old(self).enabled() && (BoundKey { cpu, class, param_idx }).exists_in_tables()
                ==> room_for_clamp(
                stats_of(old(self).records(), BoundKey { cpu, class, param_idx }),
                old(self).bounds()[class as int][param_idx as int].0,
                old(self).bounds()[class as int][param_idx as int].1,
                original_value,
                clamped_value,
                latency_error_ns,
            ),
        ensures
            final(self).wf(),
            final(self).records() == if old(self).enabled() && (BoundKey {
                cpu,
                class,
                param_idx,
            }).exists_in_tables() {
                let (lo, hi) = old(self).bounds()[class as int][param_idx as int];
                store(
                    old(self).records(),
                    BoundKey { cpu, class, param_idx },
                    after_clamp(
                        stats_of(old(self).records(), BoundKey { cpu, class, param_idx }),
                        lo,
                        hi,
                        original_value,
                        clamped_value,
                        latency_error_ns,
                    ),
                )
            } else {
                old(self).records()
            },
            final(self).enabled() == old(self).enabled(),
            final(self).bounds() == old(self).bounds(),
            final(self).threshold() == old(self).threshold(),
    {
        if !self.enabled || param_idx >= PARAM_COUNT || class as usize >= DESCENT_CLASS_MAX {
            return;
        }
        let key = BoundKey { cpu, class, param_idx };
        let (min_bound, max_bound) = self.bounds[class as usize][param_idx];
        let mut stats = self.fetch(key);
        stats.total_updates = stats.total_updates + 1;
        if clamped_value == min_bound && original_value < min_bound {
            stats.min_hits = stats.min_hits + 1;
            stats.latency_error_at_min = stats.latency_error_at_min + latency_error_ns;
            stats.last_clamped_value = original_value;
            stats.last_bound_value = min_bound;
        } else if clamped_value == max_bound && original_value > max_bound {
            stats.max_hits = stats.max_hits + 1;
            stats.latency_error_at_max = stats.latency_error_at_max + latency_error_ns;
            stats.last_clamped_value = original_value;
            stats.last_bound_value = max_bound;
        } else {
            stats.within_bounds = stats.within_bounds + 1;
        }
        self.put(key, stats);
    }

    /// The counts of one parameter of one class on one CPU.
    pub fn get_stats(&self, cpu: u32, class: u32, param_idx: usize) -> (r: Option<&BoundStats>)
        requires
            self.wf(),
        ensures
            match r {
                Some(s) => lookup(self.records(), BoundKey { cpu, class, param_idx }) == Some(*s),
                None => lookup(self.records(), BoundKey { cpu, class, param_idx }) is None,
            },
    {
        let key = BoundKey { cpu, class, param_idx };
        if param_idx >= PARAM_COUNT || class as usize >= DESCENT_CLASS_MAX {
            proof {
                lemma_absent(self.entries@, key, no_stats());
            }
            return None;
        }
        proof {
            self.lemma_found(key, no_stats());
        }
        let code: u64 = key.to_code();
        match self.index.get(&code) {
            Some(at) => Some(&self.entries[*at].1),
            None => None,
        }
    }

    /// Forgets everything that was recorded.
    pub fn reset(&mut self)
        requires
            old(self).wf(),
        ensures
            final(self).wf(),
            final(self).records() == Seq::<(BoundKey, BoundStats)>::empty(),
            final(self).enabled() == old(self).enabled(),
            final(self).bounds() == old(self).bounds(),
            final(self).threshold() == old(self).threshold(),
    {
        self.index.clear();
        self.entries.clear();
    }

    /// The counts of every parameter of a class, on all CPUs.
    pub fn get_class_stats(&self, class: u32) -> (r: Vec<(BoundKey, &BoundStats)>)
        requires
            self.wf(),
        ensures
            lists(r@, self.records().filter(|e: (BoundKey, BoundStats)| e.0.class == class)),
    {
        let ghost keep = |e: (BoundKey, BoundStats)| e.0.class == class;
        let mut out: Vec<(BoundKey, &BoundStats)> = Vec::new();
        let mut i: usize = 0;
        reveal(Seq::filter);
        while i < self.entries.len()
            invariant
                i <= self.entries.len(),
                keep == (|e: (BoundKey, BoundStats)| e.0.class == class),
                lists(out@, self.entries@.take(i as int).filter(keep)),
            decreases self.entries.len() - i,
        {
            reveal(Seq::filter);
            assert(self.entries@.take(i + 1).drop_last() =~= self.entries@.take(i as int));
            let entry = &self.entries[i];
            if entry.0.class == class {
                out.push((entry.0, &entry.1));
            }
            i = i + 1;
        }
        assert(self.entries@.take(i as int) =~= self.entries@);
        out
    }

    /// The counts of a parameter of every class, on all CPUs.
    pub fn get_param_stats(&self, param_idx: usize) -> (r: Vec<(BoundKey, &BoundStats)>)
        requires
            self.wf(),
        ensures
            lists(r@, self.records().filter(|e: (BoundKey, BoundStats)| e.0.param_idx == param_idx)),
    {
        let ghost keep = |e: (BoundKey, BoundStats)| e.0.param_idx == param_idx;
        let mut out: Vec<(BoundKey, &BoundStats)> = Vec::new();
        let mut i: usize = 0;
        reveal(Seq::filter);
        while i < self.entries.len()
            invariant
                i <= self.entries.len(),
                keep == (|e: (BoundKey, BoundStats)| e.0.param_idx == param_idx),
                lists(out@, self.entries@.take(i as int).filter(keep)),
            decreases self.entries.len() - i,
        {
            reveal(Seq::filter);
            assert(self.entries@.take(i + 1).drop_last() =~= self.entries@.take(i as int));
            let entry = &self.entries[i];
            if entry.0.param_idx == param_idx {
                out.push((entry.0, &entry.1));
            }
            i = i + 1;
        }
        assert(self.entries@.take(i as int) =~= self.entries@);
        out
    }

    /// The parameters that spend more than the threshold of at least ten updates at
    /// one bound, the most constrained first.
    pub fn get_constrained_params(&self) -> (r: Vec<(BoundKey, BoundStats, BoundType)>)
        requires
            self.wf(),
        ensures
            is_ranking(r@, candidates(self.records(), self.threshold())),
    {
        let mut out: Vec<(BoundKey, BoundStats, BoundType)> = Vec::new();
        let mut i: usize = 0;
        assert(out@ =~= candidates(self.entries@.take(0), self.constraint_threshold));
        while i < self.entries.len()
            invariant
                i <= self.entries.len(),
                sorted_by_ratio(out@),
                out@.to_multiset() == candidates(
                    self.entries@.take(i as int),
                    self.constraint_threshold,
                ).to_multiset(),
            decreases self.entries.len() - i,
        {
            let entry = &self.entries[i];
            let ghost before = candidates(self.entries@.take(i as int), self.constraint_threshold);
            let ghost low = (entry.0, entry.1, BoundType::Min);
            let ghost high = (entry.0, entry.1, BoundType::Max);
            assert(self.entries@.take(i + 1).drop_last() =~= self.entries@.take(i as int));
            proof {
                broadcast use vstd::seq_lib::to_multiset_build;

            }
            if entry.1.total_updates >= 10 {
                if entry.1.min_hit_percent().exceeds(&self.constraint_threshold) {
                    insert_by_ratio(&mut out, (entry.0, entry.1, BoundType::Min));
                    assert(out@.to_multiset() == before.push(low).to_multiset());
                    if entry.1.max_hit_percent().exceeds(&self.constraint_threshold) {
                        insert_by_ratio(&mut out, (entry.0, entry.1, BoundType::Max));
                        assert(out@.to_multiset() == before.push(low).push(high).to_multiset());
                    }
                } else if entry.1.max_hit_percent().exceeds(&self.constraint_threshold) {
                    insert_by_ratio(&mut out, (entry.0, entry.1, BoundType::Max));
                    assert(out@.to_multiset() == before.push(high).to_multiset());
                }
            }
            i = i + 1;
        }
        assert(self.entries@.take(i as int) =~= self.entries@);
        out
    }

    /// Totals over everything that was recorded.
    pub fn get_summary(&self) -> (r: BoundSummary)
        requires
            self.wf(),
            total(self.records(), updates()) <= u64::MAX,
        ensures
            is_summary(r, self.records()),
    {
        let mut total_updates: u64 = 0;
        let mut total_min_hits: u64 = 0;
        let mut total_max_hits: u64 = 0;
        let mut constrained_params: usize = 0;
        let mut i: usize = 0;
        while i < self.entries.len()
            invariant
                self.wf(),
                i <= self.entries.len(),
                total(self.entries@, updates()) <= u64::MAX,
                total_updates == total(self.entries@.take(i as int), updates()),
                total_min_hits == total(self.entries@.take(i as int), min_hits()),
                total_max_hits == total(self.entries@.take(i as int), max_hits()),
                total_min_hits + total_max_hits <= total_updates,
                constrained_params == total(self.entries@.take(i as int), constrained()),
                constrained_params <= i,
            decreases self.entries.len() - i,
        {
            let stats = self.entries[i].1;
            proof {
                assert(self.entries@[i as int].1.consistent());
                assert(self.entries@.take(i + 1).drop_last() =~= self.entries@.take(i as int));
                lemma_total_grows(self.entries@, updates(), i + 1);
            }
            total_updates = total_updates + stats.total_updates;
            total_min_hits = total_min_hits + stats.min_hits;
            total_max_hits = total_max_hits + stats.max_hits;
            if stats.is_constrained() {
                constrained_params = constrained_params + 1;
            }
            i = i + 1;
        }
        assert(self.entries@.take(i as int) =~= self.entries@);
        BoundSummary {
            total_tracked_params: self.entries.len(),
            constrained_params,
            total_updates,
            total_min_hits,
            total_max_hits,
            overall_constraint_percentage: Ratio::of(total_min_hits + total_max_hits, total_updates),
        }
    }
}

impl BoundDebugger {
    /// What a report on the bounds shows, for the CPUs below `nr_cpus`: counts of
    /// active, constrained and free parameters, the totals, at most 20 constrained
    /// parameters, and the activity of each parameter of each class.
    pub fn report(&self, nr_cpus: usize) -> (r: BoundReport)
        requires
            self.wf(),
            nr_cpus <= u32::MAX,
            total(self.records(), updates()) <= u64::MAX,
        ensures
            is_report(r, self.records(), self.threshold(), nr_cpus),
            r.printable(),
    {
        let summary = self.get_summary();
        let mut active_params: usize = 0;
        let mut i: usize = 0;
        while i < self.entries.len()
            invariant
                self.wf(),
                i <= self.entries.len(),
                active_params == total(self.entries@.take(i as int), active()),
                total(self.entries@.take(i as int), constrained()) <= active_params <= i,
            decreases self.entries.len() - i,
        {
            assert(self.entries@.take(i + 1).drop_last() =~= self.entries@.take(i as int));
            if self.entries[i].1.total_updates > 0 {
                active_params = active_params + 1;
            }
            i = i + 1;
        }
        assert(self.entries@.take(i as int) =~= self.entries@);

        let chosen = self.get_constrained_params();
        let ghost all = candidates(self.entries@, self.constraint_threshold);
        proof {
            broadcast use vstd::seq_lib::group_to_multiset_ensures;

            assert(chosen@.len() == chosen@.to_multiset().len() == all.len());
        }
        let mut rows: Vec<ConstrainedRow> = Vec::new();
        let mut k: usize = 0;
        while k < chosen.len() && k < 20
            invariant
                self.wf(),
                k <= chosen.len(),
                k <= 20,
                rows@.len() == k,
                all == candidates(self.entries@, self.constraint_threshold),
                chosen@.to_multiset() == all.to_multiset(),
                forall|j: int| 0 <= j < k ==> is_row(#[trigger] rows@[j], chosen@[j]),
                forall|j: int| 0 <= j < k ==> (#[trigger] rows@[j]).printable(),
            decreases chosen.len() - k,
        {
            proof {
                broadcast use vstd::seq_lib::group_to_multiset_ensures;

                let c = chosen@[k as int];
                assert(chosen@.contains(c));
                assert(chosen@.to_multiset().count(c) > 0);
                assert(all.to_multiset().count(c) > 0);
                assert(all.contains(c));
                let at = choose|at: int| 0 <= at < all.len() && all[at] == c;
                assert(hit_ratio(all[at]).num > 0) by {
                    lemma_candidates_hit(self.entries@, self.constraint_threshold);
                }
                lemma_candidates_recorded(self.entries@, self.constraint_threshold, at);
                let e = choose|e: int|
                    0 <= e < self.entries@.len() && #[trigger] self.entries@[e] == (c.0, c.1);
                assert(self.entries@[e].1.consistent());
            }
            rows.push(constrained_row(&chosen[k]));
            k = k + 1;
        }
        assert(is_ranking(chosen@, all));

        let mut lines: Vec<ActivityRow> = Vec::new();
        let mut n: usize = 0;
        while n < DESCENT_CLASS_MAX * PARAM_COUNT
            invariant
                self.wf(),
                n <= 20,
                nr_cpus <= u32::MAX,
                total(self.entries@, updates()) <= u64::MAX,
                lines@ == activity(self.entries@, nr_cpus as u32, n as nat),
                forall|j: int| 0 <= j < lines@.len() ==> (#[trigger] lines@[j]).printable(),
            decreases 20 - n,
        {
            if let Some(line) = self.activity_row((n / PARAM_COUNT) as u32, n % PARAM_COUNT, nr_cpus as u32) {
                lines.push(line);
            }
            n = n + 1;
        }

        BoundReport {
            active_params,
            constrained_params: summary.constrained_params,
            freely_operating: active_params - summary.constrained_params,
            within: summary.total_updates - summary.total_min_hits - summary.total_max_hits,
            summary,
            constrained: rows,
            activity: lines,
        }
    }

    fn activity_row(&self, class: u32, param_idx: usize, cpus: u32) -> (r: Option<ActivityRow>)
        requires
            self.wf(),
            total(self.records(), updates()) <= u64::MAX,
        ensures
            r == activity_of(self.records(), class, param_idx, cpus),
            r matches Some(row) ==> row.updates > 0 && row.min_hits + row.max_hits <= row.updates,
    {
        let mut class_updates: u64 = 0;
        let mut class_min_hits: u64 = 0;
        let mut class_max_hits: u64 = 0;
        let ghost key = (class, param_idx, cpus);
        let mut i: usize = 0;
        while i < self.entries.len()
            invariant
                self.wf(),
                i <= self.entries.len(),
                key == (class, param_idx, cpus),
                total(self.entries@, updates()) <= u64::MAX,
                class_updates == total(self.entries@.take(i as int), only(key, updates())),
                class_min_hits == total(self.entries@.take(i as int), only(key, min_hits())),
                class_max_hits == total(self.entries@.take(i as int), only(key, max_hits())),
                class_min_hits + class_max_hits <= class_updates,
                class_updates <= total(self.entries@.take(i as int), updates()),
            decreases self.entries.len() - i,
        {
            let entry = &self.entries[i];
            proof {
                assert(self.entries@[i as int].1.consistent());
                assert(self.entries@.take(i + 1).drop_last() =~= self.entries@.take(i as int));
                lemma_total_grows(self.entries@, updates(), i + 1);
            }
            if entry.0.class == class && entry.0.param_idx == param_idx && entry.0.cpu < cpus {
                class_updates = class_updates + entry.1.total_updates;
                class_min_hits = class_min_hits + entry.1.min_hits;
                class_max_hits = class_max_hits + entry.1.max_hits;
            }
            i = i + 1;
        }
        assert(self.entries@.take(i as int) =~= self.entries@);
        if class_updates > 0 {
            let at_bounds = Ratio::of(class_min_hits + class_max_hits, class_updates);
            let status = if at_bounds.exceeds_milli(800) {
                BoundStatus::Constrained
            } else if at_bounds.exceeds_milli(500) {
                BoundStatus::Tight
            } else {
                BoundStatus::Free
            };
            Some(
                ActivityRow {
                    class,
                    param_idx,
                    updates: class_updates,
                    min_hits: class_min_hits,
                    max_hits: class_max_hits,
                    status,
                },
            )
        } else {
            None
        }
    }
}

/// How close a parameter of a class is to its bounds.
#[derive(Debug, Clone, Copy, PartialEq, Eq, Structural)]
pub enum BoundStatus {
    /// More than 80% of the updates ended at a bound.
    Constrained,
    /// More than 50% of the updates ended at a bound.
    Tight,
    /// Fewer did.
    Free,
}

impl BoundStatus {
    /// The word for the status in a report.
    pub fn name(&self) -> (r: &'static str)
        ensures
            r@ == match *self {
                BoundStatus::Constrained => "CONSTRAINED"@,
                BoundStatus::Tight => "TIGHT"@,
                BoundStatus::Free => "OK"@,
            },
    {
        match self {
            BoundStatus::Constrained => "CONSTRAINED",
            BoundStatus::Tight => "TIGHT",
            BoundStatus::Free => "OK",
        }
    }
}

/// A constrained parameter, as a report shows it.
#[derive(Debug, Clone, Copy, PartialEq, Eq, Structural)]
pub struct ConstrainedRow {
    pub key: BoundKey,
    pub bound: BoundType,
    /// How often the bound was hit.
    pub hits: u64,
    /// The share of updates that ended there.
    pub hit_percent: Ratio,
    /// The mean latency error there, in microseconds.
    pub error_avg_us: i64,
}

/// The activity of a parameter of a class, summed over CPUs.
#[derive(Debug, Clone, Copy, PartialEq, Eq, Structural)]
pub struct ActivityRow {
    pub class: u32,
    pub param_idx: usize,
    pub updates: u64,
    pub min_hits: u64,
    pub max_hits: u64,
    pub status: BoundStatus,
}

/// What a report on the bounds shows.
pub struct BoundReport {
    /// Parameters with at least one update.
    pub active_params: usize,
    /// Parameters that are constrained.
    pub constrained_params: usize,
    /// Active parameters that are not.
    pub freely_operating: usize,
    /// Updates that ended at neither bound.
    pub within: u64,
    pub summary: BoundSummary,
    /// The most constrained parameters.
    pub constrained: Vec<ConstrainedRow>,
    /// Every parameter of every class that was updated.
    pub activity: Vec<ActivityRow>,
}

impl ConstrainedRow {
    /// The parameter has a name, and no more than all updates hit the bound.
    pub open spec fn printable(self) -> bool {
        &&& self.key.exists_in_tables()
        &&& self.hit_percent.valid()
        &&& self.hit_percent.num <= self.hit_percent.den
    }
}

impl ActivityRow {
    /// The parameter has a name, and no more than all updates hit a bound.
    pub open spec fn printable(self) -> bool {
        &&& self.class < DESCENT_CLASS_MAX
        &&& self.param_idx < PARAM_COUNT
        &&& self.updates > 0
        &&& self.min_hits + self.max_hits <= self.updates
    }
}

impl BoundReport {
    /// All that the report shows can be printed.
    pub open spec fn printable(self) -> bool {
        &&& self.summary.overall_constraint_percentage.valid()
        &&& self.summary.overall_constraint_percentage.num
            <= self.summary.overall_constraint_percentage.den
        &&& forall|i: int|
            0 <= i < self.constrained@.len() ==> (#[trigger] self.constrained@[i]).printable()
        &&& forall|i: int|
            0 <= i < self.activity@.len() ==> (#[trigger] self.activity@[i]).printable()
    }
}

/// `r` reports on the records, with constrained parameters above a threshold, and
/// the activity on the CPUs below `nr_cpus`.
pub open spec fn is_report(r: BoundReport, s: Records, threshold: Ratio, nr_cpus: usize) -> bool {
    let all = candidates(s, threshold);
    &&& is_summary(r.summary, s)
    &&& r.active_params == total(s, active())
    &&& r.constrained_params == total(s, constrained())
    &&& r.freely_operating == r.active_params - r.constrained_params
    &&& r.within == r.summary.total_updates - r.summary.total_min_hits - r.summary.total_max_hits
    &&& r.constrained@.len() == if all.len() < 20 {
        all.len()
    } else {
        20
    }
    &&& exists|order: Seq<(BoundKey, BoundStats, BoundType)>| #[trigger]
        is_ranking(order, all) && forall|i: int|
            0 <= i < r.constrained@.len() ==> is_row(#[trigger] r.constrained@[i], order[i])
    &&& r.activity@ == activity(s, nr_cpus as u32, (DESCENT_CLASS_MAX * PARAM_COUNT) as nat)
}

/// Counts a record with updates.
pub open spec fn active() -> spec_fn((BoundKey, BoundStats)) -> nat {
    |e: (BoundKey, BoundStats)| if e.1.total_updates > 0 { 1 } else { 0 }
}

/// Counts only the records of a class and parameter on the CPUs below a number.
pub open spec fn only(
    key: (u32, usize, u32),
    count: spec_fn((BoundKey, BoundStats)) -> nat,
) -> spec_fn((BoundKey, BoundStats)) -> nat {
    |e: (BoundKey, BoundStats)|
        if e.0.class == key.0 && e.0.param_idx == key.1 && e.0.cpu < key.2 {
            count(e)
        } else {
            0
        }
}

/// The status of a parameter with so many of its updates at a bound.
pub open spec fn status_of(at_bounds: int, updates: int) -> BoundStatus {
    if at_bounds * 100 > 80 * updates {
        BoundStatus::Constrained
    } else if at_bounds * 100 > 50 * updates {
        BoundStatus::Tight
    } else {
        BoundStatus::Free
    }
}

/// The activity of a parameter of a class, if there was any.
pub open spec fn activity_of(s: Records, class: u32, param_idx: usize, cpus: u32) -> Option<ActivityRow> {
    let key = (class, param_idx, cpus);
    let n = total(s, only(key, updates()));
    let lo = total(s, only(key, min_hits()));
    let hi = total(s, only(key, max_hits()));
    if n > 0 {
        Some(
            ActivityRow {
                class,
                param_idx,
                updates: n as u64,
                min_hits: lo as u64,
                max_hits: hi as u64,
                status: status_of((lo + hi) as int, n as int),
            },
        )
    } else {
        None
    }
}

/// The activity of the first `n` pairs of class and parameter, class by class.
pub open spec fn activity(s: Records, cpus: u32, n: nat) -> Seq<ActivityRow>
    decreases n,
{
    if n == 0 {
        Seq::empty()
    } else {
        let before = activity(s, cpus, (n - 1) as nat);
        match activity_of(
            s,
            ((n - 1) / PARAM_COUNT as int) as u32,
            ((n - 1) % PARAM_COUNT as int) as usize,
            cpus,
        ) {
            Some(row) => before.push(row),
            None => before,
        }
    }
}

/// `row` shows the constrained parameter `c`.
pub open spec fn is_row(row: ConstrainedRow, c: (BoundKey, BoundStats, BoundType)) -> bool {
    let (hits, error) = match c.2 {
        BoundType::Min => (c.1.min_hits, c.1.latency_error_at_min),
        BoundType::Max => (c.1.max_hits, c.1.latency_error_at_max),
    };
    &&& row.key == c.0
    &&& row.bound == c.2
    &&& row.hits == hits
    &&& row.hit_percent == hit_ratio(c)
    &&& row.error_avg_us == quotient(quotient(error as int, hits as int), 1000)
}

fn constrained_row(c: &(BoundKey, BoundStats, BoundType)) -> (r: ConstrainedRow)
    requires
        hit_ratio(*c).num > 0,
    ensures
        is_row(r, *c),
{
    let (hits, error) = match c.2 {
        BoundType::Min => (c.1.min_hits, c.1.latency_error_at_min),
        BoundType::Max => (c.1.max_hits, c.1.latency_error_at_max),
    };
    let error_avg: i128 = error as i128 / hits as i128;
    assert(error_avg == quotient(error as int, hits as int));
    proof {
        let a = if error >= 0 { error as int } else { -error };
        let h = hits as int;
        assert(0 <= a / h <= a) by (nonlinear_arith)
            requires
                a >= 0,
                h >= 1,
        ;
    }
    let error_avg_us: i128 = error_avg / 1000;
    ConstrainedRow {
        key: c.0,
        bound: c.2,
        hits,
        hit_percent: ratio_of(c),
        error_avg_us: error_avg_us as i64,
    }
}

proof fn lemma_candidates_hit(s: Records, threshold: Ratio)
    ensures
        forall|i: int|
            0 <= i < candidates(s, threshold).len() ==> hit_ratio(
                #[trigger] candidates(s, threshold)[i],
            ).num > 0,
    decreases s.len(),
{
    if s.len() > 0 {
        lemma_candidates_hit(s.drop_last(), threshold);
        let (key, stats) = s.last();
        lemma_above_is_positive(hit_ratio((key, stats, BoundType::Min)), threshold);
        lemma_above_is_positive(hit_ratio((key, stats, BoundType::Max)), threshold);
        let before = candidates(s.drop_last(), threshold);
        let all = candidates(s, threshold);
        assert forall|i: int| 0 <= i < all.len() implies hit_ratio(#[trigger] all[i]).num > 0 by {
            if i < before.len() {
                assert(all[i] == before[i]);
            }
        }
    }
}

proof fn lemma_candidates_recorded(s: Records, threshold: Ratio, i: int)
    requires
        0 <= i < candidates(s, threshold).len(),
    ensures
        exists|e: int|
            0 <= e < s.len() && #[trigger] s[e] == (
                candidates(s, threshold)[i].0,
                candidates(s, threshold)[i].1,
            ),
    decreases s.len(),
{
    let before = candidates(s.drop_last(), threshold);
    let c = candidates(s, threshold)[i];
    if i < before.len() {
        lemma_candidates_recorded(s.drop_last(), threshold, i);
        assert(c == before[i]);
        let e = choose|e: int|
            0 <= e < s.drop_last().len() && #[trigger] s.drop_last()[e] == (c.0, c.1);
        assert(s[e] == (c.0, c.1));
    } else {
        assert(s[s.len() - 1] == (c.0, c.1));
    }
}

proof fn lemma_above_is_positive(a: Ratio, b: Ratio)
    ensures
        a.above(b) ==> a.num > 0,
{
    let (an, ad, bn, bd) = (a.num as int, a.den as int, b.num as int, b.den as int);
    assert(an * bd > bn * ad ==> an > 0) by (nonlinear_arith)
        requires
            an >= 0,
            ad >= 0,
            bn >= 0,
            bd >= 0,
    ;
}

/// `r` lists the entries of `s`.
pub open spec fn lists(r: Seq<(BoundKey, &BoundStats)>, s: Records) -> bool {
    &&& r.len() == s.len()
    &&& forall|i: int| 0 <= i < r.len() ==> (#[trigger] r[i]).0 == s[i].0 && *r[i].1 == s[i].1
}

/// The bounds at which a parameter with enough updates is held too often.
pub open spec fn candidates(s: Records, threshold: Ratio) -> Seq<(BoundKey, BoundStats, BoundType)>
    decreases s.len(),
{
    if s.len() == 0 {
        Seq::empty()
    } else {
        let before = candidates(s.drop_last(), threshold);
        let (key, stats) = s.last();
        let with_min = if stats.total_updates >= 10 && hit_ratio(
            (key, stats, BoundType::Min),
        ).above(threshold) {
            before.push((key, stats, BoundType::Min))
        } else {
            before
        };
        if stats.total_updates >= 10 && hit_ratio((key, stats, BoundType::Max)).above(threshold) {
            with_min.push((key, stats, BoundType::Max))
        } else {
            with_min
        }
    }
}

/// The share of updates that ended at the given bound.
pub open spec fn hit_ratio(c: (BoundKey, BoundStats, BoundType)) -> Ratio {
    match c.2 {
        BoundType::Min => part_of(c.1.min_hits, c.1.total_updates),
        BoundType::Max => part_of(c.1.max_hits, c.1.total_updates),
    }
}

fn ratio_of(c: &(BoundKey, BoundStats, BoundType)) -> (r: Ratio)
    ensures
        r == hit_ratio(*c),
        r.valid(),
{
    match c.2 {
        BoundType::Min => c.1.min_hit_percent(),
        BoundType::Max => c.1.max_hit_percent(),
    }
}

/// `r` holds what `s` holds, the largest share of updates first.
pub open spec fn is_ranking(
    r: Seq<(BoundKey, BoundStats, BoundType)>,
    s: Seq<(BoundKey, BoundStats, BoundType)>,
) -> bool {
    &&& r.to_multiset() == s.to_multiset()
    &&& sorted_by_ratio(r)
}

/// No later entry has a larger share of updates at its bound.
pub open spec fn sorted_by_ratio(s: Seq<(BoundKey, BoundStats, BoundType)>) -> bool {
    forall|i: int, j: int|
        0 <= i < j < s.len() ==> !hit_ratio(#[trigger] s[j]).above(hit_ratio(#[trigger] s[i]))
}

fn insert_by_ratio(
    out: &mut Vec<(BoundKey, BoundStats, BoundType)>,
    c: (BoundKey, BoundStats, BoundType),
)
    requires
        sorted_by_ratio(old(out)@),
    ensures
        sorted_by_ratio(final(out)@),
        final(out)@.to_multiset() == old(out)@.to_multiset().insert(c),
{
    let r = ratio_of(&c);
    let mut at: usize = 0;
    while at < out.len() && !r.exceeds(&ratio_of(&out[at]))
        invariant
            at <= out.len(),
            r == hit_ratio(c),
            forall|i: int| 0 <= i < at ==> !r.above(hit_ratio(#[trigger] out@[i])),
        decreases out.len() - at,
    {
        at = at + 1;
    }
    let ghost before = out@;
    proof {
        assert forall|i: int| at <= i < before.len() implies !hit_ratio(#[trigger] before[i]).above(
            r,
        ) by {
            let first = hit_ratio(before[at as int]);
            assert(!first.above(r)) by (nonlinear_arith)
                requires
                    r.num * first.den > first.num * r.den,
                    first.above(r) == (first.num * r.den > r.num * first.den),
            ;
            if i > at {
                crate::ratio::above_is_transitive(r, first, hit_ratio(before[i]));
            }
        }
        vstd::seq_lib::to_multiset_insert(before, at as int, c);
    }
    out.insert(at, c);
    assert forall|i: int, j: int| 0 <= i < j < out@.len() implies !hit_ratio(
        #[trigger] out@[j],
    ).above(hit_ratio(#[trigger] out@[i])) by {
        let a = if i < at { i } else { i - 1 };
        let b = if j < at { j } else { j - 1 };
        if i != at && j != at {
            assert(out@[i] == before[a] && out@[j] == before[b]);
        }
    }
}

/// The sum of a count over all records.
pub open spec fn total(s: Records, count: spec_fn((BoundKey, BoundStats)) -> nat) -> nat
    decreases s.len(),
{
    if s.len() == 0 {
        0
    } else {
        total(s.drop_last(), count) + count(s.last())
    }
}

/// Counts the updates of a record.
pub open spec fn updates() -> spec_fn((BoundKey, BoundStats)) -> nat {
    |e: (BoundKey, BoundStats)| e.1.total_updates as nat
}

/// Counts the hits of a record at the least value.
pub open spec fn min_hits() -> spec_fn((BoundKey, BoundStats)) -> nat {
    |e: (BoundKey, BoundStats)| e.1.min_hits as nat
}

/// Counts the hits of a record at the largest value.
pub open spec fn max_hits() -> spec_fn((BoundKey, BoundStats)) -> nat {
    |e: (BoundKey, BoundStats)| e.1.max_hits as nat
}

/// Counts a record that is constrained.
pub open spec fn constrained() -> spec_fn((BoundKey, BoundStats)) -> nat {
    |e: (BoundKey, BoundStats)| if e.1.constrained() { 1 } else { 0 }
}

proof fn lemma_total_grows(s: Records, count: spec_fn((BoundKey, BoundStats)) -> nat, k: int)
    requires
        0 <= k <= s.len(),
    ensures
        total(s.take(k), count) <= total(s, count),
    decreases s.len() - k,
{
    if k < s.len() {
        lemma_total_grows(s, count, k + 1);
        assert(s.take(k + 1).drop_last() =~= s.take(k));
    } else {
        assert(s.take(k) =~= s);
    }
}

/// Totals over everything that was recorded.
#[derive(Debug, Clone, Copy, PartialEq, Eq, Structural)]
pub struct BoundSummary {
    /// Number of parameters with a record.
    pub total_tracked_params: usize,
    /// Number of them that are constrained.
    pub constrained_params: usize,
    /// Number of updates.
    pub total_updates: u64,
    /// Number of hits at the least value.
    pub total_min_hits: u64,
    /// Number of hits at the largest value.
    pub total_max_hits: u64,
    /// The share of updates that ended at a bound.
    pub overall_constraint_percentage: Ratio,
}

/// `r` sums up the records `s`.
pub open spec fn is_summary(r: BoundSummary, s: Records) -> bool {
    &&& r.total_tracked_params == s.len()
    &&& r.constrained_params == total(s, constrained())
    &&& r.total_updates == total(s, updates())
    &&& r.total_min_hits == total(s, min_hits())
    &&& r.total_max_hits == total(s, max_hits())
    &&& r.overall_constraint_percentage == part_of(
        (r.total_min_hits + r.total_max_hits) as u64,
        r.total_updates,
    )
    &&& r.total_min_hits + r.total_max_hits <= r.total_updates
}

/// A quotient is rounded toward zero: it has the sign of the dividend, and what is left over
/// is smaller than the divisor.
pub proof fn quotients_are_rounded_toward_zero(a: int, b: int)
    requires
        b > 0,
    ensures
        a >= 0 ==> quotient(a, b) >= 0 && 0 <= a - b * quotient(a, b) < b,
        a <= 0 ==> quotient(a, b) <= 0 && -b < a - b * quotient(a, b) <= 0,
        quotient(-a, b) == -quotient(a, b),
{
    if a >= 0 {
        vstd::arithmetic::div_mod::lemma_fundamental_div_mod(a, b);
        assert(a / b >= 0) by (nonlinear_arith)
            requires
                a >= 0,
                b > 0,
        ;
    } else {
        vstd::arithmetic::div_mod::lemma_fundamental_div_mod(-a, b);
        assert((-a) / b >= 0) by (nonlinear_arith)
            requires
                a < 0,
                b > 0,
        ;
        assert(b * (-((-a) / b)) == -(b * ((-a) / b))) by (nonlinear_arith);
    }
    if a == 0 {
        assert(0int / b == 0) by (nonlinear_arith)
            requires
                b > 0,
        ;
        assert(b * 0 == 0);
    }
}

/// An update counts once: below where the value had to be raised to the lower bound, above
/// where it had to be lowered to the upper one, and within bounds otherwise. Its error adds
/// up at the bound that was passed.
pub proof fn clamps_count_on_their_side(
    s: BoundStats,
    lo: u64,
    hi: u64,
    original: u64,
    clamped: u64,
    error: i64,
)
    requires
        lo <= hi,
        room_for_clamp(s, lo, hi, original, clamped, error),
        s.consistent(),
        original < lo ==> clamped == lo,
        original > hi ==> clamped == hi,
        lo <= original <= hi ==> clamped == original,
    ensures
        ({
            let r = after_clamp(s, lo, hi, original, clamped, error);
            &&& r.total_updates == s.total_updates + 1
            &&& r.min_hits + r.max_hits + r.within_bounds == s.min_hits + s.max_hits
                + s.within_bounds + 1
            &&& r.min_hits == s.min_hits + 1 <==> original < lo
            &&& r.max_hits == s.max_hits + 1 <==> original > hi
            &&& r.within_bounds == s.within_bounds + 1 <==> lo <= original <= hi
            &&& r.latency_error_at_min + r.latency_error_at_max == s.latency_error_at_min
                + s.latency_error_at_max + (if lo <= original <= hi {
                0
            } else {
                error as int
            })
            &&& original >= lo ==> r.latency_error_at_min == s.latency_error_at_min
            &&& original <= hi ==> r.latency_error_at_max == s.latency_error_at_max
            &&& original < lo || original > hi ==> r.last_clamped_value == original
                && r.last_bound_value == clamped
            &&& lo <= original <= hi ==> r.last_clamped_value == s.last_clamped_value
                && r.last_bound_value == s.last_bound_value
        }),
{
}

/// A parameter is constrained with more than four fifths of its updates at a bound, tight with
/// more than half, and free otherwise.
pub proof fn statuses_divide_at_four_fifths_and_a_half(at_bounds: int, updates: int, s: BoundStats)
    ensures
        status_of(at_bounds, updates) == BoundStatus::Constrained <==> 5 * at_bounds > 4 * updates,
        updates >= 0 ==> (status_of(at_bounds, updates) == BoundStatus::Free <==> 2 * at_bounds
            <= updates),
        s.constrained() <==> s.total_updates > 0 && 5 * (s.min_hits + s.max_hits) > 4
            * s.total_updates,
{
}

/// A record is held at a bound too often exactly where ten and more updates were counted and
/// the part of them at that bound exceeds the threshold.
pub proof fn candidates_exceed_the_threshold(
    s: Records,
    threshold: Ratio,
    c: (BoundKey, BoundStats, BoundType),
)
    ensures
        candidates(s, threshold).contains(c) <==> s.contains((c.0, c.1)) && c.1.total_updates >= 10
            && threshold.num * c.1.total_updates < threshold.den * (match c.2 {
            BoundType::Min => c.1.min_hits,
            BoundType::Max => c.1.max_hits,
        }),
    decreases s.len(),
{
    let all = candidates(s, threshold);
    if s.len() > 0 {
        let rest = s.drop_last();
        let (key, stats) = s.last();
        candidates_exceed_the_threshold(rest, threshold, c);
        let before = candidates(rest, threshold);
        let (low, high) = ((key, stats, BoundType::Min), (key, stats, BoundType::Max));
        let with_min = if stats.total_updates >= 10 && hit_ratio(low).above(threshold) {
            before.push(low)
        } else {
            before
        };
        lemma_contains_pushed(before, low, c);
        lemma_contains_pushed(with_min, high, c);
        assert(s =~= rest.push(s.last()));
        assert(s.contains((c.0, c.1)) <==> rest.contains((c.0, c.1)) || (c.0, c.1) == s.last()) by {
            let e = (c.0, c.1);
            if s.contains(e) && e != s.last() {
                let i = choose|i: int| 0 <= i < s.len() && s[i] == e;
                assert(rest[i] == e);
            }
            if rest.contains(e) {
                let i = choose|i: int| 0 <= i < rest.len() && rest[i] == e;
                assert(s[i] == e);
            }
            assert(s[s.len() - 1] == s.last());
        }
        let n = c.1.total_updates;
        let hits = match c.2 {
            BoundType::Min => c.1.min_hits,
            BoundType::Max => c.1.max_hits,
        };
        assert(hits * threshold.den == threshold.den * hits) by (nonlinear_arith);
    }
}

proof fn lemma_contains_pushed<T>(s: Seq<T>, x: T, c: T)
    ensures
        s.push(x).contains(c) <==> s.contains(c) || c == x,
{
    let t = s.push(x);
    if t.contains(c) && c != x {
        let i = choose|i: int| 0 <= i < t.len() && t[i] == c;
        assert(s[i] == c);
    }
    if s.contains(c) {
        let i = choose|i: int| 0 <= i < s.len() && s[i] == c;
        assert(t[i] == c);
    }
    assert(t[t.len() - 1] == x);
}

} // verus!
