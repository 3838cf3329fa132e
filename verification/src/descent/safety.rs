//! Protection against parameters that make the loss explode: periodic checkpoints
//! of the parameters of each CPU and class, and their restoration.
//!
//! Losses are held in thousandths.

use std::collections::{HashMap, VecDeque};
use vstd::prelude::*;

verus! {

broadcast use vstd::std_specs::hash::group_hash_axioms;

/// Number of observations of a CPU and class before spikes count.
pub const MIN_OBSERVATIONS_FOR_SAFETY: usize = 20;

/// Number of updates of a CPU and class between two checkpoints.
pub const CHECKPOINT_INTERVAL: usize = 10;

/// Number of losses that are remembered.
pub const LOSS_HISTORY: usize = 100;

/// Increase of the loss over its baseline that is a spike unless another is set, in
/// thousandths of the baseline.
pub const DEFAULT_MAX_LOSS_INCREASE: u64 = 5_000;

/// Baseline below which no loss is a spike, in thousandths.
pub const MIN_BASELINE_FOR_SAFETY: u64 = 50_000;

/// What the monitor has done.
#[derive(Debug, Clone, Copy, PartialEq, Eq, Structural)]
pub struct SafetyStats {
    pub checkpoints_stored: usize,
    pub loss_history_size: usize,
    pub restorations: usize,
}

/// Keeps checkpoints and decides on their restoration.
pub struct SafetyMonitor {
    last_checkpoint: HashMap<u64, [u64; 5]>,
    update_counter: HashMap<u64, usize>,
    observation_count: HashMap<u64, usize>,
    loss_history: VecDeque<u64>,
    max_loss_increase: u64,
    restoration_count: usize,
}

spec fn code(cpu: u32, class: u32) -> u64 {
    (cpu * 0x1_0000_0000 + class) as u64
}

fn pair_code(cpu: u32, class: u32) -> (r: u64)
    ensures
        r == code(cpu, class),
{
    cpu as u64 * 0x1_0000_0000 + class as u64
}

/// The losses that are remembered after one more.
pub open spec fn remembered(history: Seq<u64>, loss: u64) -> Seq<u64> {
    let all = history.push(loss);
    if all.len() > LOSS_HISTORY {
        all.skip(1)
    } else {
        all
    }
}

/// The smoothed loss after one more, rounded down: three parts of the new loss and seven
/// of the smoothed loss so far.
pub open spec fn smoothed(history: Seq<u64>, loss: u64) -> u64 {
    if history.len() == 0 {
        loss
    } else {
        ((3 * loss + 7 * history.last()) / 10) as u64
    }
}

/// A loss lies above the smoothed loss so far by more than the increase, and that is
/// large enough to go by.
pub open spec fn is_spike(history: Seq<u64>, max_increase: u64, loss: u64) -> bool {
    let baseline = if history.len() == 0 {
        loss
    } else {
        history.last()
    };
    baseline >= MIN_BASELINE_FOR_SAFETY && loss * 1000 > baseline * (1000 + max_increase)
}

/// The sum of the values from `from` to before `to`.
pub open spec fn sum_between(s: Seq<u64>, from: int, to: int) -> int
    decreases to - from,
{
    if from >= to {
        0
    } else {
        sum_between(s, from, to - 1) + s[to - 1]
    }
}

/// The relative change from the mean of up to ten losses to the mean of the last ten, as
/// a fraction; none without older losses.
pub open spec fn trend(h: Seq<u64>) -> (int, int) {
    let n = h.len() as int;
    let m = if n < 20 {
        n - 10
    } else {
        10
    };
    if m <= 0 {
        (0, 1)
    } else {
        let recent = sum_between(h, n - 10, n);
        let older = sum_between(h, n - 10 - m, n - 10);
        if older == 0 {
            (0, 1)
        } else {
            (recent * m - older * 10, older * 10)
        }
    }
}

impl SafetyMonitor {
    /// The observations of a CPU and class.
    pub closed spec fn observations(&self, cpu: u32, class: u32) -> nat {
        if self.observation_count@.contains_key(code(cpu, class)) {
            self.observation_count@[code(cpu, class)] as nat
        } else {
            0
        }
    }

    /// The updates of a CPU and class.
    pub closed spec fn updates(&self, cpu: u32, class: u32) -> nat {
        if self.update_counter@.contains_key(code(cpu, class)) {
            self.update_counter@[code(cpu, class)] as nat
        } else {
            0
        }
    }

    /// The checkpoint of a CPU and class.
    pub closed spec fn checkpoint(&self, cpu: u32, class: u32) -> Option<[u64; 5]> {
        if self.last_checkpoint@.contains_key(code(cpu, class)) {
            Some(self.last_checkpoint@[code(cpu, class)])
        } else {
            None
        }
    }

    /// The number of checkpoints.
    pub closed spec fn checkpoints(&self) -> nat {
        self.last_checkpoint@.len()
    }

    /// The smoothed losses that are remembered.
    pub closed spec fn history(&self) -> Seq<u64> {
        self.loss_history@
    }

    /// The increase of the loss that is a spike.
    pub closed spec fn max_increase(&self) -> u64 {
        self.max_loss_increase
    }

    /// The number of restorations.
    pub closed spec fn restorations(&self) -> nat {
        self.restoration_count as nat
    }

    /// No more losses are remembered than there is room for.
    pub closed spec fn wf(&self) -> bool {
        &&& self.loss_history@.len() <= LOSS_HISTORY
        &&& self.last_checkpoint@.dom().finite()
        &&& self.update_counter@.dom().finite()
        &&& self.observation_count@.dom().finite()
    }

    /// A loss can be counted: as an observation, and as a restoration or an update.
    pub open spec fn has_room(&self, cpu: u32, class: u32, loss: u64) -> bool {
        &&& self.observations(cpu, class) < usize::MAX
        &&& if self.restores(cpu, class, loss) {
            self.restorations() < usize::MAX
        } else {
            self.updates(cpu, class) < usize::MAX
        }
    }

    /// A monitor that has seen nothing, for a fivefold increase.
    pub fn new() -> (r: Self)
        ensures
            r.wf(),
            r.fresh(),
            r.max_increase() == DEFAULT_MAX_LOSS_INCREASE,
    {
        SafetyMonitor::new_with_threshold(DEFAULT_MAX_LOSS_INCREASE)
    }

    /// Nothing was seen yet.
    pub open spec fn fresh(&self) -> bool {
        &&& forall|cpu: u32, class: u32| #[trigger] self.observations(cpu, class) == 0
        &&& forall|cpu: u32, class: u32| #[trigger] self.updates(cpu, class) == 0
        &&& forall|cpu: u32, class: u32| #[trigger] self.checkpoint(cpu, class) is None
        &&& self.checkpoints() == 0
        &&& self.history().len() == 0
        &&& self.restorations() == 0
    }

    /// A monitor that has seen nothing, for an increase in thousandths of the baseline.
    pub fn new_with_threshold(max_loss_increase: u64) -> (r: Self)
        ensures
            r.wf(),
            r.fresh(),
            r.max_increase() == max_loss_increase,
    {
        SafetyMonitor {
            last_checkpoint: HashMap::new(),
            update_counter: HashMap::new(),
            observation_count: HashMap::new(),
            loss_history: VecDeque::new(),
            max_loss_increase,
            restoration_count: 0,
        }
    }

    /// A spike after enough observations is answered by the checkpoint, if there is one.
    pub open spec fn restores(&self, cpu: u32, class: u32, loss: u64) -> bool {
        is_spike(self.history(), self.max_increase(), loss) && self.observations(cpu, class) + 1 >= MIN_OBSERVATIONS_FOR_SAFETY
            && self.checkpoint(cpu, class) is Some
    }

    /// Takes in the loss of a CPU and class with the parameters that led to it. Returns
    /// the checkpoint where the loss is a spike and the parameters have to be restored.
    /// Else the parameters become the checkpoint with every tenth update, and the
    /// smoothed loss is remembered.
    pub fn check_and_protect(
        &mut self,
        cpu: u32,
        class: u32,
        current_loss: u64,
        current_params: &[u64; 5],
    ) -> (r: Option<[u64; 5]>)
        requires
            old(self).wf(),
            old(self).has_room(cpu, class, current_loss),
        ensures
            is_check(*old(self), cpu, class, current_loss, *current_params, *final(self), r),
    {
        let key: u64 = pair_code(cpu, class);
        assert forall|c: u32, k: u32| !(c == cpu && k == class) implies #[trigger] code(c, k) != key by {
            assert(c * 0x1_0000_0000 + k != cpu * 0x1_0000_0000 + class);
        }
        let seen: usize = match self.observation_count.get(&key) {
            Some(n) => *n,
            None => 0,
        };
        let observations: usize = seen + 1;
        self.observation_count.insert(key, observations);
        if observations >= MIN_OBSERVATIONS_FOR_SAFETY && self.spike(current_loss) {
            if let Some(params) = self.last_checkpoint.get(&key) {
                let restored: [u64; 5] = *params;
                self.restoration_count = self.restoration_count + 1;
                return Some(restored);
            }
        }
        let before: usize = match self.update_counter.get(&key) {
            Some(n) => *n,
            None => 0,
        };
        let updates: usize = before + 1;
        self.update_counter.insert(key, updates);
        if updates % CHECKPOINT_INTERVAL == 0 {
            self.last_checkpoint.insert(key, *current_params);
        }
        let next: u64 = self.next_baseline(current_loss);
        self.remember(next);
        None
    }

    fn spike(&self, loss: u64) -> (r: bool)
        ensures
            r == is_spike(self.history(), self.max_increase(), loss),
    {
        let n: usize = self.loss_history.len();
        let baseline: u64 = if n == 0 {
            loss
        } else {
            self.loss_history[n - 1]
        };
        proof {
            crate::ratio::lemma_product_fits(baseline, self.max_loss_increase);
            let (b, m) = (baseline as int, self.max_loss_increase as int);
            assert(b * (1000 + m) == b * 1000 + b * m) by (nonlinear_arith);
            assert(b * m >= 0) by (nonlinear_arith)
                requires
                    b >= 0,
                    m >= 0,
            ;
        }
        baseline >= MIN_BASELINE_FOR_SAFETY && loss > baseline && (loss - baseline) as u128 * 1000
            > baseline as u128 * self.max_loss_increase as u128
    }

    fn next_baseline(&self, loss: u64) -> (r: u64)
        ensures
            r == smoothed(self.history(), loss),
    {
        let n: usize = self.loss_history.len();
        if n == 0 {
            return loss;
        }
        ((3 * loss as u128 + 7 * self.loss_history[n - 1] as u128) / 10) as u64
    }

    fn remember(&mut self, loss: u64)
        requires
            old(self).wf(),
        ensures
            final(self).wf(),
            final(self).history() == remembered(old(self).history(), loss),
            final(self).same_but_history(*old(self)),
    {
        self.loss_history.push_back(loss);
        if self.loss_history.len() > LOSS_HISTORY {
            let _ = self.loss_history.pop_front();
            assert(self.loss_history@ =~= remembered(old(self).loss_history@, loss));
        }
    }

    closed spec fn same_but_history(&self, other: SafetyMonitor) -> bool {
        &&& self.last_checkpoint == other.last_checkpoint
        &&& self.update_counter == other.update_counter
        &&& self.observation_count == other.observation_count
        &&& self.max_loss_increase == other.max_loss_increase
        &&& self.restoration_count == other.restoration_count
    }

    /// Whether a loss lies above that of a checkpoint by more than the increase.
    pub fn is_degradation(&self, current_loss: u64, checkpoint_loss: u64) -> (r: bool)
        ensures
            r == (checkpoint_loss != 0 && (current_loss - checkpoint_loss) * 1000
                > self.max_increase() * checkpoint_loss),
    {
        proof {
            crate::ratio::lemma_product_fits(self.max_loss_increase, checkpoint_loss);
        }
        checkpoint_loss != 0 && current_loss > checkpoint_loss && (current_loss - checkpoint_loss)
            as u128 * 1000 > self.max_loss_increase as u128 * checkpoint_loss as u128
    }

    /// What the monitor has done.
    pub fn get_stats(&self) -> (r: SafetyStats)
        requires
            self.wf(),
        ensures
            r.checkpoints_stored == self.checkpoints(),
            r.loss_history_size == self.history().len(),
            r.restorations == self.restorations(),
    {
        SafetyStats {
            checkpoints_stored: self.last_checkpoint.len(),
            loss_history_size: self.loss_history.len(),
            restorations: self.restoration_count,
        }
    }

    /// Remembers a loss without an observation.
    pub fn record_loss(&mut self, loss: u64)
        requires
            old(self).wf(),
        ensures
            final(self).wf(),
            final(self).history() == remembered(old(self).history(), loss),
            final(self).max_increase() == old(self).max_increase(),
            final(self).restorations() == old(self).restorations(),
            final(self).checkpoints() == old(self).checkpoints(),
            forall|c: u32, k: u32|
                #[trigger] final(self).observations(c, k) == old(self).observations(c, k),
            forall|c: u32, k: u32| #[trigger] final(self).updates(c, k) == old(self).updates(c, k),
            forall|c: u32, k: u32|
                #[trigger] final(self).checkpoint(c, k) == old(self).checkpoint(c, k),
    {
        self.remember(loss);
    }

    /// The relative change of the loss, as a numerator and a denominator.
    pub fn get_loss_trend(&self) -> (r: (i128, i128))
        requires
            self.wf(),
        ensures
            (r.0 as int, r.1 as int) == trend(self.history()),
    {
        let n: usize = self.loss_history.len();
        let m: usize = if n < 10 {
            0
        } else if n < 20 {
            n - 10
        } else {
            10
        };
        if m == 0 {
            return (0, 1);
        }
        let recent: u128 = sum_of(&self.loss_history, n - 10, n);
        let older: u128 = sum_of(&self.loss_history, n - 10 - m, n - 10);
        if older == 0 {
            return (0, 1);
        }
        proof {
            let (a, b) = (recent as int, m as int);
            assert(0 <= a * b <= 1000 * u64::MAX) by (nonlinear_arith)
                requires
                    0 <= a <= 100 * u64::MAX,
                    0 <= b <= 10,
            ;
        }
        (recent as i128 * m as i128 - older as i128 * 10, older as i128 * 10)
    }
}

fn sum_of(s: &VecDeque<u64>, from: usize, to: usize) -> (r: u128)
    requires
        from <= to <= s@.len(),
        to - from <= 100,
    ensures
        r == sum_between(s@, from as int, to as int),
        r <= (to - from) * u64::MAX,
{
    let mut r: u128 = 0;
    let mut i: usize = from;
    while i < to
        invariant
            from <= i <= to <= s@.len(),
            to - from <= 100,
            r == sum_between(s@, from as int, i as int),
            r <= (i - from) * u64::MAX,
        decreases to - i,
    {
        r = r + s[i] as u128;
        i = i + 1;
    }
    r
}

impl Default for SafetyMonitor {
    fn default() -> (r: Self)
        ensures
            r.wf(),
            r.fresh(),
            r.max_increase() == DEFAULT_MAX_LOSS_INCREASE,
    {
        SafetyMonitor::new()
    }
}

/// `after` is a monitor after it took in the loss of a CPU and class with the parameters
/// that led to it, and `r` is what it answered.
pub open spec fn is_check(
    before: SafetyMonitor,
    cpu: u32,
    class: u32,
    loss: u64,
    params: [u64; 5],
    after: SafetyMonitor,
    r: Option<[u64; 5]>,
) -> bool {
    &&& after.wf()
    &&& after.max_increase() == before.max_increase()
    &&& after.observations(cpu, class) == before.observations(cpu, class) + 1
    &&& if before.restores(cpu, class, loss) {
        &&& r == before.checkpoint(cpu, class)
        &&& after.restorations() == before.restorations() + 1
        &&& after.history() == before.history()
        &&& after.updates(cpu, class) == before.updates(cpu, class)
        &&& after.checkpoint(cpu, class) == before.checkpoint(cpu, class)
        &&& after.checkpoints() == before.checkpoints()
    } else {
        let due = (before.updates(cpu, class) + 1) % CHECKPOINT_INTERVAL as nat == 0;
        &&& r is None
        &&& after.restorations() == before.restorations()
        &&& after.history() == remembered(before.history(), smoothed(before.history(), loss))
        &&& after.updates(cpu, class) == before.updates(cpu, class) + 1
        &&& after.checkpoint(cpu, class) == if due {
            Some(params)
        } else {
            before.checkpoint(cpu, class)
        }
        &&& after.checkpoints() == if due && before.checkpoint(cpu, class) is None {
            before.checkpoints() + 1
        } else {
            before.checkpoints()
        }
    }
    &&& forall|c: u32, k: u32|
        !(c == cpu && k == class) ==> #[trigger] after.observations(c, k) == before.observations(
            c,
            k,
        )
    &&& forall|c: u32, k: u32|
        !(c == cpu && k == class) ==> #[trigger] after.updates(c, k) == before.updates(c, k)
    &&& forall|c: u32, k: u32|
        !(c == cpu && k == class) ==> #[trigger] after.checkpoint(c, k) == before.checkpoint(c, k)
}

/// A call of a monitor: a CPU, a class, a loss, and the parameters that led to it.
pub type Check = (u32, u32, u64, [u64; 5]);

/// How many of the first `n` calls were for a CPU and class.
pub open spec fn calls_for(calls: Seq<Check>, cpu: u32, class: u32, n: int) -> nat
    decreases n,
{
    if n <= 0 {
        0
    } else {
        calls_for(calls, cpu, class, n - 1) + (if calls[n - 1].0 == cpu && calls[n - 1].1 == class {
            1nat
        } else {
            0nat
        })
    }
}

/// How many of the first `n` calls were for a CPU and class and restored nothing.
pub open spec fn passes_for(
    calls: Seq<Check>,
    answers: Seq<Option<[u64; 5]>>,
    cpu: u32,
    class: u32,
    n: int,
) -> nat
    decreases n,
{
    if n <= 0 {
        0
    } else {
        passes_for(calls, answers, cpu, class, n - 1) + (if calls[n - 1].0 == cpu && calls[n - 1].1
            == class && answers[n - 1] is None {
            1nat
        } else {
            0nat
        })
    }
}

/// A new monitor admits every call of a sequence. A call is answered with the checkpoint of
/// its CPU and class exactly where there is one, the call is at least the twentieth for
/// them, and its loss is a spike. What is observed for a CPU and class are the calls for
/// them so far, and what is updated are those that were not answered.
pub proof fn spikes_are_answered_with_checkpoints(
    trace: Seq<SafetyMonitor>,
    calls: Seq<Check>,
    answers: Seq<Option<[u64; 5]>>,
    k: int,
)
    requires
        trace.len() == calls.len() + 1,
        answers.len() == calls.len(),
        calls.len() <= usize::MAX,
        trace[0].wf(),
        trace[0].fresh(),
        forall|j: int|
            0 <= j < calls.len() && trace[j].has_room(calls[j].0, calls[j].1, calls[j].2)
                ==> is_check(
                trace[j],
                (#[trigger] calls[j]).0,
                calls[j].1,
                calls[j].2,
                calls[j].3,
                trace[j + 1],
                answers[j],
            ),
        0 <= k < calls.len(),
    ensures
        trace[k].wf(),
        trace[k].has_room(calls[k].0, calls[k].1, calls[k].2),
        trace[k].restorations() <= k,
        forall|c: u32, l: u32|
            #[trigger] trace[k].observations(c, l) == calls_for(calls, c, l, k),
        forall|c: u32, l: u32|
            #[trigger] trace[k].updates(c, l) == passes_for(calls, answers, c, l, k),
        ({
            let (cpu, class, loss, _) = calls[k];
            &&& answers[k] is Some <==> {
                &&& calls_for(calls, cpu, class, k + 1) >= MIN_OBSERVATIONS_FOR_SAFETY
                &&& is_spike(trace[k].history(), trace[k].max_increase(), loss)
                &&& trace[k].checkpoint(cpu, class) is Some
            }
            &&& answers[k] is Some ==> answers[k] == trace[k].checkpoint(cpu, class)
        }),
    decreases k,
{
    if k > 0 {
        spikes_are_answered_with_checkpoints(trace, calls, answers, k - 1);
        let (before, after) = (trace[k - 1], trace[k]);
        let (cpu, class, loss, params) = calls[k - 1];
        assert(is_check(
            before,
            calls[k - 1].0,
            calls[k - 1].1,
            calls[k - 1].2,
            calls[k - 1].3,
            after,
            answers[k - 1],
        ));
        assert forall|c: u32, l: u32| #[trigger] after.observations(c, l) == calls_for(
            calls,
            c,
            l,
            k,
        ) by {
            assert(before.observations(c, l) == calls_for(calls, c, l, k - 1));
        }
        assert forall|c: u32, l: u32| #[trigger] after.updates(c, l) == passes_for(
            calls,
            answers,
            c,
            l,
            k,
        ) by {
            assert(before.updates(c, l) == passes_for(calls, answers, c, l, k - 1));
        }
    }
    let (cpu, class, loss, params) = calls[k];
    lemma_calls_bounded(calls, answers, cpu, class, k);
    assert(trace[k].observations(cpu, class) == calls_for(calls, cpu, class, k));
    assert(trace[k].updates(cpu, class) == passes_for(calls, answers, cpu, class, k));
    assert(trace[k].has_room(calls[k].0, calls[k].1, calls[k].2));
    assert(is_check(
        trace[k],
        calls[k].0,
        calls[k].1,
        calls[k].2,
        calls[k].3,
        trace[k + 1],
        answers[k],
    ));
}

proof fn lemma_calls_bounded(
    calls: Seq<Check>,
    answers: Seq<Option<[u64; 5]>>,
    cpu: u32,
    class: u32,
    n: int,
)
    requires
        0 <= n,
    ensures
        calls_for(calls, cpu, class, n) <= n,
        passes_for(calls, answers, cpu, class, n) <= n,
    decreases n,
{
    if n > 0 {
        lemma_calls_bounded(calls, answers, cpu, class, n - 1);
    }
}

/// A smoothed loss lies between the smoothed loss so far and the new loss.
pub proof fn smoothed_losses_stay_between(history: Seq<u64>, loss: u64)
    requires
        history.len() > 0,
    ensures
        history.last() <= loss ==> history.last() <= smoothed(history, loss) <= loss,
        loss <= history.last() ==> loss <= smoothed(history, loss) <= history.last(),
{
}

/// With a smoothed loss to go by, a loss above it by more than the increase is answered with
/// the checkpoint, and nothing else is: the smoothed loss has to be at least 50, and the
/// call at least the twentieth for the CPU and class. Losses without history are let
/// through.
pub proof fn losses_above_the_threshold_are_answered(
    before: SafetyMonitor,
    cpu: u32,
    class: u32,
    loss: u64,
    params: [u64; 5],
    after: SafetyMonitor,
    r: Option<[u64; 5]>,
)
    requires
        is_check(before, cpu, class, loss, params, after, r),
    ensures
        before.history().len() == 0 ==> r is None,
        before.history().len() > 0 ==> {
            let smooth = before.history().last();
            r is Some <==> {
                &&& smooth >= 50_000
                &&& loss * 1000 > smooth * (1000 + before.max_increase())
                &&& before.observations(cpu, class) >= 19
                &&& before.checkpoint(cpu, class) is Some
            }
        },
        r is Some ==> r == before.checkpoint(cpu, class),
{
    if before.history().len() == 0 {
        let m = before.max_increase() as int;
        assert(loss * (1000 + m) >= loss * 1000) by (nonlinear_arith)
            requires
                m >= 0,
                loss >= 0,
        ;
    }
}

/// A loss that is answered with the checkpoint is answered with it also if it is larger.
pub proof fn larger_losses_are_answered_too(
    before: SafetyMonitor,
    cpu: u32,
    class: u32,
    losses: (u64, u64),
    params: ([u64; 5], [u64; 5]),
    after: (SafetyMonitor, SafetyMonitor),
    r: (Option<[u64; 5]>, Option<[u64; 5]>),
)
    requires
        losses.0 <= losses.1,
        is_check(before, cpu, class, losses.0, params.0, after.0, r.0),
        is_check(before, cpu, class, losses.1, params.1, after.1, r.1),
    ensures
        r.0 is Some ==> r.1 == r.0,
        before.history().len() > 0 && is_spike(before.history(), before.max_increase(), losses.0)
            ==> is_spike(before.history(), before.max_increase(), losses.1),
{
    losses_above_the_threshold_are_answered(
        before,
        cpu,
        class,
        losses.0,
        params.0,
        after.0,
        r.0,
    );
    losses_above_the_threshold_are_answered(
        before,
        cpu,
        class,
        losses.1,
        params.1,
        after.1,
        r.1,
    );
}

/// A loss that is let through enters the smoothed loss with three tenths of its weight, or
/// as it is where it is the first. The newest hundred smoothed losses are kept in order. The
/// parameters become the checkpoint with every tenth loss that is let through, and only
/// then. A loss that is answered leaves no trace in them.
pub proof fn losses_let_through_are_learned_from(
    before: SafetyMonitor,
    cpu: u32,
    class: u32,
    loss: u64,
    params: [u64; 5],
    after: SafetyMonitor,
    r: Option<[u64; 5]>,
)
    requires
        before.wf(),
        is_check(before, cpu, class, loss, params, after, r),
    ensures
        r is Some ==> after.history() == before.history() && after.checkpoint(cpu, class)
            == before.checkpoint(cpu, class) && after.restorations() == before.restorations() + 1,
        r is None ==> {
            let (old_losses, new_losses) = (before.history(), after.history());
            &&& after.restorations() == before.restorations()
            &&& new_losses.len() == if old_losses.len() < 100 { old_losses.len() + 1 } else { 100 }
            &&& old_losses.len() == 0 ==> new_losses.last() == loss
            &&& old_losses.len() > 0 ==> 10 * new_losses.last() <= 3 * loss + 7 * old_losses.last()
                < 10 * new_losses.last() + 10
            &&& forall|i: int|
                0 <= i < new_losses.len() - 1 ==> #[trigger] new_losses[i] == old_losses[i
                    + old_losses.len() + 1 - new_losses.len()]
            &&& after.checkpoint(cpu, class) == if (before.updates(cpu, class) + 1) % 10 == 0 {
                Some(params)
            } else {
                before.checkpoint(cpu, class)
            }
        },
{
}

proof fn lemma_constant_sum(s: Seq<u64>, from: int, to: int, value: int)
    requires
        from <= to,
        forall|i: int| from <= i < to ==> s[i] == value,
    ensures
        sum_between(s, from, to) == (to - from) * value,
    decreases to - from,
{
    if from < to {
        lemma_constant_sum(s, from, to - 1, value);
        assert((to - 1 - from) * value + value == (to - from) * value) by (nonlinear_arith);
    } else {
        assert((to - from) * value == 0) by (nonlinear_arith)
            requires
                to == from,
        ;
    }
}

/// The trend is the relative change of the mean: from losses of `b` to ten losses of `a` it is
/// the difference as a part of `b`. Up to ten losses show no trend.
pub proof fn trends_are_relative_changes(h: Seq<u64>, a: int, b: int)
    requires
        b > 0,
        forall|i: int| h.len() - 10 <= i < h.len() && i >= 0 ==> h[i] == a,
        forall|i: int| h.len() - 20 <= i < h.len() - 10 && i >= 0 ==> h[i] == b,
    ensures
        h.len() <= 10 ==> trend(h) == (0int, 1int),
        h.len() > 10 ==> trend(h).1 > 0 && trend(h).0 * b == (a - b) * trend(h).1,
{
    let n = h.len() as int;
    if n > 10 {
        let m = if n < 20 {
            n - 10
        } else {
            10
        };
        lemma_constant_sum(h, n - 10, n, a);
        lemma_constant_sum(h, n - 10 - m, n - 10, b);
        let (recent, older) = (10 * a, m * b);
        assert(sum_between(h, n - 10 - m, n - 10) == older);
        assert(older > 0) by (nonlinear_arith)
            requires
                older == m * b,
                m > 0,
                b > 0,
        ;
        assert((recent * m - older * 10) * b == (a - b) * (older * 10)) by (nonlinear_arith)
            requires
                recent == 10 * a,
                older == m * b,
        ;
    }
}

/// A trend rises where each of the last ten losses lies above all of the ten before, and falls
/// where each lies below.
pub proof fn trends_follow_the_losses(h: Seq<u64>, bar: int)
    requires
        h.len() > 10,
        sum_between(
            h,
            if h.len() < 20 {
                0
            } else {
                h.len() - 20
            },
            h.len() - 10,
        ) > 0,
    ensures
        (forall|i: int| h.len() - 10 <= i < h.len() ==> h[i] >= bar) && (forall|i: int|
            h.len() - 20 <= i < h.len() - 10 && i >= 0 ==> h[i] <= bar) ==> trend(h).0 >= 0,
        (forall|i: int| h.len() - 10 <= i < h.len() ==> h[i] <= bar) && (forall|i: int|
            h.len() - 20 <= i < h.len() - 10 && i >= 0 ==> h[i] >= bar) ==> trend(h).0 <= 0,
        trend(h).1 > 0,
{
    let n = h.len() as int;
    let m = if n < 20 {
        n - 10
    } else {
        10
    };
    let (recent, older) = (sum_between(h, n - 10, n), sum_between(h, n - 10 - m, n - 10));
    if (forall|i: int| n - 10 <= i < n ==> h[i] >= bar) && (forall|i: int|
        n - 20 <= i < n - 10 && i >= 0 ==> h[i] <= bar) {
        lemma_sum_bounds(h, n - 10, n, bar);
        lemma_sum_bounds(h, n - 10 - m, n - 10, bar);
        assert(recent * m >= older * 10) by (nonlinear_arith)
            requires
                recent >= 10 * bar,
                older <= m * bar,
                m > 0,
        ;
    }
    if (forall|i: int| n - 10 <= i < n ==> h[i] <= bar) && (forall|i: int|
        n - 20 <= i < n - 10 && i >= 0 ==> h[i] >= bar) {
        lemma_sum_bounds(h, n - 10, n, bar);
        lemma_sum_bounds(h, n - 10 - m, n - 10, bar);
        assert(recent * m <= older * 10) by (nonlinear_arith)
            requires
                recent <= 10 * bar,
                older >= m * bar,
                m > 0,
        ;
    }
}

proof fn lemma_sum_bounds(s: Seq<u64>, from: int, to: int, bar: int)
    requires
        from <= to,
    ensures
        (forall|i: int| from <= i < to ==> s[i] >= bar) ==> sum_between(s, from, to) >= (to - from)
            * bar,
        (forall|i: int| from <= i < to ==> s[i] <= bar) ==> sum_between(s, from, to) <= (to - from)
            * bar,
    decreases to - from,
{
    if from < to {
        lemma_sum_bounds(s, from, to - 1, bar);
        assert((to - 1 - from) * bar + bar == (to - from) * bar) by (nonlinear_arith);
    } else {
        assert((to - from) * bar == 0) by (nonlinear_arith)
            requires
                to == from,
        ;
    }
}

} // verus!
