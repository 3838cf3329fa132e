//! What the gradient optimizer is fed with, and the detection of oscillation.

use std::collections::VecDeque;

use vstd::prelude::*;

verus! {

/// Raw losses that the kernel side measured.
#[derive(Debug, Clone, Copy, PartialEq, Eq, Structural)]
pub struct RawLosses {
    pub latency_sum: u64,
    pub sample_count: u32,
    pub deadline_misses: u64,
    pub cpu_time_ns: u64,
    pub target_share_ns: u64,
}

/// A measurement of the loss on both sides of a parameter.
#[derive(Debug, Clone, Copy, PartialEq, Eq, Structural)]
pub struct GradientEvent {
    pub cpu_id: i32,
    pub class_id: u32,
    pub param_idx: i32,
    pub loss_plus: u64,
    pub loss_minus: u64,
    pub epsilon: u64,
    pub timestamp: u64,
}

/// Sign of a gradient.
#[derive(Debug, Clone, Copy, PartialEq, Eq, Structural)]
pub enum Sign {
    Negative,
    Zero,
    Positive,
}

/// The number of values that are looked at.
pub const OSCILLATION_WINDOW: usize = 20;

/// The number of values without which nothing is decided.
pub const OSCILLATION_MIN: usize = 10;

/// Detects gradients that keep changing their sign.
#[derive(Debug)]
pub struct OscillationDetector {
    /// Signs of the last values.
    pub history: VecDeque<Sign>,
}

/// `a` and `b` are opposite.
pub open spec fn opposite(a: Sign, b: Sign) -> bool {
    ||| a == Sign::Positive && b == Sign::Negative
    ||| a == Sign::Negative && b == Sign::Positive
}

/// The number of neighbours among the first `n` values that are opposite.
pub open spec fn sign_changes(s: Seq<Sign>, n: int) -> int
    decreases n,
{
    if n <= 1 {
        0
    } else {
        sign_changes(s, n - 1) + (if opposite(s[n - 2], s[n - 1]) {
            1int
        } else {
            0int
        })
    }
}

/// There are enough values, and more than 60% of the neighbours are opposite.
pub open spec fn oscillates(s: Seq<Sign>) -> bool {
    s.len() >= OSCILLATION_MIN && sign_changes(s, s.len() as int) * 10 > 6 * (s.len() - 1)
}

/// The last values after one more.
pub open spec fn remembered(s: Seq<Sign>, value: Sign) -> Seq<Sign> {
    let all = s.push(value);
    if all.len() > OSCILLATION_WINDOW {
        all.skip(1)
    } else {
        all
    }
}

impl OscillationDetector {
    /// Nothing seen yet.
    pub fn new() -> (r: Self)
        ensures
            r.history@.len() == 0,
    {
        OscillationDetector { history: VecDeque::new() }
    }

    /// Takes in the sign of a value, and says whether the values oscillate.
    pub fn add(&mut self, value: Sign) -> (r: bool)
        requires
            old(self).history@.len() <= OSCILLATION_WINDOW,
        ensures
            final(self).history@ == remembered(old(self).history@, value),
            final(self).history@.len() <= OSCILLATION_WINDOW,
            r == oscillates(final(self).history@),
    {
        self.history.push_back(value);
        if self.history.len() > OSCILLATION_WINDOW {
            let ghost all = self.history@;
            let _ = self.history.pop_front();
            assert(self.history@ =~= all.skip(1));
        }
        self.detect()
    }

    /// Whether the values oscillate.
    pub fn detect(&self) -> (r: bool)
        requires
            self.history@.len() <= OSCILLATION_WINDOW,
        ensures
            r == oscillates(self.history@),
    {
        if self.history.len() < OSCILLATION_MIN {
            return false;
        }
        let mut changes: usize = 0;
        let mut i: usize = 1;
        while i < self.history.len()
            invariant
                1 <= i <= self.history@.len() <= 20,
                changes == sign_changes(self.history@, i as int),
                changes < i,
            decreases self.history@.len() - i,
        {
            let prev = self.history[i - 1];
            let curr = self.history[i];
            if (prev == Sign::Positive && curr == Sign::Negative) || (prev == Sign::Negative && curr
                == Sign::Positive) {
                changes = changes + 1;
            }
            i = i + 1;
        }
        changes * 10 > 6 * (self.history.len() - 1)
    }
}

/// Values of one sign never oscillate.
pub proof fn steady_signs_do_not_oscillate(s: Seq<Sign>)
    requires
        forall|i: int, j: int| 0 <= i < s.len() && 0 <= j < s.len() ==> s[i] == s[j],
    ensures
        !oscillates(s),
{
    lemma_no_changes(s, s.len() as int);
}

proof fn lemma_no_changes(s: Seq<Sign>, n: int)
    requires
        n <= s.len(),
        forall|i: int, j: int| 0 <= i < s.len() && 0 <= j < s.len() ==> s[i] == s[j],
    ensures
        sign_changes(s, n) == 0,
    decreases n,
{
    if n > 1 {
        lemma_no_changes(s, n - 1);
        assert(s[n - 2] == s[n - 1]);
    }
}

/// Values that alternate between the signs oscillate as soon as there are ten of them.
pub proof fn alternating_signs_oscillate(s: Seq<Sign>)
    requires
        forall|i: int| 0 <= i < s.len() ==> (#[trigger] s[i] == if i % 2 == 0 {
            s[0]
        } else {
            s[1]
        }),
        s.len() >= 2 ==> opposite(s[0], s[1]),
    ensures
        oscillates(s) <==> s.len() >= 10,
{
    lemma_all_changes(s, s.len() as int);
}

proof fn lemma_all_changes(s: Seq<Sign>, n: int)
    requires
        n <= s.len(),
        forall|i: int| 0 <= i < s.len() ==> (#[trigger] s[i] == if i % 2 == 0 {
            s[0]
        } else {
            s[1]
        }),
        s.len() >= 2 ==> opposite(s[0], s[1]),
    ensures
        n >= 1 ==> sign_changes(s, n) == n - 1,
    decreases n,
{
    if n > 1 {
        lemma_all_changes(s, n - 1);
        assert(s[n - 2] != s[n - 1]);
    }
}

/// Two lists of values that touch have the changes of both, and one more where a positive
/// and a negative value touch. Zeros never make a change.
pub proof fn changes_add_up(a: Seq<Sign>, b: Seq<Sign>)
    requires
        a.len() > 0,
        b.len() > 0,
    ensures
        ({
            let (x, y) = (a.last(), b.first());
            let touching = (x == Sign::Positive && y == Sign::Negative) || (x == Sign::Negative && y
                == Sign::Positive);
            sign_changes(a + b, (a + b).len() as int) == sign_changes(a, a.len() as int)
                + sign_changes(b, b.len() as int) + (if touching {
                1int
            } else {
                0int
            })
        }),
    decreases b.len(),
{
    let all = a + b;
    lemma_same_changes(a, all, a.len() as int);
    if b.len() == 1 {
        assert(all[all.len() - 2] == a.last());
    } else {
        let rest = b.drop_last();
        changes_add_up(a, rest);
        lemma_same_changes(a + rest, all, (a + rest).len() as int);
        lemma_same_changes(rest, b, rest.len() as int);
        assert(all[all.len() - 2] == b[b.len() - 2]);
        assert(all[all.len() - 1] == b[b.len() - 1]);
        assert(rest.first() == b.first());
    }
}

proof fn lemma_same_changes(s: Seq<Sign>, t: Seq<Sign>, n: int)
    requires
        n <= s.len(),
        n <= t.len(),
        forall|i: int| 0 <= i < n ==> s[i] == t[i],
    ensures
        sign_changes(s, n) == sign_changes(t, n),
    decreases n,
{
    if n > 1 {
        lemma_same_changes(s, t, n - 1);
    }
}

/// Six changes among ten neighbours are not enough, and fewer than ten values never are.
pub proof fn oscillation_takes_more_than_six_tenths(s: Seq<Sign>)
    ensures
        s.len() < 10 ==> !oscillates(s),
        s.len() >= 10 ==> (oscillates(s) <==> 10 * sign_changes(s, s.len() as int) > 6 * (s.len()
            - 1)),
{
}

/// A new value comes last; from the twenty-first on the oldest one is forgotten.
pub proof fn twenty_values_are_remembered(s: Seq<Sign>, value: Sign)
    ensures
        ({
            let r = remembered(s, value);
            &&& r.last() == value
            &&& s.len() < 20 ==> r.drop_last() =~= s
            &&& s.len() == 20 ==> r.len() == 20 && r.drop_last() =~= s.skip(1)
        }),
{
}

} // verus!
