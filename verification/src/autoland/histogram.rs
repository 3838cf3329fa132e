//! A latency histogram that forgets old samples.
//!
//! Weights of buckets are held in millionths of a sample.

use vstd::prelude::*;

use crate::autoland::pid_tail_latency_controller::{
    bounds_double_from_bucket_to_bucket, bucket_bound, bucket_bound_ns, new_samples,
    LATENCY_HISTOGRAM_BUCKETS,
};

verus! {

/// The largest weight of a bucket.
pub const MAX_WEIGHT: u128 = 0xffff_ffff_ffff_ffff * 1_000_000;

/// The weight without which no percentile is taken: ten samples.
pub const MIN_WEIGHT: u128 = 10_000_000;

/// A latency histogram that forgets old samples.
#[derive(Clone, Copy, Debug)]
pub struct EmaHistogram {
    /// Weight of each bucket, in millionths.
    pub ema_buckets: [u128; LATENCY_HISTOGRAM_BUCKETS],
    /// The raw histogram as of the last look.
    pub prev_raw_histogram: [u64; LATENCY_HISTOGRAM_BUCKETS],
    /// Weight of new samples, in thousandths.
    pub alpha: u64,
}

/// The weight of new samples, in thousandths, between 1% and 99%.
pub open spec fn histogram_alpha(alpha: i64) -> u64 {
    if alpha < 10 {
        10
    } else if alpha > 990 {
        990
    } else {
        alpha as u64
    }
}

/// The weight of a bucket after so many new samples, rounded down.
pub open spec fn next_weight(weight: u128, new: u64, alpha: u64) -> int {
    (weight * (1000 - alpha) + new * 1_000_000 * alpha) / 1000
}

/// The sum of the first `n` weights.
pub open spec fn weight_sum(s: Seq<u128>, n: int) -> int
    decreases n,
{
    if n <= 0 {
        0
    } else {
        weight_sum(s, n - 1) + s[n - 1]
    }
}

/// The first bucket from `from` on up to which 99% of all weight lies; the last bucket
/// if none.
pub open spec fn p99_bucket(s: Seq<u128>, total: int, from: int) -> int
    decreases s.len() - from,
{
    if from < 0 || from >= s.len() - 1 {
        s.len() - 1
    } else if weight_sum(s, from + 1) * 100 >= total * 99 {
        from
    } else {
        p99_bucket(s, total, from + 1)
    }
}

proof fn lemma_sum_fits(s: Seq<u128>, n: int)
    requires
        0 <= n <= s.len(),
        forall|i: int| 0 <= i < s.len() ==> #[trigger] s[i] <= MAX_WEIGHT,
    ensures
        0 <= weight_sum(s, n) <= n * MAX_WEIGHT,
        n <= 16 ==> weight_sum(s, n) <= 16 * MAX_WEIGHT,
    decreases n,
{
    let m = MAX_WEIGHT as int;
    if n > 0 {
        lemma_sum_fits(s, n - 1);
        assert(s[n - 1] <= MAX_WEIGHT);
        assert((n - 1) * m + m == n * m) by (nonlinear_arith);
    }
    assert(n <= 16 ==> n * m <= 16 * m) by (nonlinear_arith)
        requires
            m >= 0,
    ;
}

impl EmaHistogram {
    /// Weights and the weight of new samples are within their limits.
    pub open spec fn wf(self) -> bool {
        &&& 10 <= self.alpha <= 990
        &&& forall|i: int|
            0 <= i < LATENCY_HISTOGRAM_BUCKETS ==> #[trigger] self.ema_buckets@[i] <= MAX_WEIGHT
    }

    /// There is no weight and no sample.
    pub open spec fn empty(self) -> bool {
        &&& forall|i: int|
            0 <= i < LATENCY_HISTOGRAM_BUCKETS ==> #[trigger] self.ema_buckets@[i] == 0
        &&& forall|i: int|
            0 <= i < LATENCY_HISTOGRAM_BUCKETS ==> #[trigger] self.prev_raw_histogram@[i] == 0
    }

    /// A histogram without samples; `alpha`, in thousandths, is brought between 1% and
    /// 99%.
    pub fn new(alpha: i64) -> (r: Self)
        ensures
            r.wf(),
            r.empty(),
            r.alpha == histogram_alpha(alpha),
    {
        EmaHistogram {
            ema_buckets: [0; LATENCY_HISTOGRAM_BUCKETS],
            prev_raw_histogram: [0; LATENCY_HISTOGRAM_BUCKETS],
            alpha: if alpha < 10 {
                10
            } else if alpha > 990 {
                990
            } else {
                alpha as u64
            },
        }
    }

    /// `self` is `before` after the next raw histogram was taken in.
    pub open spec fn follows(self, before: EmaHistogram, raw: Seq<u64>) -> bool {
        &&& self.alpha == before.alpha
        &&& self.prev_raw_histogram@ == raw
        &&& forall|i: int|
            0 <= i < LATENCY_HISTOGRAM_BUCKETS ==> #[trigger] self.ema_buckets@[i] == next_weight(
                before.ema_buckets@[i],
                new_samples(raw[i], before.prev_raw_histogram@[i]),
                before.alpha,
            )
    }

    /// Takes in the next raw histogram.
    pub fn update(&mut self, new_raw_histogram: &[u64; LATENCY_HISTOGRAM_BUCKETS])
        requires
            old(self).wf(),
        ensures
            final(self).wf(),
            final(self).follows(*old(self), new_raw_histogram@),
    {
        let mut i: usize = 0;
        while i < LATENCY_HISTOGRAM_BUCKETS
            invariant
                i <= 16,
                old(self).wf(),
                self.wf(),
                self.alpha == old(self).alpha,
                self.prev_raw_histogram == old(self).prev_raw_histogram,
                forall|j: int|
                    0 <= j < i ==> #[trigger] self.ema_buckets@[j] == next_weight(
                        old(self).ema_buckets@[j],
                        new_samples(new_raw_histogram@[j], old(self).prev_raw_histogram@[j]),
                        old(self).alpha,
                    ),
                forall|j: int|
                    i <= j < 16 ==> #[trigger] self.ema_buckets@[j] == old(self).ema_buckets@[j],
            decreases 16 - i,
        {
            let new: u64 = new_raw_histogram[i].saturating_sub(self.prev_raw_histogram[i]);
            let weight: u128 = self.ema_buckets[i];
            assert(self.ema_buckets@[i as int] <= MAX_WEIGHT);
            proof {
                let (w, n, a, m) = (
                    weight as int,
                    new * 1_000_000,
                    self.alpha as int,
                    MAX_WEIGHT as int,
                );
                assert(0 <= w * (1000 - a) <= m * (1000 - a)) by (nonlinear_arith)
                    requires
                        0 <= w <= m,
                        0 <= a <= 1000,
                ;
                assert(0 <= n * a <= m * a) by (nonlinear_arith)
                    requires
                        0 <= n <= m,
                        0 <= a <= 1000,
                ;
                assert(m * (1000 - a) + m * a == m * 1000) by (nonlinear_arith);
            }
            self.ema_buckets[i] = (weight * (1000 - self.alpha) as u128 + new as u128 * 1_000_000
                * self.alpha as u128) / 1000;
            i = i + 1;
        }
        self.prev_raw_histogram = *new_raw_histogram;
    }

    /// The weight of all buckets.
    pub open spec fn weight(self) -> int {
        weight_sum(self.ema_buckets@, LATENCY_HISTOGRAM_BUCKETS as int)
    }

    /// The upper bound of the bucket that the 99th percentile lies in, in nanoseconds, if
    /// there is enough weight.
    pub open spec fn p99(self) -> Option<u64> {
        if self.weight() < MIN_WEIGHT {
            None
        } else {
            Some(bucket_bound(p99_bucket(self.ema_buckets@, self.weight(), 0)) as u64)
        }
    }

    /// The upper bound of the bucket that the 99th percentile lies in.
    pub fn calculate_p99(&self) -> (r: Option<u64>)
        requires
            self.wf(),
        ensures
            r == self.p99(),
            r matches Some(p) ==> 1000 <= p <= 32_768_000,
    {
        let total: u128 = self.total_weight();
        if total < MIN_WEIGHT {
            return None;
        }
        let mut cumulative: u128 = 0;
        let mut idx: usize = 0;
        while idx < LATENCY_HISTOGRAM_BUCKETS - 1
            invariant
                idx <= 15,
                self.wf(),
                MIN_WEIGHT <= total == self.weight() <= 16 * MAX_WEIGHT,
                cumulative == weight_sum(self.ema_buckets@, idx as int),
                p99_bucket(self.ema_buckets@, total as int, 0) == p99_bucket(
                    self.ema_buckets@,
                    total as int,
                    idx as int,
                ),
            decreases 15 - idx,
        {
            proof {
                lemma_sum_fits(self.ema_buckets@, idx + 1);
            }
            cumulative = cumulative + self.ema_buckets[idx];
            if cumulative * 100 >= total * 99 {
                return Some(bucket_bound_ns(idx));
            }
            idx = idx + 1;
        }
        Some(bucket_bound_ns(LATENCY_HISTOGRAM_BUCKETS - 1))
    }

    /// The weight of all buckets, in millionths.
    pub fn total_weight(&self) -> (r: u128)
        requires
            self.wf(),
        ensures
            r == self.weight(),
            r <= 16 * MAX_WEIGHT,
    {
        let mut r: u128 = 0;
        let mut i: usize = 0;
        while i < LATENCY_HISTOGRAM_BUCKETS
            invariant
                i <= 16,
                self.wf(),
                r == weight_sum(self.ema_buckets@, i as int),
                r <= 16 * MAX_WEIGHT,
            decreases 16 - i,
        {
            proof {
                lemma_sum_fits(self.ema_buckets@, i + 1);
            }
            r = r + self.ema_buckets[i];
            i = i + 1;
        }
        r
    }

    /// Forgets all samples.
    pub fn reset(&mut self)
        requires
            old(self).wf(),
        ensures
            final(self).wf(),
            final(self).empty(),
            final(self).alpha == old(self).alpha,
    {
        self.ema_buckets = [0; LATENCY_HISTOGRAM_BUCKETS];
        self.prev_raw_histogram = [0; LATENCY_HISTOGRAM_BUCKETS];
    }

    /// The weight of new samples, in thousandths.
    pub fn alpha(&self) -> (r: u64)
        ensures
            r == self.alpha,
    {
        self.alpha
    }
}

/// Weights are summed bucket by bucket, and the weight of all is the sum of all sixteen.
pub proof fn weights_are_summed(s: Seq<u128>, n: int)
    requires
        n >= 0,
    ensures
        weight_sum(s, 0) == 0,
        weight_sum(s, n + 1) == weight_sum(s, n) + s[n],
        weight_sum(s, 16) == s[0] + s[1] + s[2] + s[3] + s[4] + s[5] + s[6] + s[7] + s[8] + s[9]
            + s[10] + s[11] + s[12] + s[13] + s[14] + s[15],
{
    reveal_with_fuel(weight_sum, 17);
}

proof fn lemma_weight_grows(s: Seq<u128>, a: int, b: int)
    requires
        a <= b,
    ensures
        weight_sum(s, a) <= weight_sum(s, b),
    decreases b - a,
{
    if a < b {
        lemma_weight_grows(s, a, b - 1);
    }
}

proof fn lemma_p99_bucket(s: Seq<u128>, total: int, from: int)
    requires
        0 <= from < s.len(),
        total == weight_sum(s, s.len() as int),
        total > 0,
        weight_sum(s, from) * 100 < total * 99,
    ensures
        ({
            let b = p99_bucket(s, total, from);
            &&& from <= b < s.len()
            &&& weight_sum(s, b + 1) * 100 >= total * 99
            &&& weight_sum(s, b) * 100 < total * 99
        }),
    decreases s.len() - from,
{
    if from < s.len() - 1 && weight_sum(s, from + 1) * 100 < total * 99 {
        lemma_p99_bucket(s, total, from + 1);
    }
}

/// A percentile is taken from ten samples on. It is the bound of a bucket with weight: up to
/// that bucket lie at least 99 hundredths of all weight, and before it less.
pub proof fn percentiles_split_the_weight(h: EmaHistogram)
    requires
        h.wf(),
    ensures
        h.p99() is None <==> weight_sum(h.ema_buckets@, 16) < 10_000_000,
        h.p99() matches Some(p) ==> exists|b: int|
            {
                let total = weight_sum(h.ema_buckets@, 16);
                &&& 0 <= b < 16
                &&& p == #[trigger] bucket_bound(b)
                &&& h.ema_buckets@[b] > 0
                &&& weight_sum(h.ema_buckets@, b + 1) * 100 >= total * 99
                &&& weight_sum(h.ema_buckets@, b) * 100 < total * 99
            },
{
    let s = h.ema_buckets@;
    let total = h.weight();
    if total >= MIN_WEIGHT {
        lemma_p99_bucket(s, total, 0);
        let b = p99_bucket(s, total, 0);
        bounds_double_from_bucket_to_bucket(b);
        assert(h.p99() == Some(bucket_bound(b) as u64));
    }
}

/// The percentile lies above the bound of a bucket exactly where more than a hundredth of
/// all weight lies beyond that bucket: no tail of that size is overlooked, and no smaller
/// one counts.
pub proof fn percentiles_see_the_tail(h: EmaHistogram, k: int)
    requires
        h.wf(),
        0 <= k < 16,
        weight_sum(h.ema_buckets@, 16) >= 10_000_000,
    ensures
        h.p99() matches Some(p) && (p > bucket_bound(k) <==> (weight_sum(h.ema_buckets@, 16)
            - weight_sum(h.ema_buckets@, k + 1)) * 100 > weight_sum(h.ema_buckets@, 16)),
{
    let s = h.ema_buckets@;
    let total = h.weight();
    lemma_p99_bucket(s, total, 0);
    let b = p99_bucket(s, total, 0);
    bounds_double_from_bucket_to_bucket(b);
    if b <= k {
        lemma_weight_grows(s, b + 1, k + 1);
        lemma_bounds_grow(b, k);
    } else {
        lemma_weight_grows(s, k + 1, b);
        lemma_bounds_grow(k, b);
    }
}

proof fn lemma_bounds_grow(a: int, b: int)
    requires
        0 <= a <= b,
    ensures
        bucket_bound(a) <= bucket_bound(b),
        a < b ==> bucket_bound(a) < bucket_bound(b),
        bucket_bound(a) > 0,
    decreases b,
{
    bounds_double_from_bucket_to_bucket(a);
    if a < b {
        lemma_bounds_grow(a, b - 1);
        bounds_double_from_bucket_to_bucket(b - 1);
    }
}

/// A look without new samples takes the share of new samples off every weight, and a look
/// moves a weight toward what is new, never beyond it.
pub proof fn weights_follow_new_samples(weight: u128, new: u64, more: u64, alpha: u64)
    requires
        10 <= alpha <= 990,
        new <= more,
    ensures
        weight <= new * 1_000_000 ==> weight <= next_weight(weight, new, alpha) <= new * 1_000_000,
        weight >= new * 1_000_000 ==> new * 1_000_000 <= next_weight(weight, new, alpha) <= weight,
        next_weight(weight, new, alpha) <= next_weight(weight, more, alpha),
        new == 0 ==> 1000 * next_weight(weight, new, alpha) <= weight * (1000 - alpha) < 1000
            * next_weight(weight, new, alpha) + 1000,
        weight == 0 ==> next_weight(weight, new, alpha) == new * 1000 * alpha,
{
    let (w, n, m, a) = (weight as int, new * 1_000_000, more * 1_000_000, alpha as int);
    assert(w * (1000 - a) + n * a == 1000 * w + a * (n - w)) by (nonlinear_arith);
    assert(n * a <= m * a) by (nonlinear_arith)
        requires
            n <= m,
            a >= 0,
    ;
    if n >= w {
        assert(0 <= a * (n - w) <= 1000 * (n - w)) by (nonlinear_arith)
            requires
                0 <= a <= 1000,
                n >= w,
        ;
    } else {
        assert(1000 * (n - w) <= a * (n - w) <= 0) by (nonlinear_arith)
            requires
                0 <= a <= 1000,
                n < w,
        ;
    }
    assert(0 * a == 0 && 0 * (1000 - a) == 0);
    assert(new * 1_000_000 * alpha == 1000 * (new * 1000 * alpha)) by (nonlinear_arith);
}

/// The weight of new samples is the one asked for, brought between one hundredth and 99.
pub proof fn weights_are_brought_into_range(alpha: i64)
    ensures
        10 <= histogram_alpha(alpha) <= 990,
        10 <= alpha <= 990 ==> histogram_alpha(alpha) == alpha,
        alpha <= 10 ==> histogram_alpha(alpha) == 10,
        alpha >= 990 ==> histogram_alpha(alpha) == 990,
{
}

/// A bucket that gained samples since the last look takes in just those; one that gained none
/// only loses weight.
pub proof fn only_new_samples_count(before: EmaHistogram, raw: Seq<u64>, after: EmaHistogram, i: int)
    requires
        before.wf(),
        raw.len() == 16,
        0 <= i < 16,
        after.follows(before, raw),
    ensures
        ({
            let (w, r, p) = (
                before.ema_buckets@[i] as int,
                after.ema_buckets@[i] as int,
                before.prev_raw_histogram@[i] as int,
            );
            let a = before.alpha as int;
            &&& raw[i] <= p ==> 1000 * r <= w * (1000 - a) < 1000 * r + 1000
            &&& raw[i] > p ==> 1000 * r <= w * (1000 - a) + (raw[i] - p) * 1_000_000 * a < 1000 * r
                + 1000
            &&& after.prev_raw_histogram@ == raw
            &&& after.alpha == before.alpha
        }),
{
    let a = before.alpha as int;
    assert(0 * 1_000_000 * a == 0) by (nonlinear_arith);
}

} // verus!
