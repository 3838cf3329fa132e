//! Shares of CPU time: how they move, how they are brought to a whole, and how
//! parameters follow from them.
//!
//! Shares are held in billionths.

use vstd::prelude::*;

use crate::descent::autorate::{AdjustmentDirection, ShareConfig};
use crate::descent::profiles::DESCENT_CLASS_MAX;

verus! {

/// The whole, in billionths.
pub const ONE: u64 = 1_000_000_000;

/// How far the sum of all shares may be from the whole, in billionths.
pub const SUM_TOLERANCE: u64 = 1_000_000;

/// A share given in thousandths; at most the whole.
pub open spec fn share_of(milli: u64) -> u64 {
    if milli > 1000 {
        ONE
    } else {
        (milli * 1_000_000) as u64
    }
}

/// A share given in thousandths; at most the whole.
pub fn share_from_milli(milli: u64) -> (r: u64)
    ensures
        r == share_of(milli),
        r <= ONE,
{
    if milli > 1000 {
        ONE
    } else {
        milli * 1_000_000
    }
}

/// A signed number of billionths brought into the range from nothing to the whole.
pub open spec fn unit_share(x: int) -> u64 {
    if x < 0 {
        0
    } else if x > ONE {
        ONE
    } else {
        x as u64
    }
}

/// A signed number of billionths brought into the range from nothing to the whole.
pub fn clamp_share(x: i64) -> (r: u64)
    ensures
        r == unit_share(x as int),
        r <= ONE,
{
    if x < 0 {
        0
    } else if x > 1_000_000_000 {
        ONE
    } else {
        x as u64
    }
}

/// A number of billionths brought into the range of a class.
pub open spec fn in_range(config: ShareConfig, x: int) -> u64 {
    if x < share_of(config.min_share) {
        share_of(config.min_share)
    } else if x > share_of(config.max_share) {
        share_of(config.max_share)
    } else {
        x as u64
    }
}

impl ShareConfig {
    /// A share brought into the range of this class.
    pub fn clamp(&self, share: u64) -> (r: u64)
        requires
            self.min_share <= self.max_share,
        ensures
            r == in_range(*self, share as int),
            r <= ONE,
    {
        let least: u64 = share_from_milli(self.min_share);
        let most: u64 = share_from_milli(self.max_share);
        if share < least {
            least
        } else if share > most {
            most
        } else {
            share
        }
    }
}

/// A move of the share of a class.
#[derive(Debug, Clone, Copy, PartialEq, Eq, Structural)]
pub enum ShareMove {
    /// Grow by the ramp-up rate of the class.
    RampUp,
    /// Shrink by the ramp-down rate of the class.
    BackOff,
    /// Grow by a fifth.
    Boost,
    /// Decay toward the base share.
    Decay,
}

/// Factor of a boost, in thousandths.
pub const BOOST_RATE: u64 = 1200;

impl ShareMove {
    /// The direction that a move is recorded with.
    pub open spec fn direction_spec(self) -> AdjustmentDirection {
        match self {
            ShareMove::RampUp => AdjustmentDirection::Up,
            ShareMove::BackOff => AdjustmentDirection::Down,
            ShareMove::Boost => AdjustmentDirection::Up,
            ShareMove::Decay => AdjustmentDirection::Neutral,
        }
    }

    /// The direction that a move is recorded with.
    pub fn direction(self) -> (r: AdjustmentDirection)
        ensures
            r == self.direction_spec(),
    {
        match self {
            ShareMove::RampUp => AdjustmentDirection::Up,
            ShareMove::BackOff => AdjustmentDirection::Down,
            ShareMove::Boost => AdjustmentDirection::Up,
            ShareMove::Decay => AdjustmentDirection::Neutral,
        }
    }

    /// The share after a move, rounded down.
    pub open spec fn moved(self, config: ShareConfig, share: u64) -> u64 {
        match self {
            ShareMove::RampUp => in_range(config, share * config.ramp_up_rate / 1000),
            ShareMove::BackOff => in_range(config, share * config.ramp_down_rate / 1000),
            ShareMove::Boost => in_range(config, share * BOOST_RATE / 1000),
            ShareMove::Decay => unit_share(
                share + (share_of(config.base_share) - share) * (1000 - config.decay_rate) / 1000,
            ),
        }
    }

    /// Moves a share.
    pub fn apply(self, config: &ShareConfig, share: u64) -> (r: u64)
        requires
            share <= ONE,
            config.min_share <= config.max_share,
        ensures
            r == self.moved(*config, share),
            r <= ONE,
    {
        match self {
            ShareMove::RampUp => grown(config, share, config.ramp_up_rate),
            ShareMove::BackOff => grown(config, share, config.ramp_down_rate),
            ShareMove::Boost => grown(config, share, BOOST_RATE),
            ShareMove::Decay => decayed(config, share),
        }
    }
}

fn grown(config: &ShareConfig, share: u64, rate: u64) -> (r: u64)
    requires
        share <= ONE,
        config.min_share <= config.max_share,
    ensures
        r == in_range(*config, share * rate / 1000),
        r <= ONE,
{
    proof {
        crate::ratio::lemma_product_fits(share, rate);
    }
    let x: u128 = share as u128 * rate as u128 / 1000;
    let most: u64 = share_from_milli(config.max_share);
    config.clamp(if x > most as u128 {
        most
    } else {
        x as u64
    })
}

fn decayed(config: &ShareConfig, share: u64) -> (r: u64)
    requires
        share <= ONE,
    ensures
        r == ShareMove::Decay.moved(*config, share),
        r <= ONE,
{
    let base: u64 = share_from_milli(config.base_share);
    let (dist, rest) = (base as i128 - share as i128, 1000 - config.decay_rate as i128);
    proof {
        let (a, b) = (dist as int, rest as int);
        assert(-1_000_000_000 * 0x1_0000_0000_0000_0000 <= a * b <= 1_000_000_000
            * 0x1_0000_0000_0000_0000) by (nonlinear_arith)
            requires
                -1_000_000_000 <= a <= 1_000_000_000,
                -0x1_0000_0000_0000_0000 <= b <= 1000,
        ;
    }
    let product: i128 = dist * rest;
    let step: i128 = floor_thousandth(product);
    let x: i128 = share as i128 + step;
    if x < 0 {
        0
    } else if x > 1_000_000_000 {
        ONE
    } else {
        x as u64
    }
}

fn floor_thousandth(x: i128) -> (r: i128)
    requires
        -0x1_0000_0000_0000_0000_0000_0000 <= x <= 0x1_0000_0000_0000_0000_0000_0000,
    ensures
        r == x as int / 1000,
{
    if x >= 0 {
        x / 1000
    } else {
        let size: i128 = (999 - x) / 1000;
        assert(-size == x as int / 1000);
        -size
    }
}

/// Ramps, back-offs and boosts end within the range of the class, and no move leaves
/// the range from nothing to the whole.
pub proof fn moves_stay_in_range(step: ShareMove, config: ShareConfig, share: u64)
    requires
        config.min_share <= config.max_share,
    ensures
        step.moved(config, share) <= ONE,
        step != ShareMove::Decay ==> share_of(config.min_share) <= step.moved(config, share)
            <= share_of(config.max_share),
{
}

/// Within the range of the class, a ramp and a boost never shrink the share, and a
/// back-off never grows it.
pub proof fn moves_go_their_way(config: ShareConfig, share: u64)
    requires
        share_of(config.min_share) <= share <= share_of(config.max_share),
        config.ramp_up_rate >= 1000,
        config.ramp_down_rate <= 1000,
    ensures
        ShareMove::RampUp.moved(config, share) >= share,
        ShareMove::Boost.moved(config, share) >= share,
        ShareMove::BackOff.moved(config, share) <= share,
{
    let (s, up, down) = (share as int, config.ramp_up_rate as int, config.ramp_down_rate as int);
    assert(s * up >= 1000 * s) by (nonlinear_arith)
        requires
            s >= 0,
            up >= 1000,
    ;
    assert(0 <= s * down <= 1000 * s) by (nonlinear_arith)
        requires
            s >= 0,
            0 <= down <= 1000,
    ;
}

/// Decay brings a share closer to the base share and never beyond it.
pub proof fn decay_approaches_the_base(config: ShareConfig, share: u64)
    requires
        config.decay_rate <= 1000,
        share <= ONE,
    ensures
        share >= share_of(config.base_share) ==> share_of(config.base_share)
            <= ShareMove::Decay.moved(config, share) <= share,
        share <= share_of(config.base_share) ==> share <= ShareMove::Decay.moved(config, share)
            <= share_of(config.base_share),
{
    let (a, b) = (share_of(config.base_share) - share, 1000 - config.decay_rate);
    if a >= 0 {
        assert(0 <= a * b <= 1000 * a) by (nonlinear_arith)
            requires
                a >= 0,
                0 <= b <= 1000,
        ;
    } else {
        assert(1000 * a <= a * b <= 0) by (nonlinear_arith)
            requires
                a <= 0,
                0 <= b <= 1000,
        ;
    }
}

// ---------------------------------------------------------------------------
// Normalization
// ---------------------------------------------------------------------------

/// The sum of the shares of all classes.
pub open spec fn share_sum(s: Seq<u64>) -> int {
    s[0] + s[1] + s[2] + s[3]
}

/// The shares scaled so that their sum `total` becomes the whole, none below the
/// smallest share of its class.
pub open spec fn scaled(s: Seq<u64>, total: int, configs: Seq<ShareConfig>) -> Seq<u64> {
    Seq::new(
        DESCENT_CLASS_MAX as nat,
        |i: int|
            {
                let x = s[i] * ONE / total;
                let least = share_of(configs[i].min_share);
                if x < least {
                    least
                } else {
                    x as u64
                }
            },
    )
}

/// The position of the largest of the first `n` shares; the last one of several.
pub open spec fn largest(s: Seq<u64>, n: int) -> int
    decreases n,
{
    if n <= 1 {
        0
    } else {
        let best = largest(s, n - 1);
        if s[n - 1] >= s[best] {
            n - 1
        } else {
            best
        }
    }
}

/// The shares with the largest one taking up what is missing to the whole: no more
/// than the largest share of its class and, as every share of CPU time lies between
/// nothing and the whole, no less than nothing.
pub open spec fn topped_up(s: Seq<u64>, configs: Seq<ShareConfig>) -> Seq<u64> {
    let k = largest(s, DESCENT_CLASS_MAX as int);
    let x = s[k] + ONE - share_sum(s);
    let most = share_of(configs[k].max_share);
    s.update(
        k,
        if x > most {
            most
        } else if x < 0 {
            0
        } else {
            x as u64
        },
    )
}

/// The sum of the shares is as good as the whole.
pub open spec fn sum_is_whole(s: Seq<u64>) -> bool {
    ONE - SUM_TOLERANCE <= share_sum(s) <= ONE + SUM_TOLERANCE
}

/// The base shares of all classes.
pub open spec fn base_shares(configs: Seq<ShareConfig>) -> Seq<u64> {
    Seq::new(DESCENT_CLASS_MAX as nat, |i: int| share_of(configs[i].base_share))
}

/// The shares that normalization starts from: the base shares where there is no share at
/// all.
pub open spec fn starting_shares(s: Seq<u64>, configs: Seq<ShareConfig>) -> Seq<u64> {
    if share_sum(s) == 0 {
        base_shares(configs)
    } else {
        s
    }
}

/// The shares brought to a sum of the whole.
pub open spec fn normalized(s: Seq<u64>, configs: Seq<ShareConfig>) -> Seq<u64> {
    evened(starting_shares(s, configs), configs)
}

/// Shares, unless there are none, brought to a sum of the whole.
pub open spec fn evened(s: Seq<u64>, configs: Seq<ShareConfig>) -> Seq<u64> {
    if share_sum(s) == ONE || share_sum(s) == 0 {
        s
    } else {
        let even = scaled(s, share_sum(s), configs);
        if sum_is_whole(even) {
            even
        } else {
            topped_up(even, configs)
        }
    }
}

fn sum_of(s: &[u64; DESCENT_CLASS_MAX]) -> (r: u64)
    requires
        forall|i: int| 0 <= i < DESCENT_CLASS_MAX ==> #[trigger] s[i] <= ONE,
    ensures
        r == share_sum(s@),
        r <= 4 * ONE,
{
    assert(s[0] <= ONE && s[1] <= ONE && s[2] <= ONE && s[3] <= ONE);
    s[0] + s[1] + s[2] + s[3]
}

/// Brings shares to a sum of the whole.
pub fn normalize(
    s: &[u64; DESCENT_CLASS_MAX],
    configs: &[ShareConfig; DESCENT_CLASS_MAX],
) -> (r: [u64; DESCENT_CLASS_MAX])
    requires
        forall|i: int| 0 <= i < DESCENT_CLASS_MAX ==> #[trigger] s[i] <= ONE,
    ensures
        r@ == normalized(s@, configs@),
        forall|i: int| 0 <= i < DESCENT_CLASS_MAX ==> #[trigger] r[i] <= ONE,
{
    if sum_of(s) == 0 {
        let base = [
            share_from_milli(configs[0].base_share),
            share_from_milli(configs[1].base_share),
            share_from_milli(configs[2].base_share),
            share_from_milli(configs[3].base_share),
        ];
        assert(base@ =~= base_shares(configs@));
        return even_out(&base, configs);
    }
    even_out(s, configs)
}

fn even_out(
    s: &[u64; DESCENT_CLASS_MAX],
    configs: &[ShareConfig; DESCENT_CLASS_MAX],
) -> (r: [u64; DESCENT_CLASS_MAX])
    requires
        forall|i: int| 0 <= i < DESCENT_CLASS_MAX ==> #[trigger] s[i] <= ONE,
    ensures
        r@ == evened(s@, configs@),
        forall|i: int| 0 <= i < DESCENT_CLASS_MAX ==> #[trigger] r[i] <= ONE,
{
    let total: u64 = sum_of(s);
    if total == ONE || total == 0 {
        return *s;
    }
    let mut even: [u64; DESCENT_CLASS_MAX] = [
        scale(s[0], total, configs[0].min_share),
        scale(s[1], total, configs[1].min_share),
        scale(s[2], total, configs[2].min_share),
        scale(s[3], total, configs[3].min_share),
    ];
    assert(even@ =~= scaled(s@, total as int, configs@));
    let now: u64 = sum_of(&even);
    if now > ONE + SUM_TOLERANCE || now < ONE - SUM_TOLERANCE {
        let mut best: usize = 0;
        let mut i: usize = 1;
        while i < DESCENT_CLASS_MAX
            invariant
                1 <= i <= 4,
                best < i,
                best == largest(even@, i as int),
            decreases 4 - i,
        {
            if even[i] >= even[best] {
                best = i;
            }
            i = i + 1;
        }
        let most: u64 = share_from_milli(configs[best].max_share);
        assert(even[best as int] <= ONE);
        let x: u64 = even[best] + ONE;
        let filled: u64 = if x < now {
            0
        } else if x - now > most {
            most
        } else {
            x - now
        };
        let ghost before = even@;
        even[best] = filled;
        assert(even@ =~= topped_up(before, configs@));
    }
    even
}

fn scale(share: u64, total: u64, min_milli: u64) -> (r: u64)
    requires
        share <= total,
        share <= ONE,
        total > 0,
    ensures
        r <= ONE,
        r == ({
            let x = share * ONE / (total as int);
            if x < share_of(min_milli) {
                share_of(min_milli) as int
            } else {
                x
            }
        }),
{
    proof {
        let (s, t) = (share as int, total as int);
        assert(0 <= s * 1_000_000_000 / t <= 1_000_000_000) by (nonlinear_arith)
            requires
                0 <= s <= t,
                t > 0,
        ;
    }
    let x: u64 = share * ONE / total;
    let least: u64 = share_from_milli(min_milli);
    if x < least {
        least
    } else {
        x
    }
}

proof fn lemma_largest(s: Seq<u64>, n: int)
    requires
        1 <= n <= s.len(),
    ensures
        0 <= largest(s, n) < n,
        forall|i: int| 0 <= i < n ==> #[trigger] s[i] <= s[largest(s, n)],
    decreases n,
{
    if n > 1 {
        lemma_largest(s, n - 1);
    }
}

/// Normalized shares sum to the whole, to within the tolerance, unless the largest
/// share had to stop at the largest share of its class, and the sum fell short, or at
/// nothing. Without any share this holds of the base shares.
pub proof fn normalized_shares_sum_to_the_whole(s: Seq<u64>, configs: Seq<ShareConfig>)
    requires
        s.len() == DESCENT_CLASS_MAX,
        share_sum(starting_shares(s, configs)) > 0,
    ensures
        ({
            let r = normalized(s, configs);
            ||| sum_is_whole(r)
            ||| share_sum(r) < ONE && exists|k: int|
                0 <= k < DESCENT_CLASS_MAX && #[trigger] r[k] == share_of(configs[k].max_share)
            ||| exists|k: int| 0 <= k < DESCENT_CLASS_MAX && #[trigger] r[k] == 0
        }),
{
    let start = starting_shares(s, configs);
    let total = share_sum(start);
    if total != ONE {
        let even = scaled(start, total, configs);
        if !sum_is_whole(even) {
            lemma_largest(even, 4);
            let k = largest(even, 4);
            let r = topped_up(even, configs);
            assert(r[k] == r[k]);
            assert(k == 0 || k == 1 || k == 2 || k == 3);
            assert(share_sum(r) == share_sum(even) - even[k] + r[k]);
        }
    }
}

/// Normalized shares are no smaller than the smallest shares of their classes: the
/// largest of them excepted, which may have to give way to the others.
pub proof fn normalized_shares_keep_their_minimum(s: Seq<u64>, configs: Seq<ShareConfig>, i: int)
    requires
        s.len() == DESCENT_CLASS_MAX,
        0 <= i < DESCENT_CLASS_MAX,
        share_sum(starting_shares(s, configs)) > 0,
        share_sum(starting_shares(s, configs)) != ONE,
        i != largest(
            scaled(
                starting_shares(s, configs),
                share_sum(starting_shares(s, configs)),
                configs,
            ),
            DESCENT_CLASS_MAX as int,
        ),
    ensures
        normalized(s, configs)[i] >= share_of(configs[i].min_share),
{
    let start = starting_shares(s, configs);
    let total = share_sum(start);
    let even = scaled(start, total, configs);
    lemma_largest(even, 4);
    let x = start[i] as int;
    assert(i == 0 || i == 1 || i == 2 || i == 3);
    assert(0 <= x * 1_000_000_000 / total <= 1_000_000_000) by (nonlinear_arith)
        requires
            0 <= x <= total,
            total > 0,
    ;
    assert(even[i] >= share_of(configs[i].min_share));
}

/// Shares that already sum to the whole stay as they are.
pub proof fn whole_shares_stay(s: Seq<u64>, configs: Seq<ShareConfig>)
    requires
        share_sum(s) == ONE,
    ensures
        normalized(s, configs) == s,
{
}

// ---------------------------------------------------------------------------
// Parameters
// ---------------------------------------------------------------------------

/// The value at `n` of `d` on the line that goes from `lo` over `mid`, halfway, to
/// `hi`, times `d`.
pub open spec fn on_line(n: int, d: int, lo: u64, mid: u64, hi: u64) -> int {
    if 2 * n <= d {
        lo * (d - 2 * n) + mid * (2 * n)
    } else {
        mid * (2 * d - 2 * n) + hi * (2 * n - d)
    }
}

/// `x` of `d`, rounded to the nearest number and up where two are as near.
pub open spec fn nearest(x: int, d: int) -> int {
    (2 * x + d) / (2 * d)
}

/// How a parameter follows a share.
#[derive(Debug, Clone, Copy, PartialEq, Eq, Structural)]
pub enum Mapping {
    /// A larger share gives a larger value.
    Direct,
    /// A larger share gives a smaller value.
    Inverse,
}

/// How a parameter follows the share: latency weight and scale of virtual run time
/// inversely, the others directly.
pub open spec fn mapping_of(param_idx: int) -> Mapping {
    if param_idx == 0 || param_idx == 2 {
        Mapping::Inverse
    } else {
        Mapping::Direct
    }
}

/// How a parameter follows the share.
pub fn param_mapping(param_idx: usize) -> (r: Mapping)
    ensures
        r == mapping_of(param_idx as int),
{
    if param_idx == 0 || param_idx == 2 {
        Mapping::Inverse
    } else {
        Mapping::Direct
    }
}

/// Where on its line a parameter is, for a share that has come `n` of `d` from the
/// smallest to the largest.
pub open spec fn place(n: int, d: int, mapping: Mapping) -> int {
    match mapping {
        Mapping::Direct => n,
        Mapping::Inverse => d - n,
    }
}

/// How far a share has come from the smallest to the largest, and how far that is;
/// halfway where there is no range.
pub open spec fn progress(share: u64, min_share: u64, max_share: u64) -> (int, int) {
    if max_share > min_share {
        (
            if share < min_share {
                0
            } else if share > max_share {
                max_share - min_share
            } else {
                share - min_share
            },
            max_share - min_share,
        )
    } else {
        (1, 2)
    }
}

proof fn lemma_line_fits(n: int, d: int, lo: u64, mid: u64, hi: u64)
    requires
        0 <= n <= d,
        0 < d <= u64::MAX,
    ensures
        0 <= on_line(n, d, lo, mid, hi) <= u64::MAX * d,
        u64::MAX * d <= u64::MAX * u64::MAX,
        2 * n <= d ==> 0 <= lo * (d - 2 * n) && 0 <= mid * (2 * n),
        2 * n > d ==> 0 <= mid * (2 * d - 2 * n) && 0 <= hi * (2 * n - d),
{
    let (a, b, c, m) = (lo as int, mid as int, hi as int, u64::MAX as int);
    assert(m * d <= m * m) by (nonlinear_arith)
        requires
            0 < d <= m,
            m > 0,
    ;
    if 2 * n <= d {
        assert(0 <= a * (d - 2 * n) <= m * (d - 2 * n)) by (nonlinear_arith)
            requires
                0 <= a <= m,
                2 * n <= d,
        ;
        assert(0 <= b * (2 * n) <= m * (2 * n)) by (nonlinear_arith)
            requires
                0 <= b <= m,
                0 <= n,
        ;
        assert(m * (d - 2 * n) + m * (2 * n) == m * d) by (nonlinear_arith);
    } else {
        assert(0 <= b * (2 * d - 2 * n) <= m * (2 * d - 2 * n)) by (nonlinear_arith)
            requires
                0 <= b <= m,
                n <= d,
        ;
        assert(0 <= c * (2 * n - d) <= m * (2 * n - d)) by (nonlinear_arith)
            requires
                0 <= c <= m,
                2 * n > d,
        ;
        assert(m * (2 * d - 2 * n) + m * (2 * n - d) == m * d) by (nonlinear_arith);
    }
}

fn line_point(n: u64, d: u64, lo: u64, mid: u64, hi: u64) -> (r: u128)
    requires
        n <= d,
        d > 0,
    ensures
        r == on_line(n as int, d as int, lo, mid, hi),
        r <= u64::MAX * d,
{
    proof {
        lemma_line_fits(n as int, d as int, lo, mid, hi);
        assert(u64::MAX * u64::MAX <= u128::MAX);
    }
    let (n2, d1): (u128, u128) = (n as u128 * 2, d as u128);
    if n2 <= d1 {
        lo as u128 * (d1 - n2) + mid as u128 * n2
    } else {
        mid as u128 * (2 * d1 - n2) + hi as u128 * (n2 - d1)
    }
}

/// The value of a parameter, rounded down.
pub open spec fn param_floor(
    share: u64,
    config: ShareConfig,
    param_idx: int,
    lo: u64,
    mid: u64,
    hi: u64,
) -> int {
    let (n, d) = progress(share, share_of(config.min_share), share_of(config.max_share));
    on_line(place(n, d, mapping_of(param_idx)), d, lo, mid, hi) / d
}

/// The value of a parameter at a share, rounded down.
pub fn param_at(
    share: u64,
    config: &ShareConfig,
    param_idx: usize,
    lo: u64,
    mid: u64,
    hi: u64,
) -> (r: u64)
    ensures
        r == param_floor(share, *config, param_idx as int, lo, mid, hi),
{
    let least: u64 = share_from_milli(config.min_share);
    let most: u64 = share_from_milli(config.max_share);
    let (n, d): (u64, u64) = if most > least {
        (
            if share < least {
                0
            } else if share > most {
                most - least
            } else {
                share - least
            },
            most - least,
        )
    } else {
        (1, 2)
    };
    let at: u64 = match param_mapping(param_idx) {
        Mapping::Direct => n,
        Mapping::Inverse => d - n,
    };
    let x: u128 = line_point(at, d, lo, mid, hi);
    proof {
        assert(x as int / d as int <= u64::MAX) by (nonlinear_arith)
            requires
                0 <= x <= u64::MAX * d,
                d > 0,
        ;
    }
    (x / d as u128) as u64
}

/// The value that a share maps to, rounded to the nearest number; the middle value where
/// there is no range of shares.
pub open spec fn mapped(
    share: u64,
    min_share: u64,
    max_share: u64,
    lo: u64,
    mid: u64,
    hi: u64,
    mapping: Mapping,
) -> int {
    if min_share == max_share {
        mid as int
    } else {
        let (n, d) = progress(share, min_share, max_share);
        nearest(on_line(place(n, d, mapping), d, lo, mid, hi), d)
    }
}

/// Rounds `x` of `d` to the nearest number.
pub(crate) fn round_quotient(x: u128, d: u64) -> (r: u64)
    requires
        d > 0,
        x <= u64::MAX * d,
    ensures
        r == nearest(x as int, d as int),
{
    let q: u128 = x / d as u128;
    let rest: u128 = x % d as u128;
    proof {
        let (xi, di, qi, ri) = (x as int, d as int, q as int, rest as int);
        assert(xi == di * qi + ri && 0 <= ri < di) by {
            vstd::arithmetic::div_mod::lemma_fundamental_div_mod(xi, di);
            vstd::arithmetic::div_mod::lemma_mod_bound(xi, di);
        }
        let up: int = if 2 * ri >= di { 1 } else { 0 };
        let left = 2 * ri + di - 2 * di * up;
        assert(2 * xi + di == (qi + up) * (2 * di) + left) by (nonlinear_arith)
            requires
                xi == di * qi + ri,
                left == 2 * ri + di - 2 * di * up,
        ;
        assert(0 <= left < 2 * di);
        vstd::arithmetic::div_mod::lemma_fundamental_div_mod_converse(
            2 * xi + di,
            2 * di,
            qi + up,
            left,
        );
        assert(qi + up <= u64::MAX) by (nonlinear_arith)
            requires
                di * qi + ri <= u64::MAX * di,
                0 <= ri < di,
                up == 0 || up == 1 && 2 * ri >= di,
        ;
    }
    if 2 * rest >= d as u128 {
        (q + 1) as u64
    } else {
        q as u64
    }
}

/// Maps a share to a value between `lo`, `mid` and `hi`.
pub fn map_share(
    share: u64,
    min_share: u64,
    max_share: u64,
    lo: u64,
    mid: u64,
    hi: u64,
    mapping: Mapping,
) -> (r: u64)
    requires
        min_share <= max_share,
    ensures
        r == mapped(share, min_share, max_share, lo, mid, hi, mapping),
{
    if min_share == max_share {
        return mid;
    }
    let d: u64 = max_share - min_share;
    let n: u64 = if share < min_share {
        0
    } else if share > max_share {
        d
    } else {
        share - min_share
    };
    let at: u64 = match mapping {
        Mapping::Direct => n,
        Mapping::Inverse => d - n,
    };
    round_quotient(line_point(at, d, lo, mid, hi), d)
}

/// The value at a rate of `n` of `d`, rounded to the nearest number.
pub(crate) fn interpolate(n: u64, d: u64, lo: u64, mid: u64, hi: u64) -> (r: u64)
    requires
        n <= d,
        d > 0,
    ensures
        r == nearest(on_line(n as int, d as int, lo, mid, hi), d as int),
{
    round_quotient(line_point(n, d, lo, mid, hi), d)
}

proof fn lemma_line_grows(n: int, m: int, d: int, lo: u64, mid: u64, hi: u64)
    requires
        0 <= n <= m <= d,
        d > 0,
        lo <= mid <= hi,
    ensures
        on_line(n, d, lo, mid, hi) <= on_line(m, d, lo, mid, hi),
{
    let (a, b, c) = (lo as int, mid as int, hi as int);
    assert(a * (d - 2 * n) + b * (2 * n) == a * d + (b - a) * (2 * n)) by (nonlinear_arith);
    assert(a * (d - 2 * m) + b * (2 * m) == a * d + (b - a) * (2 * m)) by (nonlinear_arith);
    assert(b * (2 * d - 2 * n) + c * (2 * n - d) == b * d + (c - b) * (2 * n - d))
        by (nonlinear_arith);
    assert(b * (2 * d - 2 * m) + c * (2 * m - d) == b * d + (c - b) * (2 * m - d))
        by (nonlinear_arith);
    if 2 * m <= d {
        assert((b - a) * (2 * n) <= (b - a) * (2 * m)) by (nonlinear_arith)
            requires
                a <= b,
                n <= m,
        ;
    } else if 2 * n > d {
        assert((c - b) * (2 * n - d) <= (c - b) * (2 * m - d)) by (nonlinear_arith)
            requires
                b <= c,
                n <= m,
        ;
    } else {
        assert(a * d + (b - a) * (2 * n) <= b * d) by (nonlinear_arith)
            requires
                a <= b,
                2 * n <= d,
        ;
        assert((c - b) * (2 * m - d) >= 0) by (nonlinear_arith)
            requires
                b <= c,
                2 * m > d,
        ;
    }
}

proof fn lemma_ends(d: int, v: int)
    requires
        d > 0,
        v >= 0,
    ensures
        (v * d) / d == v,
        nearest(v * d, d) == v,
{
    vstd::arithmetic::div_mod::lemma_div_by_multiple(v, d);
    assert(2 * (v * d) + d == v * (2 * d) + d) by (nonlinear_arith);
    vstd::arithmetic::div_mod::lemma_fundamental_div_mod_converse(2 * (v * d) + d, 2 * d, v, d);
}

/// At the smallest share a parameter that follows directly has its least value, at the
/// largest share its largest, and halfway the middle one; one that follows inversely,
/// the other way round.
pub proof fn values_meet_the_ends(min_share: u64, max_share: u64, lo: u64, mid: u64, hi: u64)
    requires
        min_share < max_share,
    ensures
        mapped(min_share, min_share, max_share, lo, mid, hi, Mapping::Direct) == lo,
        mapped(max_share, min_share, max_share, lo, mid, hi, Mapping::Direct) == hi,
        mapped(min_share, min_share, max_share, lo, mid, hi, Mapping::Inverse) == hi,
        mapped(max_share, min_share, max_share, lo, mid, hi, Mapping::Inverse) == lo,
        (max_share - min_share) % 2 == 0 ==> {
            let half = (min_share + (max_share - min_share) / 2) as u64;
            &&& mapped(half, min_share, max_share, lo, mid, hi, Mapping::Direct) == mid
            &&& mapped(half, min_share, max_share, lo, mid, hi, Mapping::Inverse) == mid
        },
{
    let d = max_share - min_share;
    lemma_ends(d, lo as int);
    lemma_ends(d, mid as int);
    lemma_ends(d, hi as int);
    assert(on_line(0, d, lo, mid, hi) == lo * d) by (nonlinear_arith)
        requires
            d > 0,
            on_line(0, d, lo, mid, hi) == lo * (d - 2 * 0) + mid * (2 * 0),
    ;
    assert(on_line(d, d, lo, mid, hi) == hi * d) by (nonlinear_arith)
        requires
            d > 0,
            on_line(d, d, lo, mid, hi) == mid * (2 * d - 2 * d) + hi * (2 * d - d),
    ;
    if d % 2 == 0 {
        let h = d / 2;
        assert(on_line(h, d, lo, mid, hi) == mid * d) by (nonlinear_arith)
            requires
                2 * h == d,
                on_line(h, d, lo, mid, hi) == lo * (d - 2 * h) + mid * (2 * h),
        ;
    }
}

/// A larger share never gives a smaller value to a parameter that follows directly, nor
/// a larger one to a parameter that follows inversely.
pub proof fn values_follow_the_share(
    share: u64,
    larger: u64,
    min_share: u64,
    max_share: u64,
    lo: u64,
    mid: u64,
    hi: u64,
)
    requires
        share <= larger,
        min_share <= max_share,
        lo <= mid <= hi,
    ensures
        mapped(share, min_share, max_share, lo, mid, hi, Mapping::Direct) <= mapped(
            larger,
            min_share,
            max_share,
            lo,
            mid,
            hi,
            Mapping::Direct,
        ),
        mapped(share, min_share, max_share, lo, mid, hi, Mapping::Inverse) >= mapped(
            larger,
            min_share,
            max_share,
            lo,
            mid,
            hi,
            Mapping::Inverse,
        ),
{
    if min_share < max_share {
        let (n, d) = progress(share, min_share, max_share);
        let (m, _) = progress(larger, min_share, max_share);
        lemma_line_grows(n, m, d, lo, mid, hi);
        lemma_line_grows(d - m, d - n, d, lo, mid, hi);
        vstd::arithmetic::div_mod::lemma_div_is_ordered(
            2 * on_line(n, d, lo, mid, hi) + d,
            2 * on_line(m, d, lo, mid, hi) + d,
            2 * d,
        );
        vstd::arithmetic::div_mod::lemma_div_is_ordered(
            2 * on_line(d - m, d, lo, mid, hi) + d,
            2 * on_line(d - n, d, lo, mid, hi) + d,
            2 * d,
        );
    }
}

/// With a larger share of its class, no parameter that follows directly gets smaller, and
/// none that follows inversely larger.
pub proof fn parameters_follow_the_share(
    share: u64,
    larger: u64,
    config: ShareConfig,
    param_idx: int,
    lo: u64,
    mid: u64,
    hi: u64,
)
    requires
        share <= larger,
        lo <= mid <= hi,
    ensures
        mapping_of(param_idx) == Mapping::Direct ==> param_floor(share, config, param_idx, lo, mid, hi)
            <= param_floor(larger, config, param_idx, lo, mid, hi),
        mapping_of(param_idx) == Mapping::Inverse ==> param_floor(share, config, param_idx, lo, mid, hi)
            >= param_floor(larger, config, param_idx, lo, mid, hi),
{
    let (n, d) = progress(share, share_of(config.min_share), share_of(config.max_share));
    let (m, _) = progress(larger, share_of(config.min_share), share_of(config.max_share));
    lemma_line_grows(n, m, d, lo, mid, hi);
    lemma_line_grows(d - m, d - n, d, lo, mid, hi);
    vstd::arithmetic::div_mod::lemma_div_is_ordered(
        on_line(n, d, lo, mid, hi),
        on_line(m, d, lo, mid, hi),
        d,
    );
    vstd::arithmetic::div_mod::lemma_div_is_ordered(
        on_line(d - m, d, lo, mid, hi),
        on_line(d - n, d, lo, mid, hi),
        d,
    );
}

/// Whatever the share, a parameter stays between its least and its largest value.
pub proof fn values_stay_in_bounds(
    share: u64,
    config: ShareConfig,
    param_idx: int,
    lo: u64,
    mid: u64,
    hi: u64,
)
    requires
        lo <= mid <= hi,
    ensures
        lo <= param_floor(share, config, param_idx, lo, mid, hi) <= hi,
{
    let (n, d) = progress(share, share_of(config.min_share), share_of(config.max_share));
    let at = place(n, d, mapping_of(param_idx));
    lemma_line_grows(0, at, d, lo, mid, hi);
    lemma_line_grows(at, d, d, lo, mid, hi);
    lemma_ends(d, lo as int);
    lemma_ends(d, hi as int);
    assert(on_line(0, d, lo, mid, hi) == lo * d) by (nonlinear_arith)
        requires
            d > 0,
            on_line(0, d, lo, mid, hi) == lo * (d - 2 * 0) + mid * (2 * 0),
    ;
    assert(on_line(d, d, lo, mid, hi) == hi * d) by (nonlinear_arith)
        requires
            d > 0,
            on_line(d, d, lo, mid, hi) == mid * (2 * d - 2 * d) + hi * (2 * d - d),
    ;
    vstd::arithmetic::div_mod::lemma_div_is_ordered(lo * d, on_line(at, d, lo, mid, hi), d);
    vstd::arithmetic::div_mod::lemma_div_is_ordered(on_line(at, d, lo, mid, hi), hi * d, d);
}

/// Shares are counted in billionths: so many thousandths, at most the whole.
pub proof fn shares_are_billionths(milli: u64)
    ensures
        milli <= 1000 ==> share_of(milli) == milli * 1_000_000,
        milli >= 1000 ==> share_of(milli) == 1_000_000_000,
{
}

/// A ramp, a back-off or a boost multiplies the share by the ramp-up rate, the ramp-down rate
/// or six fifths, as far as the range of the class goes. A move is only cut short at a bound.
pub proof fn moves_multiply_the_share(config: ShareConfig, share: u64)
    requires
        config.min_share < config.max_share <= 1000,
    ensures
        is_multiple(config, share, config.ramp_up_rate as int, ShareMove::RampUp.moved(config, share)),
        is_multiple(
            config,
            share,
            config.ramp_down_rate as int,
            ShareMove::BackOff.moved(config, share),
        ),
        is_multiple(config, share, 1200, ShareMove::Boost.moved(config, share)),
        ShareMove::RampUp.direction_spec() == AdjustmentDirection::Up,
        ShareMove::Boost.direction_spec() == AdjustmentDirection::Up,
        ShareMove::BackOff.direction_spec() == AdjustmentDirection::Down,
        ShareMove::Decay.direction_spec() == AdjustmentDirection::Neutral,
{
}

/// `r` is a share times so many thousandths, rounded down and held to the range of a class.
pub open spec fn is_multiple(config: ShareConfig, share: u64, rate: int, r: u64) -> bool {
    let (lo, hi) = (config.min_share * 1_000_000, config.max_share * 1_000_000);
    &&& lo <= r <= hi
    &&& lo < r < hi ==> 1000 * r <= share * rate < 1000 * r + 1000
    &&& r == lo ==> share * rate < 1000 * r + 1000
    &&& r == hi ==> share * rate >= 1000 * r
}

/// Decay takes its part off the distance between a share and the base share: what is left of
/// the distance is the decay rate of it, rounded.
pub proof fn decay_keeps_its_rate_of_the_distance(config: ShareConfig, share: u64)
    requires
        config.decay_rate <= 1000,
        config.base_share <= 1000,
        share <= ONE,
    ensures
        ({
            let base = config.base_share * 1_000_000;
            let left = base - ShareMove::Decay.moved(config, share);
            0 <= 1000 * left - (base - share) * config.decay_rate < 1000
        }),
{
    let (a, b) = (share_of(config.base_share) - share, 1000 - config.decay_rate);
    decay_approaches_the_base(config, share);
    assert(a * b == 1000 * a - a * config.decay_rate) by (nonlinear_arith)
        requires
            b == 1000 - config.decay_rate,
    ;
    if a >= 0 {
        assert(0 <= a * b <= 1000 * a) by (nonlinear_arith)
            requires
                a >= 0,
                0 <= b <= 1000,
        ;
    } else {
        assert(1000 * a <= a * b <= 0) by (nonlinear_arith)
            requires
                a <= 0,
                0 <= b <= 1000,
        ;
    }
}

/// Normalization keeps proportions. With at most one exception, which takes up what is
/// missing, every share is its part of the sum, or the smallest share of its class where
/// that is more. Where there were no shares at all, the base shares are taken.
pub proof fn normalization_keeps_proportions(s: Seq<u64>, configs: Seq<ShareConfig>)
    requires
        s.len() == DESCENT_CLASS_MAX,
        s[0] + s[1] + s[2] + s[3] > 0,
        s[0] + s[1] + s[2] + s[3] != ONE,
    ensures
        exists|k: int|
            0 <= k < 4 && forall|i: int|
                0 <= i < 4 && i != k ==> #[trigger] is_part(
                    s[i],
                    s[0] + s[1] + s[2] + s[3],
                    share_of(configs[i].min_share),
                    normalized(s, configs)[i],
                ) && #[trigger] is_kept(k),
        sum_is_whole(scaled(s, share_sum(s), configs)) ==> forall|i: int|
            0 <= i < 4 ==> #[trigger] is_part(
                s[i],
                s[0] + s[1] + s[2] + s[3],
                share_of(configs[i].min_share),
                normalized(s, configs)[i],
            ),
{
    let total = share_sum(s);
    let even = scaled(s, total, configs);
    lemma_largest(even, 4);
    let k = largest(even, 4);
    assert forall|i: int| 0 <= i < 4 implies is_part(
        s[i],
        total,
        share_of(configs[i].min_share),
        #[trigger] even[i],
    ) by {
        let x = s[i] as int;
        assert(i == 0 || i == 1 || i == 2 || i == 3);
        vstd::arithmetic::div_mod::lemma_fundamental_div_mod(x * 1_000_000_000, total);
        vstd::arithmetic::div_mod::lemma_mod_bound(x * 1_000_000_000, total);
        let q = x * 1_000_000_000 / total;
        assert(0 <= q <= 1_000_000_000) by (nonlinear_arith)
            requires
                q == x * 1_000_000_000 / total,
                0 <= x <= total,
                total > 0,
        ;
        assert(total * q == q * total) by (nonlinear_arith);
        let m = share_of(configs[i].min_share) as int;
        if q < m {
            assert((q + 1) * total <= m * total) by (nonlinear_arith)
                requires
                    q + 1 <= m,
                    total > 0,
            ;
            assert((q + 1) * total == q * total + total) by (nonlinear_arith);
        }
    }
    assert(is_kept(k));
    assert forall|i: int| 0 <= i < 4 && i != k implies normalized(s, configs)[i] == even[i] by {}
    assert forall|i: int| 0 <= i < 4 && i != k implies #[trigger] is_part(
        s[i],
        s[0] + s[1] + s[2] + s[3],
        share_of(configs[i].min_share),
        normalized(s, configs)[i],
    ) by {
        assert(even[i] == normalized(s, configs)[i]);
    }
    if sum_is_whole(even) {
        assert forall|i: int| 0 <= i < 4 implies #[trigger] is_part(
            s[i],
            s[0] + s[1] + s[2] + s[3],
            share_of(configs[i].min_share),
            normalized(s, configs)[i],
        ) by {
            assert(even[i] == normalized(s, configs)[i]);
        }
    }
}

/// The position of the share that takes up what is missing.
pub open spec fn is_kept(k: int) -> bool {
    0 <= k < 4
}

/// `r` is the part that `x` has in `total`, in billionths and rounded down, but at least
/// `least`.
pub open spec fn is_part(x: u64, total: int, least: u64, r: u64) -> bool {
    &&& r >= least
    &&& r > least ==> r * total <= x * 1_000_000_000
    &&& x * 1_000_000_000 < r * total + total
}

/// Latency weight and vruntime scale fall as the share grows; slice, preemption priority and
/// migration cost grow with it.
pub proof fn parameters_have_their_sides()
    ensures
        mapping_of(0) == Mapping::Inverse,
        mapping_of(1) == Mapping::Direct,
        mapping_of(2) == Mapping::Inverse,
        mapping_of(3) == Mapping::Direct,
        mapping_of(4) == Mapping::Direct,
{
}

/// Below and at the smallest share of a class its parameters are at one end of their range,
/// from the largest share on at the other end, and halfway between at their baseline.
pub proof fn parameters_meet_their_ends(
    share: u64,
    config: ShareConfig,
    param_idx: int,
    lo: u64,
    mid: u64,
    hi: u64,
)
    requires
        config.min_share < config.max_share <= 1000,
    ensures
        ({
            let v = param_floor(share, config, param_idx, lo, mid, hi);
            let direct = param_idx != 0 && param_idx != 2;
            &&& share <= config.min_share * 1_000_000 ==> v == if direct { lo } else { hi }
            &&& share >= config.max_share * 1_000_000 ==> v == if direct { hi } else { lo }
            &&& 2 * share == (config.min_share + config.max_share) * 1_000_000 ==> v == mid
        }),
{
    let (n, d) = progress(share, share_of(config.min_share), share_of(config.max_share));
    lemma_ends(d, lo as int);
    lemma_ends(d, mid as int);
    lemma_ends(d, hi as int);
    assert(on_line(0, d, lo, mid, hi) == lo * d) by (nonlinear_arith)
        requires
            d > 0,
            on_line(0, d, lo, mid, hi) == lo * (d - 2 * 0) + mid * (2 * 0),
    ;
    assert(on_line(d, d, lo, mid, hi) == hi * d) by (nonlinear_arith)
        requires
            d > 0,
            on_line(d, d, lo, mid, hi) == mid * (2 * d - 2 * d) + hi * (2 * d - d),
    ;
    if 2 * n == d {
        assert(on_line(n, d, lo, mid, hi) == mid * d) by (nonlinear_arith)
            requires
                2 * n == d,
                on_line(n, d, lo, mid, hi) == lo * (d - 2 * n) + mid * (2 * n),
        ;
    }
}

/// Between the ends a parameter lies on a straight line from one end to the baseline, and
/// from there on a straight line to the other end, rounded down.
pub proof fn parameters_lie_on_their_lines(
    share: u64,
    config: ShareConfig,
    param_idx: int,
    lo: u64,
    mid: u64,
    hi: u64,
)
    requires
        config.min_share < config.max_share <= 1000,
        config.min_share * 1_000_000 <= share <= config.max_share * 1_000_000,
    ensures
        ({
            let range = (config.max_share - config.min_share) * 1_000_000;
            let at = if param_idx != 0 && param_idx != 2 {
                share - config.min_share * 1_000_000
            } else {
                config.max_share * 1_000_000 - share
            };
            let v = param_floor(share, config, param_idx, lo, mid, hi);
            &&& 2 * at <= range ==> v * range <= lo * range + (mid - lo) * (2 * at) < v * range + range
            &&& 2 * at >= range ==> v * range <= mid * range + (hi - mid) * (2 * at - range) < v * range
                + range
        }),
{
    let range = (config.max_share - config.min_share) * 1_000_000;
    let (n, d) = progress(share, share_of(config.min_share), share_of(config.max_share));
    let at = place(n, d, mapping_of(param_idx));
    assert(d == range);
    let x = on_line(at, d, lo, mid, hi);
    let v = x / d;
    vstd::arithmetic::div_mod::lemma_fundamental_div_mod(x, d);
    vstd::arithmetic::div_mod::lemma_mod_bound(x, d);
    assert(d * v == v * d) by (nonlinear_arith);
    let (l, m, h) = (lo as int, mid as int, hi as int);
    assert(l * (d - 2 * at) + m * (2 * at) == l * d + (m - l) * (2 * at)) by (nonlinear_arith);
    assert(m * (2 * d - 2 * at) + h * (2 * at - d) == m * d + (h - m) * (2 * at - d))
        by (nonlinear_arith);
    if 2 * at == d {
        assert(l * d + (m - l) * (2 * at) == m * d) by (nonlinear_arith)
            requires
                2 * at == d,
        ;
        assert((h - m) * (2 * at - d) == 0) by (nonlinear_arith)
            requires
                2 * at == d,
        ;
    }
}

} // verus!
