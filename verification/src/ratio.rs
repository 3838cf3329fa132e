//! Exact ratios of two counts.

use vstd::prelude::*;

verus! {

/// The ratio of `num` to `den`.
#[derive(Debug, Clone, Copy, PartialEq, Eq, Structural)]
pub struct Ratio {
    /// What is measured.
    pub num: u64,
    /// What it is measured against.
    pub den: u64,
}

impl Ratio {
    /// The ratio exists.
    pub open spec fn valid(self) -> bool {
        self.den > 0
    }

    /// The ratio is larger than `other`.
    pub open spec fn above(self, other: Ratio) -> bool {
        self.num * other.den > other.num * self.den
    }

    /// The ratio is larger than so many thousandths.
    pub open spec fn above_milli(self, milli: u64) -> bool {
        self.num * 1000 > milli * self.den
    }

    /// The ratio is smaller than so many thousandths.
    pub open spec fn below_milli(self, milli: u64) -> bool {
        self.num * 1000 < milli * self.den
    }

    /// So many thousandths.
    pub fn milli(milli: u64) -> (r: Self)
        ensures
            r == (Ratio { num: milli, den: 1000 }),
            r.valid(),
    {
        Ratio { num: milli, den: 1000 }
    }

    /// `part` of `whole`, or nothing where there is no whole.
    pub fn of(part: u64, whole: u64) -> (r: Self)
        ensures
            r == part_of(part, whole),
            r.valid(),
    {
        if whole == 0 {
            Ratio { num: 0, den: 1 }
        } else {
            Ratio { num: part, den: whole }
        }
    }

    /// Whether the ratio is larger than `other`.
    pub fn exceeds(&self, other: &Ratio) -> (r: bool)
        ensures
            r == self.above(*other),
    {
        proof {
            lemma_product_fits(self.num, other.den);
            lemma_product_fits(other.num, self.den);
        }
        self.num as u128 * other.den as u128 > other.num as u128 * self.den as u128
    }

    /// Whether the ratio is larger than so many thousandths.
    pub fn exceeds_milli(&self, milli: u64) -> (r: bool)
        ensures
            r == self.above_milli(milli),
    {
        proof {
            lemma_product_fits(milli, self.den);
        }
        self.num as u128 * 1000 > milli as u128 * self.den as u128
    }

    /// Whether the ratio is smaller than so many thousandths.
    pub fn falls_below_milli(&self, milli: u64) -> (r: bool)
        ensures
            r == self.below_milli(milli),
    {
        proof {
            lemma_product_fits(milli, self.den);
        }
        (self.num as u128 * 1000) < milli as u128 * self.den as u128
    }
}

/// `part` of `whole`, or nothing where there is no whole.
pub open spec fn part_of(part: u64, whole: u64) -> Ratio {
    if whole == 0 {
        Ratio { num: 0, den: 1 }
    } else {
        Ratio { num: part, den: whole }
    }
}

/// The product of two counts fits twice their width.
pub proof fn lemma_product_fits(a: u64, b: u64)
    ensures
        0 <= a * b <= u128::MAX,
{
    assert(0 <= a * b <= u64::MAX * u64::MAX) by (nonlinear_arith)
        requires
            0 <= a <= u64::MAX,
            0 <= b <= u64::MAX,
    ;
}

/// Being larger carries over from ratio to ratio.
pub proof fn above_is_transitive(a: Ratio, b: Ratio, c: Ratio)
    requires
        a.valid(),
        b.valid(),
        c.valid(),
        !b.above(a),
        !c.above(b),
    ensures
        !c.above(a),
{
    let (an, ad, bn, bd, cn, cd) = (
        a.num as int,
        a.den as int,
        b.num as int,
        b.den as int,
        c.num as int,
        c.den as int,
    );
    assert(cn * ad <= an * cd) by (nonlinear_arith)
        requires
            bn * ad <= an * bd,
            cn * bd <= bn * cd,
            ad > 0,
            bd > 0,
            cd > 0,
            an >= 0,
            bn >= 0,
            cn >= 0,
    {
        assert((cn * bd) * ad <= (bn * cd) * ad);
        assert((bn * ad) * cd <= (an * bd) * cd);
        assert(bd * (cn * ad) <= bd * (an * cd));
    }
}

} // verus!
