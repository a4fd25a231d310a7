use vstd::prelude::*;

verus! {

/// An exact fraction `num / den`.
///
/// Fractions are kept as they were computed and are not reduced: `==` holds
/// of two fractions with the same numerator and the same denominator, and
/// `same_value` of two that denote the same number.
#[derive(Clone, Copy, Debug, PartialEq, Eq, Structural)]
pub struct Ratio {
    pub num: i64,
    pub den: i64,
}

/// `an / ad < bn / bd` for fractions with positive denominators.
pub open spec fn frac_lt(an: int, ad: int, bn: int, bd: int) -> bool {
    an * bd < bn * ad
}

/// `an / ad == bn / bd` for fractions with positive denominators.
pub open spec fn frac_eq(an: int, ad: int, bn: int, bd: int) -> bool {
    an * bd == bn * ad
}

/// The product of two bounded integers is bounded by the product of the bounds.
pub proof fn lemma_mul_bounds(a: int, b: int, m: int, n: int)
    requires
        -m <= a <= m,
        -n <= b <= n,
    ensures
        -(m * n) <= a * b <= m * n,
{
    assert(-(m * n) <= a * b <= m * n) by (nonlinear_arith)
        requires
            -m <= a <= m,
            -n <= b <= n,
    ;
}

/// The full product of two 64-bit integers.
pub fn wide_mul(a: i64, b: i64) -> (r: i128)
    ensures
        r == a * b,
{
    proof {
        lemma_mul_bounds(a as int, b as int, 0x8000_0000_0000_0000, 0x8000_0000_0000_0000);
    }
    (a as i128) * (b as i128)
}

/// Decides `an / ad < bn / bd` by cross-multiplication.
pub fn frac_less(an: i64, ad: i64, bn: i64, bd: i64) -> (r: bool)
    ensures
        r == frac_lt(an as int, ad as int, bn as int, bd as int),
{
    wide_mul(an, bd) < wide_mul(bn, ad)
}

/// Decides `an / ad == bn / bd` by cross-multiplication.
pub fn frac_same(an: i64, ad: i64, bn: i64, bd: i64) -> (r: bool)
    ensures
        r == frac_eq(an as int, ad as int, bn as int, bd as int),
{
    wide_mul(an, bd) == wide_mul(bn, ad)
}

impl Ratio {
    /// A fraction is well formed when its denominator is positive.
    pub open spec fn wf(self) -> bool {
        self.den > 0
    }

    /// The whole number `n`.
    pub fn from_int(n: i64) -> (r: Ratio)
        ensures
            r.wf(),
            r.num == n,
            r.den == 1,
    {
        Ratio { num: n, den: 1 }
    }

    /// The fraction `num / den`, or nothing where `den` is not positive.
    pub fn new(num: i64, den: i64) -> (r: Option<Ratio>)
        ensures
            den > 0 ==> r == Some(Ratio { num, den }),
            den <= 0 ==> r.is_none(),
    {
        if den > 0 {
            Some(Ratio { num, den })
        } else {
            None
        }
    }

    /// `self < other` as numbers.
    pub open spec fn lt(self, other: Ratio) -> bool {
        frac_lt(self.num as int, self.den as int, other.num as int, other.den as int)
    }

    /// `self` and `other` are the same number.
    pub open spec fn same(self, other: Ratio) -> bool {
        frac_eq(self.num as int, self.den as int, other.num as int, other.den as int)
    }

    /// Compares two well-formed fractions as numbers.
    pub fn less_than(&self, other: &Ratio) -> (r: bool)
        ensures
            r == self.lt(*other),
    {
        frac_less(self.num, self.den, other.num, other.den)
    }

    /// Tells whether two fractions denote the same number.
    pub fn same_value(&self, other: &Ratio) -> (r: bool)
        ensures
            r == self.same(*other),
    {
        frac_same(self.num, self.den, other.num, other.den)
    }
}

/// Order is passed on: where `a < b` and `b <= c`, there `a < c`.
pub proof fn lemma_frac_lt_le(an: int, ad: int, bn: int, bd: int, cn: int, cd: int)
    requires
        ad > 0,
        bd > 0,
        cd > 0,
        frac_lt(an, ad, bn, bd),
        !frac_lt(cn, cd, bn, bd),
    ensures
        frac_lt(an, ad, cn, cd),
{
    assert((an * bd) * cd < (bn * ad) * cd) by (nonlinear_arith)
        requires
            an * bd < bn * ad,
            cd > 0,
    ;
    assert((bn * cd) * ad <= (cn * bd) * ad) by (nonlinear_arith)
        requires
            bn * cd <= cn * bd,
            ad > 0,
    ;
    assert(an * cd < cn * ad) by (nonlinear_arith)
        requires
            (an * bd) * cd < (bn * ad) * cd,
            (bn * cd) * ad <= (cn * bd) * ad,
            bd > 0,
    ;
}

/// Order is passed on: where `a <= b` and `b <= c`, there `a <= c`.
pub proof fn lemma_frac_le_le(an: int, ad: int, bn: int, bd: int, cn: int, cd: int)
    requires
        ad > 0,
        bd > 0,
        cd > 0,
        !frac_lt(bn, bd, an, ad),
        !frac_lt(cn, cd, bn, bd),
    ensures
        !frac_lt(cn, cd, an, ad),
{
    assert((an * bd) * cd <= (bn * ad) * cd) by (nonlinear_arith)
        requires
            an * bd <= bn * ad,
            cd > 0,
    ;
    assert((bn * cd) * ad <= (cn * bd) * ad) by (nonlinear_arith)
        requires
            bn * cd <= cn * bd,
            ad > 0,
    ;
    assert(an * cd <= cn * ad) by (nonlinear_arith)
        requires
            (an * bd) * cd <= (bn * ad) * cd,
            (bn * cd) * ad <= (cn * bd) * ad,
            bd > 0,
    ;
}

} // verus!
