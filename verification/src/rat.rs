//! Exact rational scalars.
//!
//! Every scalar of the geometry is a fraction `num / den` of 128-bit
//! integers with a positive denominator. Arithmetic is exact: no value is
//! ever rounded, so the algebraic contracts below are equalities of
//! fractions, not approximations.

use vstd::prelude::*;

verus! {

/// Mathematical model of a scalar: the fraction `n / d`.
pub ghost struct Ratio {
    pub n: int,
    pub d: int,
}

/// A well-formed fraction has a positive denominator.
pub open spec fn rwf(a: Ratio) -> bool {
    a.d > 0
}

/// Two fractions denote the same rational number (cross multiplication).
pub open spec fn ratio_eq(a: Ratio, b: Ratio) -> bool {
    a.n * b.d == b.n * a.d
}

/// `a <= b` as rational numbers; meaningful when both denominators are positive.
pub open spec fn ratio_le(a: Ratio, b: Ratio) -> bool {
    a.n * b.d <= b.n * a.d
}

/// `a < b` as rational numbers; meaningful when both denominators are positive.
pub open spec fn ratio_lt(a: Ratio, b: Ratio) -> bool {
    a.n * b.d < b.n * a.d
}

pub open spec fn radd(a: Ratio, b: Ratio) -> Ratio {
    Ratio { n: a.n * b.d + b.n * a.d, d: a.d * b.d }
}

pub open spec fn rsub(a: Ratio, b: Ratio) -> Ratio {
    Ratio { n: a.n * b.d - b.n * a.d, d: a.d * b.d }
}

pub open spec fn rmul(a: Ratio, b: Ratio) -> Ratio {
    Ratio { n: a.n * b.n, d: a.d * b.d }
}

/// The reciprocal, with the sign moved into the numerator so that a
/// well-formed argument with nonzero numerator gives a well-formed result.
pub open spec fn rinv(a: Ratio) -> Ratio {
    if a.n >= 0 {
        Ratio { n: a.d, d: a.n }
    } else {
        Ratio { n: -a.d, d: -a.n }
    }
}

/// Division is multiplication by the reciprocal.
pub open spec fn rdiv(a: Ratio, b: Ratio) -> Ratio {
    rmul(a, rinv(b))
}

pub open spec fn rzero() -> Ratio {
    Ratio { n: 0, d: 1 }
}

pub open spec fn rone() -> Ratio {
    Ratio { n: 1, d: 1 }
}

pub open spec fn rint(n: int) -> Ratio {
    Ratio { n: n, d: 1 }
}

/// `x` is representable as an `i128` magnitude (the most negative value is
/// excluded so that every representable value can also be negated).
pub open spec fn in_range(x: int) -> bool {
    -i128::MAX <= x <= i128::MAX
}

/// The products formed by `Rat::add` stay representable.
pub open spec fn radd_fits(a: Ratio, b: Ratio) -> bool {
    &&& in_range(a.n * b.d)
    &&& in_range(b.n * a.d)
    &&& in_range(a.n * b.d + b.n * a.d)
    &&& in_range(a.d * b.d)
}

/// The products formed by `Rat::sub` stay representable.
pub open spec fn rsub_fits(a: Ratio, b: Ratio) -> bool {
    &&& in_range(a.n * b.d)
    &&& in_range(b.n * a.d)
    &&& in_range(a.n * b.d - b.n * a.d)
    &&& in_range(a.d * b.d)
}

/// The products formed by `Rat::mul` stay representable.
pub open spec fn rmul_fits(a: Ratio, b: Ratio) -> bool {
    &&& in_range(a.n * b.n)
    &&& in_range(a.d * b.d)
}

/// The products formed by `Rat::div` stay representable.
pub open spec fn rdiv_fits(a: Ratio, b: Ratio) -> bool {
    &&& in_range(a.n * b.d)
    &&& in_range(a.d * b.n)
}

/// The products formed by the exact comparisons stay representable.
pub open spec fn rcmp_fits(a: Ratio, b: Ratio) -> bool {
    &&& in_range(a.n * b.d)
    &&& in_range(b.n * a.d)
}

/// An exact rational scalar: `num / den` with `den > 0`.
#[derive(Clone, Copy, Debug)]
pub struct Rat {
    pub num: i128,
    pub den: i128,
}

impl View for Rat {
    type V = Ratio;

    open spec fn view(&self) -> Ratio {
        Ratio { n: self.num as int, d: self.den as int }
    }
}

impl Rat {
    pub open spec fn wf(self) -> bool {
        self.den > 0
    }

    /// The fraction `num / den`; a negative denominator is folded into the
    /// numerator.
    pub fn new(num: i128, den: i128) -> (r: Rat)
        requires
            den != 0,
            num != i128::MIN,
            den != i128::MIN,
        ensures
            r.wf(),
            ratio_eq(r@, Ratio { n: num as int, d: den as int }),
            den > 0 ==> r@ == (Ratio { n: num as int, d: den as int }),
            den < 0 ==> r@ == (Ratio { n: -num as int, d: -den as int }),
    {
        if den > 0 {
            Rat { num, den }
        } else {
            proof {
                assert((-num as int) * (den as int) == (num as int) * (-den as int))
                    by (nonlinear_arith);
            }
            Rat { num: -num, den: -den }
        }
    }

    /// The integer `n` as a rational.
    pub fn from_int(n: i128) -> (r: Rat)
        ensures
            r.wf(),
            r@ == rint(n as int),
    {
        Rat { num: n, den: 1 }
    }

    /// Exact sum of two fractions.
    pub fn add(self, other: Rat) -> (r: Rat)
        requires
            self.wf(),
            other.wf(),
            radd_fits(self@, other@),
        ensures
            r.wf(),
            r@ == radd(self@, other@),
    {
        proof {
            assert(self.den * other.den > 0) by (nonlinear_arith)
                requires self.den > 0, other.den > 0;
        }
        Rat { num: self.num * other.den + other.num * self.den, den: self.den * other.den }
    }

    /// Exact difference of two fractions.
    pub fn sub(self, other: Rat) -> (r: Rat)
        requires
            self.wf(),
            other.wf(),
            rsub_fits(self@, other@),
        ensures
            r.wf(),
            r@ == rsub(self@, other@),
    {
        proof {
            assert(self.den * other.den > 0) by (nonlinear_arith)
                requires self.den > 0, other.den > 0;
        }
        Rat { num: self.num * other.den - other.num * self.den, den: self.den * other.den }
    }

    /// Exact product of two fractions.
    pub fn mul(self, other: Rat) -> (r: Rat)
        requires
            self.wf(),
            other.wf(),
            rmul_fits(self@, other@),
        ensures
            r.wf(),
            r@ == rmul(self@, other@),
    {
        proof {
            assert(self.den * other.den > 0) by (nonlinear_arith)
                requires self.den > 0, other.den > 0;
        }
        Rat { num: self.num * other.num, den: self.den * other.den }
    }

    /// Exact reciprocal of a nonzero fraction.
    pub fn recip(self) -> (r: Rat)
        requires
            self.wf(),
            self.num != 0,
            self.num != i128::MIN,
        ensures
            r.wf(),
            r@ == rinv(self@),
    {
        if self.num > 0 {
            Rat { num: self.den, den: self.num }
        } else {
            Rat { num: -self.den, den: -self.num }
        }
    }

    /// Exact quotient: multiplication by the reciprocal of `other`.
    pub fn div(self, other: Rat) -> (r: Rat)
        requires
            self.wf(),
            other.wf(),
            other.num != 0,
            other.num != i128::MIN,
            rdiv_fits(self@, other@),
        ensures
            r.wf(),
            r@ == rdiv(self@, other@),
    {
        let inv = other.recip();
        proof {
            assert(rmul_fits(self@, rinv(other@))) by {
                assert(self@.n * rinv(other@).n == self@.n * other@.d
                    || self@.n * rinv(other@).n == -(self@.n * other@.d)) by (nonlinear_arith);
                assert(self@.d * rinv(other@).d == self@.d * other@.n
                    || self@.d * rinv(other@).d == -(self@.d * other@.n)) by (nonlinear_arith);
            }
        }
        self.mul(inv)
    }

    /// Exact equality test of the denoted rational numbers.
    pub fn eq_rat(self, other: Rat) -> (r: bool)
        requires
            self.wf(),
            other.wf(),
            rcmp_fits(self@, other@),
        ensures
            r == ratio_eq(self@, other@),
    {
        self.num * other.den == other.num * self.den
    }

    /// Exact `<=` test of the denoted rational numbers.
    pub fn le(self, other: Rat) -> (r: bool)
        requires
            self.wf(),
            other.wf(),
            rcmp_fits(self@, other@),
        ensures
            r == ratio_le(self@, other@),
    {
        self.num * other.den <= other.num * self.den
    }

    /// Exact `<` test of the denoted rational numbers.
    pub fn lt(self, other: Rat) -> (r: bool)
        requires
            self.wf(),
            other.wf(),
            rcmp_fits(self@, other@),
        ensures
            r == ratio_lt(self@, other@),
    {
        self.num * other.den < other.num * self.den
    }
}

} // verus!

verus! {

/// Precision denominator of the square-root approximation: results carry
/// an extra factor of `SQRT_PREC` in their denominator.
pub const SQRT_PREC: i128 = 4096;

/// Strict upper bound on the numerator returned by `Rat::sqrt_floor`.
pub const SQRT_NUM_BOUND: i128 = 0x1_0000_0000_0000_0000;

/// `r` approximates the square root of `x` from below: `r^2 <= x` and
/// already `(r + 1/r.d)^2` overshoots `x`.
pub open spec fn sqrt_bracket(r: Ratio, x: Ratio) -> bool {
    &&& rwf(r)
    &&& r.n >= 0
    &&& ratio_le(rmul(r, r), x)
    &&& ratio_lt(x, rmul(radd(r, Ratio { n: 1, d: r.d }), radd(r, Ratio { n: 1, d: r.d })))
}

/// The products formed by `Rat::sqrt_floor` stay representable.
pub open spec fn sqrt_fits(x: Ratio) -> bool {
    &&& in_range(x.n * x.d * (SQRT_PREC * SQRT_PREC))
    &&& in_range(x.d * SQRT_PREC)
}

/// Integer square root by binary search.
fn isqrt(n: u128) -> (r: u128)
    ensures
        r * r <= n,
        n < (r + 1) * (r + 1),
        r < 0x1_0000_0000_0000_0000,
{
    let mut lo: u128 = 0;
    let mut hi: u128 = 0x1_0000_0000_0000_0000;
    proof {
        assert(n < hi * hi) by (nonlinear_arith)
            requires hi == 0x1_0000_0000_0000_0000u128, n <= u128::MAX;
    }
    while lo + 1 < hi
        invariant
            lo < hi <= 0x1_0000_0000_0000_0000,
            lo * lo <= n,
            n < hi * hi,
        decreases hi - lo,
    {
        let mid: u128 = lo + (hi - lo) / 2;
        proof {
            assert(mid * mid <= u128::MAX) by (nonlinear_arith)
                requires mid < 0x1_0000_0000_0000_0000u128;
        }
        if mid * mid <= n {
            lo = mid;
        } else {
            hi = mid;
        }
    }
    lo
}

impl Rat {
    /// Largest fraction of denominator `den * SQRT_PREC` whose square is at
    /// most `self`; `self` lies strictly below the square of the next such
    /// fraction.
    pub fn sqrt_floor(self) -> (r: Rat)
        requires
            self.wf(),
            self.num >= 0,
            sqrt_fits(self@),
        ensures
            r.wf(),
            sqrt_bracket(r@, self@),
            r.num >= 0,
            r.num < SQRT_NUM_BOUND,
            r.den == self.den * SQRT_PREC,
            self.num > 0 ==> r.num >= 1,
    {
        let ghost p: int = self@.n;
        let ghost q: int = self@.d;
        let ghost k: int = SQRT_PREC as int;
        proof {
            assert(p * q <= p * q * (k * k) && p * q >= 0 && p * q * (k * k) == (p * q) * (k * k))
                by (nonlinear_arith)
                requires p >= 0, q > 0, k == 4096, in_range(p * q * (k * k));
        }
        let pq: u128 = (self.num as u128) * (self.den as u128);
        let m: u128 = pq * ((SQRT_PREC * SQRT_PREC) as u128);
        let s: u128 = isqrt(m);
        proof {
            assert(q * k > 0 && q * k <= i128::MAX) by (nonlinear_arith)
                requires q > 0, k == 4096, in_range(q * k);
        }
        let rden: i128 = self.den * SQRT_PREC;
        proof {
            let si = s as int;
            let rd = q * k;
            assert((si * si) * q <= p * (rd * rd)) by (nonlinear_arith)
                requires si * si <= (p * q) * (k * k), q > 0, rd == q * k;
            assert(p * ((rd * rd) * (rd * rd)) < ((si * rd + rd) * (si * rd + rd)) * q)
                by (nonlinear_arith)
                requires (p * q) * (k * k) < (si + 1) * (si + 1), q > 0, k > 0, rd == q * k;
            if p > 0 {
                assert(k * k <= (p * q) * (k * k)) by (nonlinear_arith)
                    requires p >= 1, q >= 1, k > 0;
                assert(si >= k) by (nonlinear_arith)
                    requires k * k < (si + 1) * (si + 1), k > 0, si >= 0;
            }
        }
        Rat { num: s as i128, den: rden }
    }
}

} // verus!
