//! 3-D vectors over exact rational scalars.

use vstd::prelude::*;
use crate::rat::{
    Ratio, Rat, rwf, ratio_eq, radd, rsub, rmul, rinv, rdiv, rzero,
    in_range, radd_fits, rsub_fits, rmul_fits, rdiv_fits,
    sqrt_bracket, sqrt_fits, SQRT_PREC, SQRT_NUM_BOUND,
};

verus! {

/// Mathematical model of a vector: three exact fractions.
pub ghost struct V3 {
    pub x: Ratio,
    pub y: Ratio,
    pub z: Ratio,
}

pub open spec fn v3wf(v: V3) -> bool {
    rwf(v.x) && rwf(v.y) && rwf(v.z)
}

/// Component-wise equality of the denoted rational numbers.
pub open spec fn v3eq(a: V3, b: V3) -> bool {
    ratio_eq(a.x, b.x) && ratio_eq(a.y, b.y) && ratio_eq(a.z, b.z)
}

pub open spec fn v3zero() -> V3 {
    V3 { x: rzero(), y: rzero(), z: rzero() }
}

pub open spec fn v3add(a: V3, b: V3) -> V3 {
    V3 { x: radd(a.x, b.x), y: radd(a.y, b.y), z: radd(a.z, b.z) }
}

pub open spec fn v3sub(a: V3, b: V3) -> V3 {
    V3 { x: rsub(a.x, b.x), y: rsub(a.y, b.y), z: rsub(a.z, b.z) }
}

pub open spec fn v3scale(v: V3, s: Ratio) -> V3 {
    V3 { x: rmul(v.x, s), y: rmul(v.y, s), z: rmul(v.z, s) }
}

pub open spec fn v3dot(a: V3, b: V3) -> Ratio {
    radd(radd(rmul(a.x, b.x), rmul(a.y, b.y)), rmul(a.z, b.z))
}

/// Right-handed cross product.
pub open spec fn v3cross(a: V3, b: V3) -> V3 {
    V3 {
        x: rsub(rmul(a.y, b.z), rmul(a.z, b.y)),
        y: rsub(rmul(a.z, b.x), rmul(a.x, b.z)),
        z: rsub(rmul(a.x, b.y), rmul(a.y, b.x)),
    }
}

/// Squared euclidean norm.
pub open spec fn v3norm2(v: V3) -> Ratio {
    v3dot(v, v)
}

pub open spec fn v3add_fits(a: V3, b: V3) -> bool {
    radd_fits(a.x, b.x) && radd_fits(a.y, b.y) && radd_fits(a.z, b.z)
}

pub open spec fn v3sub_fits(a: V3, b: V3) -> bool {
    rsub_fits(a.x, b.x) && rsub_fits(a.y, b.y) && rsub_fits(a.z, b.z)
}

pub open spec fn v3scale_fits(v: V3, s: Ratio) -> bool {
    rmul_fits(v.x, s) && rmul_fits(v.y, s) && rmul_fits(v.z, s)
}

pub open spec fn v3dot_fits(a: V3, b: V3) -> bool {
    &&& rmul_fits(a.x, b.x)
    &&& rmul_fits(a.y, b.y)
    &&& rmul_fits(a.z, b.z)
    &&& radd_fits(rmul(a.x, b.x), rmul(a.y, b.y))
    &&& radd_fits(radd(rmul(a.x, b.x), rmul(a.y, b.y)), rmul(a.z, b.z))
}

pub open spec fn v3cross_fits(a: V3, b: V3) -> bool {
    &&& rmul_fits(a.y, b.z) && rmul_fits(a.z, b.y) && rsub_fits(rmul(a.y, b.z), rmul(a.z, b.y))
    &&& rmul_fits(a.z, b.x) && rmul_fits(a.x, b.z) && rsub_fits(rmul(a.z, b.x), rmul(a.x, b.z))
    &&& rmul_fits(a.x, b.y) && rmul_fits(a.y, b.x) && rsub_fits(rmul(a.x, b.y), rmul(a.y, b.x))
}

/// The products formed by `Vec3::unit_vector` stay representable.
pub open spec fn v3unit_fits(v: V3) -> bool {
    &&& v3dot_fits(v, v)
    &&& sqrt_fits(v3norm2(v))
    &&& in_range(v.x.n * (v3norm2(v).d * SQRT_PREC))
    &&& in_range(v.y.n * (v3norm2(v).d * SQRT_PREC))
    &&& in_range(v.z.n * (v3norm2(v).d * SQRT_PREC))
    &&& in_range(v.x.d * SQRT_NUM_BOUND)
    &&& in_range(v.y.d * SQRT_NUM_BOUND)
    &&& in_range(v.z.d * SQRT_NUM_BOUND)
}

/// `len` is the approximate length of `v` and `u` is `v` divided by it.
pub open spec fn v3unit_rel(len: Ratio, v: V3, u: V3) -> bool {
    &&& sqrt_bracket(len, v3norm2(v))
    &&& u.x == rdiv(v.x, len)
    &&& u.y == rdiv(v.y, len)
    &&& u.z == rdiv(v.z, len)
}

/// A 3-D vector of exact rational components.
#[derive(Clone, Copy, Debug)]
pub struct Vec3 {
    x: Rat,
    y: Rat,
    z: Rat,
}

impl View for Vec3 {
    type V = V3;

    closed spec fn view(&self) -> V3 {
        V3 { x: self.x@, y: self.y@, z: self.z@ }
    }
}

impl Vec3 {
    pub open spec fn wf(self) -> bool {
        v3wf(self@)
    }

    pub fn new(x: Rat, y: Rat, z: Rat) -> (v: Vec3)
        requires
            x.wf(),
            y.wf(),
            z.wf(),
        ensures
            v.wf(),
            v@ == (V3 { x: x@, y: y@, z: z@ }),
    {
        Vec3 { x, y, z }
    }

    /// The zero vector.
    pub fn zero() -> (v: Vec3)
        ensures
            v.wf(),
            v@ == v3zero(),
    {
        Vec3 { x: Rat::from_int(0), y: Rat::from_int(0), z: Rat::from_int(0) }
    }

    pub fn x(&self) -> (r: Rat)
        ensures r@ == self@.x,
    {
        self.x
    }

    pub fn y(&self) -> (r: Rat)
        ensures r@ == self@.y,
    {
        self.y
    }

    pub fn z(&self) -> (r: Rat)
        ensures r@ == self@.z,
    {
        self.z
    }

    /// Component-wise exact sum.
    pub fn add(self, other: Vec3) -> (r: Vec3)
        requires
            self.wf(),
            other.wf(),
            v3add_fits(self@, other@),
        ensures
            r.wf(),
            r@ == v3add(self@, other@),
    {
        Vec3 { x: self.x.add(other.x), y: self.y.add(other.y), z: self.z.add(other.z) }
    }

    /// Component-wise exact difference.
    pub fn sub(self, other: Vec3) -> (r: Vec3)
        requires
            self.wf(),
            other.wf(),
            v3sub_fits(self@, other@),
        ensures
            r.wf(),
            r@ == v3sub(self@, other@),
    {
        Vec3 { x: self.x.sub(other.x), y: self.y.sub(other.y), z: self.z.sub(other.z) }
    }

    /// Exact scaling by a scalar (`v * k`; `k * v` is `Rat::scale_vec`).
    pub fn mul(self, s: Rat) -> (r: Vec3)
        requires
            self.wf(),
            s.wf(),
            v3scale_fits(self@, s@),
        ensures
            r.wf(),
            r@ == v3scale(self@, s@),
    {
        Vec3 { x: self.x.mul(s), y: self.y.mul(s), z: self.z.mul(s) }
    }

    /// Exact division by a scalar, defined as multiplication by its
    /// reciprocal.
    pub fn div(self, s: Rat) -> (r: Vec3)
        requires
            self.wf(),
            s.wf(),
            s.num != 0,
            s.num != i128::MIN,
            v3scale_fits(self@, rinv(s@)),
        ensures
            r.wf(),
            r@ == v3scale(self@, rinv(s@)),
    {
        let inv = s.recip();
        Vec3 { x: self.x.mul(inv), y: self.y.mul(inv), z: self.z.mul(inv) }
    }

    /// Exact dot product.
    pub fn dot(&self, other: &Vec3) -> (r: Rat)
        requires
            self.wf(),
            other.wf(),
            v3dot_fits(self@, other@),
        ensures
            r.wf(),
            r@ == v3dot(self@, other@),
    {
        self.x.mul(other.x).add(self.y.mul(other.y)).add(self.z.mul(other.z))
    }

    /// Exact right-handed cross product.
    pub fn cross(&self, other: Vec3) -> (r: Vec3)
        requires
            self.wf(),
            other.wf(),
            v3cross_fits(self@, other@),
        ensures
            r.wf(),
            r@ == v3cross(self@, other@),
    {
        Vec3 {
            x: self.y.mul(other.z).sub(self.z.mul(other.y)),
            y: self.z.mul(other.x).sub(self.x.mul(other.z)),
            z: self.x.mul(other.y).sub(self.y.mul(other.x)),
        }
    }

    /// Exact squared length.
    pub fn length_squared(&self) -> (r: Rat)
        requires
            self.wf(),
            v3dot_fits(self@, self@),
        ensures
            r.wf(),
            r@ == v3norm2(self@),
    {
        let c = *self;
        self.dot(&c)
    }

    /// Approximate length: the largest fraction of denominator
    /// `norm2.den * SQRT_PREC` whose square is at most the squared length.
    pub fn length(&self) -> (r: Rat)
        requires
            self.wf(),
            v3dot_fits(self@, self@),
            sqrt_fits(v3norm2(self@)),
        ensures
            r.wf(),
            sqrt_bracket(r@, v3norm2(self@)),
            0 <= r@.n < SQRT_NUM_BOUND,
            r@.d == v3norm2(self@).d * SQRT_PREC,
            v3norm2(self@).n > 0 ==> r@.n >= 1,
    {
        let ls = self.length_squared();
        proof {
            lemma_norm2_nonneg(self@);
        }
        ls.sqrt_floor()
    }

    /// Approximate unit vector: `self` divided by `self.length()`.
    /// Precondition: the vector is not zero.
    pub fn unit_vector(&self) -> (r: Vec3)
        requires
            self.wf(),
            v3unit_fits(self@),
            v3norm2(self@).n != 0,
        ensures
            r.wf(),
            exists|len: Ratio| v3unit_rel(len, self@, r@),
    {
        proof {
            lemma_norm2_nonneg(self@);
        }
        let len = self.length();
        proof {
            let b = SQRT_NUM_BOUND as int;
            assert(in_range(self@.x.d * len@.n) && in_range(self@.y.d * len@.n)
                    && in_range(self@.z.d * len@.n)) by (nonlinear_arith)
                requires
                    0 <= len@.n < b,
                    self@.x.d > 0, self@.y.d > 0, self@.z.d > 0,
                    in_range(self@.x.d * b), in_range(self@.y.d * b), in_range(self@.z.d * b);
        }
        let r = Vec3 { x: self.x.div(len), y: self.y.div(len), z: self.z.div(len) };
        proof {
            assert(v3unit_rel(len@, self@, r@));
        }
        r
    }
}

impl Rat {
    /// Scalar-on-the-left multiplication: `k * v` gives the same vector as
    /// `v * k`.
    pub fn scale_vec(self, v: Vec3) -> (r: Vec3)
        requires
            self.wf(),
            v.wf(),
            v3scale_fits(v@, self@),
        ensures
            r.wf(),
            r@ == v3scale(v@, self@),
    {
        v.mul(self)
    }
}

impl Default for Vec3 {
    /// The default vector is the zero vector.
    fn default() -> (v: Vec3)
        ensures
            v.wf(),
            v@ == v3zero(),
    {
        Vec3::zero()
    }
}

/// The squared norm of a well-formed vector is a nonnegative fraction.
pub proof fn lemma_norm2_nonneg(v: V3)
    requires
        v3wf(v),
    ensures
        v3norm2(v).n >= 0,
        v3norm2(v).d > 0,
{
    assert(((v.x.n * v.x.n) * (v.y.d * v.y.d) + (v.y.n * v.y.n) * (v.x.d * v.x.d))
            * (v.z.d * v.z.d)
            + (v.z.n * v.z.n) * ((v.x.d * v.x.d) * (v.y.d * v.y.d)) >= 0) by (nonlinear_arith)
        requires v.x.d > 0, v.y.d > 0, v.z.d > 0;
    assert(((v.x.d * v.x.d) * (v.y.d * v.y.d)) * (v.z.d * v.z.d) > 0) by (nonlinear_arith)
        requires v.x.d > 0, v.y.d > 0, v.z.d > 0;
}

/// Addition of fractions is commutative.
pub proof fn lemma_radd_comm(a: Ratio, b: Ratio)
    ensures
        ratio_eq(radd(a, b), radd(b, a)),
{
    assert((a.n * b.d + b.n * a.d) * (b.d * a.d) == (b.n * a.d + a.n * b.d) * (a.d * b.d))
        by (nonlinear_arith);
}

/// Addition of fractions is associative.
pub proof fn lemma_radd_assoc(a: Ratio, b: Ratio, c: Ratio)
    ensures
        ratio_eq(radd(radd(a, b), c), radd(a, radd(b, c))),
{
    assert((a.n * b.d + b.n * a.d) * c.d == (a.n * b.d) * c.d + (b.n * a.d) * c.d)
        by (nonlinear_arith);
    assert((a.n * b.d) * c.d == a.n * (b.d * c.d)) by (nonlinear_arith);
    assert((b.n * a.d) * c.d == (b.n * c.d) * a.d) by (nonlinear_arith);
    assert(c.n * (a.d * b.d) == (c.n * b.d) * a.d) by (nonlinear_arith);
    assert((b.n * c.d + c.n * b.d) * a.d == (b.n * c.d) * a.d + (c.n * b.d) * a.d)
        by (nonlinear_arith);
    assert((a.n * b.d + b.n * a.d) * c.d + c.n * (a.d * b.d)
            == a.n * (b.d * c.d) + (b.n * c.d + c.n * b.d) * a.d);
    assert(a.d * (b.d * c.d) == (a.d * b.d) * c.d) by (nonlinear_arith);
    assert(((a.n * b.d + b.n * a.d) * c.d + c.n * (a.d * b.d)) * (a.d * (b.d * c.d))
            == (a.n * (b.d * c.d) + (b.n * c.d + c.n * b.d) * a.d) * ((a.d * b.d) * c.d));
}

/// Vector addition is commutative: `a + b == b + a` as rational vectors.
pub proof fn lemma_vec_add_comm(a: V3, b: V3)
    ensures
        v3eq(v3add(a, b), v3add(b, a)),
{
    lemma_radd_comm(a.x, b.x);
    lemma_radd_comm(a.y, b.y);
    lemma_radd_comm(a.z, b.z);
}

/// Vector addition is associative: `(a + b) + c == a + (b + c)` as rational
/// vectors.
pub proof fn lemma_vec_add_assoc(a: V3, b: V3, c: V3)
    ensures
        v3eq(v3add(v3add(a, b), c), v3add(a, v3add(b, c))),
{
    lemma_radd_assoc(a.x, b.x, c.x);
    lemma_radd_assoc(a.y, b.y, c.y);
    lemma_radd_assoc(a.z, b.z, c.z);
}

/// Scaling by a nonzero scalar and then dividing by it reproduces the
/// vector exactly (rational arithmetic has no rounding).
pub proof fn lemma_vec_mul_div_cancel(v: V3, k: Ratio)
    requires
        k.n != 0,
    ensures
        v3eq(v3scale(v3scale(v, k), rinv(k)), v),
{
    lemma_rmul_rinv_cancel(v.x, k);
    lemma_rmul_rinv_cancel(v.y, k);
    lemma_rmul_rinv_cancel(v.z, k);
}

/// Multiplying by `k` and then by its reciprocal reproduces a fraction.
pub proof fn lemma_rmul_rinv_cancel(a: Ratio, k: Ratio)
    requires
        k.n != 0,
    ensures
        ratio_eq(rmul(rmul(a, k), rinv(k)), a),
{
    if k.n >= 0 {
        assert(((a.n * k.n) * k.d) * a.d == a.n * ((a.d * k.d) * k.n)) by (nonlinear_arith);
    } else {
        assert(((a.n * k.n) * -k.d) * a.d == a.n * ((a.d * k.d) * -k.n)) by (nonlinear_arith);
    }
}

/// The dot product is commutative.
pub proof fn lemma_dot_comm(a: V3, b: V3)
    ensures
        ratio_eq(v3dot(a, b), v3dot(b, a)),
{
    assert((((a.x.n * b.x.n) * (a.y.d * b.y.d) + (a.y.n * b.y.n) * (a.x.d * b.x.d))
                * (a.z.d * b.z.d) + (a.z.n * b.z.n) * ((a.x.d * b.x.d) * (a.y.d * b.y.d)))
            * ((b.x.d * a.x.d) * (b.y.d * a.y.d) * (b.z.d * a.z.d))
            == (((b.x.n * a.x.n) * (b.y.d * a.y.d) + (b.y.n * a.y.n) * (b.x.d * a.x.d))
                * (b.z.d * a.z.d) + (b.z.n * a.z.n) * ((b.x.d * a.x.d) * (b.y.d * a.y.d)))
            * ((a.x.d * b.x.d) * (a.y.d * b.y.d) * (a.z.d * b.z.d))) by (nonlinear_arith);
}

} // verus!
