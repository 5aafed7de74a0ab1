//! The sphere and its ray-intersection predicate.
//!
//! A ray hits the sphere exactly when the quadratic
//! `a t^2 + b t + c = 0` (with `a = d.d`, `b = 2 (o - center).d`,
//! `c = (o - center).(o - center) - radius^2`) has two distinct real
//! roots, that is when its discriminant is strictly positive; tangency
//! counts as a miss. The executable test clears all denominators and
//! decides the discriminant's sign in integer arithmetic.

use vstd::prelude::*;
use crate::rat::{Ratio, Rat, rwf, rzero, ratio_lt, radd, rsub, rmul, in_range};
use crate::vec3::{Vec3, V3, v3wf, v3sub, v3dot};
use crate::ray::Ray;

verus! {

pub open spec fn rtwo() -> Ratio {
    Ratio { n: 2, d: 1 }
}

pub open spec fn rfour() -> Ratio {
    Ratio { n: 4, d: 1 }
}

/// Mathematical model of a sphere.
pub ghost struct SphereModel {
    pub origin: V3,
    pub radius: Ratio,
}

/// The hit predicate over the mathematical model: the discriminant
/// `b^2 - 4 a c` of the intersection quadratic is strictly positive.
pub open spec fn sphere_hit_spec(center: V3, radius: Ratio, orig: V3, dir: V3) -> bool {
    let oc = v3sub(orig, center);
    let qa = v3dot(dir, dir);
    let qb = rmul(rtwo(), v3dot(oc, dir));
    let qc = rsub(v3dot(oc, oc), rmul(radius, radius));
    ratio_lt(rzero(), rsub(rmul(qb, qb), rmul(rmul(rfour(), qa), qc)))
}

/// The products formed by `Sphere::hit` stay representable. The bindings
/// mirror the executable computation step for step.
pub open spec fn hit_fits(center: V3, radius: Ratio, orig: V3, dir: V3) -> bool {
    let ocxn = orig.x.n * center.x.d - center.x.n * orig.x.d;
    let ocxd = orig.x.d * center.x.d;
    let ocyn = orig.y.n * center.y.d - center.y.n * orig.y.d;
    let ocyd = orig.y.d * center.y.d;
    let oczn = orig.z.n * center.z.d - center.z.n * orig.z.d;
    let oczd = orig.z.d * center.z.d;
    let dyz = dir.y.d * dir.z.d;
    let dxz = dir.x.d * dir.z.d;
    let dxy = dir.x.d * dir.y.d;
    let dxi = dir.x.n * dyz;
    let dyi = dir.y.n * dxz;
    let dzi = dir.z.n * dxy;
    let oyz = ocyd * oczd;
    let oxz = ocxd * oczd;
    let oxy = ocxd * ocyd;
    let ocxi = ocxn * (oyz * radius.d);
    let ocyi = ocyn * (oxz * radius.d);
    let oczi = oczn * (oxy * radius.d);
    let ri = radius.n * (oxy * oczd);
    let ai = dxi * dxi + dyi * dyi + dzi * dzi;
    let bi = ocxi * dxi + ocyi * dyi + oczi * dzi;
    let ci = ocxi * ocxi + ocyi * ocyi + oczi * oczi - ri * ri;
    &&& in_range(orig.x.n * center.x.d) && in_range(center.x.n * orig.x.d)
    &&& in_range(ocxn) && in_range(ocxd)
    &&& in_range(orig.y.n * center.y.d) && in_range(center.y.n * orig.y.d)
    &&& in_range(ocyn) && in_range(ocyd)
    &&& in_range(orig.z.n * center.z.d) && in_range(center.z.n * orig.z.d)
    &&& in_range(oczn) && in_range(oczd)
    &&& in_range(dyz) && in_range(dxz) && in_range(dxy)
    &&& in_range(dxi) && in_range(dyi) && in_range(dzi)
    &&& in_range(oyz) && in_range(oxz) && in_range(oxy)
    &&& in_range(oyz * radius.d) && in_range(oxz * radius.d) && in_range(oxy * radius.d)
    &&& in_range(ocxi) && in_range(ocyi) && in_range(oczi)
    &&& in_range(oxy * oczd) && in_range(ri)
    &&& in_range(dxi * dxi) && in_range(dyi * dyi) && in_range(dzi * dzi)
    &&& in_range(dxi * dxi + dyi * dyi) && in_range(ai)
    &&& in_range(ocxi * dxi) && in_range(ocyi * dyi) && in_range(oczi * dzi)
    &&& in_range(ocxi * dxi + ocyi * dyi) && in_range(bi)
    &&& in_range(ocxi * ocxi) && in_range(ocyi * ocyi) && in_range(oczi * oczi)
    &&& in_range(ri * ri)
    &&& in_range(ocxi * ocxi + ocyi * ocyi)
    &&& in_range(ocxi * ocxi + ocyi * ocyi + oczi * oczi)
    &&& in_range(ci)
    &&& in_range(bi * bi) && in_range(ai * ci)
}

/// An analytic sphere: a center point (named `origin`) and a radius.
pub struct Sphere {
    origin: Vec3,
    radius: Rat,
}

impl View for Sphere {
    type V = SphereModel;

    closed spec fn view(&self) -> SphereModel {
        SphereModel { origin: self.origin@, radius: self.radius@ }
    }
}

impl Sphere {
    pub open spec fn wf(self) -> bool {
        v3wf(self@.origin) && rwf(self@.radius)
    }

    pub fn new(origin: Vec3, radius: Rat) -> (s: Sphere)
        requires
            origin.wf(),
            radius.wf(),
        ensures
            s.wf(),
            s@ == (SphereModel { origin: origin@, radius: radius@ }),
    {
        Sphere { origin, radius }
    }

    /// True exactly when `ray` meets the sphere in two distinct points.
    pub fn hit(&self, ray: &Ray) -> (h: bool)
        requires
            self.wf(),
            ray.wf(),
            hit_fits(self@.origin, self@.radius, ray@.origin, ray@.direction),
        ensures
            h == sphere_hit_spec(self@.origin, self@.radius, ray@.origin, ray@.direction),
    {
        let o = *ray.origin();
        let d = *ray.direction();
        let (ox, oy, oz) = (o.x(), o.y(), o.z());
        let (sx, sy, sz) = (self.origin.x(), self.origin.y(), self.origin.z());
        let (dx, dy, dz) = (d.x(), d.y(), d.z());
        let rn: i128 = self.radius.num;
        let rd: i128 = self.radius.den;
        let ocxn: i128 = ox.num * sx.den - sx.num * ox.den;
        let ocxd: i128 = ox.den * sx.den;
        let ocyn: i128 = oy.num * sy.den - sy.num * oy.den;
        let ocyd: i128 = oy.den * sy.den;
        let oczn: i128 = oz.num * sz.den - sz.num * oz.den;
        let oczd: i128 = oz.den * sz.den;
        let dyz: i128 = dy.den * dz.den;
        let dxz: i128 = dx.den * dz.den;
        let dxy: i128 = dx.den * dy.den;
        let dxi: i128 = dx.num * dyz;
        let dyi: i128 = dy.num * dxz;
        let dzi: i128 = dz.num * dxy;
        let oyz: i128 = ocyd * oczd;
        let oxz: i128 = ocxd * oczd;
        let oxy: i128 = ocxd * ocyd;
        let ocxi: i128 = ocxn * (oyz * rd);
        let ocyi: i128 = ocyn * (oxz * rd);
        let oczi: i128 = oczn * (oxy * rd);
        let ri: i128 = rn * (oxy * oczd);
        let ai: i128 = dxi * dxi + dyi * dyi + dzi * dzi;
        let bi: i128 = ocxi * dxi + ocyi * dyi + oczi * dzi;
        let ci: i128 = ocxi * ocxi + ocyi * ocyi + oczi * oczi - ri * ri;
        proof {
            lemma_hit_equiv(
                self@.origin, self@.radius, ray@.origin, ray@.direction,
                ocxn as int, ocxd as int, ocyn as int, ocyd as int, oczn as int, oczd as int,
                dxi as int, dyi as int, dzi as int,
                ocxi as int, ocyi as int, oczi as int, ri as int,
                ai as int, bi as int, ci as int,
            );
        }
        bi * bi > ai * ci
    }
}

/// `a * b == b * a`.
proof fn lemma_mul_comm(a: int, b: int)
    ensures a * b == b * a,
{
    assert(a * b == b * a) by (nonlinear_arith);
}

/// `(a * b) * (c * d) == (a * c) * (b * d)`.
proof fn lemma_swap4(a: int, b: int, c: int, d: int)
    ensures (a * b) * (c * d) == (a * c) * (b * d),
{
    assert((a * b) * (c * d) == (a * c) * (b * d)) by (nonlinear_arith);
}

/// `(a * b)^2 == a^2 * b^2`.
proof fn lemma_sq_mul(a: int, b: int)
    ensures (a * b) * (a * b) == (a * a) * (b * b),
{
    assert((a * b) * (a * b) == (a * a) * (b * b)) by (nonlinear_arith);
}

/// `(x * r) * y == r * (x * y)`.
proof fn lemma_shift_left(x: int, r: int, y: int)
    ensures (x * r) * y == r * (x * y),
{
    assert((x * r) * y == r * (x * y)) by (nonlinear_arith);
}

/// `x * (r * w) == r * (x * w)`.
proof fn lemma_shift_right(x: int, r: int, w: int)
    ensures x * (r * w) == r * (x * w),
{
    assert(x * (r * w) == r * (x * w)) by (nonlinear_arith);
}

/// `(a * b) * c == a * (b * c)`.
proof fn lemma_mul_assoc(a: int, b: int, c: int)
    ensures (a * b) * c == a * (b * c),
{
    assert((a * b) * c == a * (b * c)) by (nonlinear_arith);
}

/// Reassociation used to clear a mixed product against the radius
/// denominator.
proof fn lemma_clear_mixed(ocn: int, oda: int, odb: int, rd: int, dn: int, dda: int, ddb: int)
    ensures
        (ocn * ((oda * odb) * rd)) * (dn * (dda * ddb))
            == rd * (((ocn * dn) * (oda * dda)) * (odb * ddb)),
{
    let p = (oda * odb) * rd;
    let q = dda * ddb;
    lemma_swap4(ocn, p, dn, q);
    lemma_shift_left(oda * odb, rd, q);
    lemma_swap4(oda, odb, dda, ddb);
    let w = (oda * dda) * (odb * ddb);
    assert(p * q == rd * w);
    lemma_shift_right(ocn * dn, rd, w);
    lemma_mul_assoc(ocn * dn, oda * dda, odb * ddb);
    assert((ocn * p) * (dn * q) == rd * (((ocn * dn) * (oda * dda)) * (odb * ddb)));
}

/// The integer comparison `bi^2 > ai * ci` over the cleared quantities
/// decides the sign of the discriminant of the intersection quadratic.
proof fn lemma_hit_equiv(
    center: V3, radius: Ratio, orig: V3, dir: V3,
    ocxn: int, ocxd: int, ocyn: int, ocyd: int, oczn: int, oczd: int,
    dxi: int, dyi: int, dzi: int,
    ocxi: int, ocyi: int, oczi: int, ri: int,
    ai: int, bi: int, ci: int,
)
    requires
        v3wf(center),
        v3wf(orig),
        v3wf(dir),
        rwf(radius),
        ocxn == orig.x.n * center.x.d - center.x.n * orig.x.d,
        ocxd == orig.x.d * center.x.d,
        ocyn == orig.y.n * center.y.d - center.y.n * orig.y.d,
        ocyd == orig.y.d * center.y.d,
        oczn == orig.z.n * center.z.d - center.z.n * orig.z.d,
        oczd == orig.z.d * center.z.d,
        dxi == dir.x.n * (dir.y.d * dir.z.d),
        dyi == dir.y.n * (dir.x.d * dir.z.d),
        dzi == dir.z.n * (dir.x.d * dir.y.d),
        ocxi == ocxn * ((ocyd * oczd) * radius.d),
        ocyi == ocyn * ((ocxd * oczd) * radius.d),
        oczi == oczn * ((ocxd * ocyd) * radius.d),
        ri == radius.n * ((ocxd * ocyd) * oczd),
        ai == dxi * dxi + dyi * dyi + dzi * dzi,
        bi == ocxi * dxi + ocyi * dyi + oczi * dzi,
        ci == ocxi * ocxi + ocyi * ocyi + oczi * oczi - ri * ri,
    ensures
        sphere_hit_spec(center, radius, orig, dir) == (bi * bi > ai * ci),
{
    let oc = v3sub(orig, center);
    assert(oc.x == Ratio { n: ocxn, d: ocxd });
    assert(oc.y == Ratio { n: ocyn, d: ocyd });
    assert(oc.z == Ratio { n: oczn, d: oczd });
    let mdx = rmul(dir.x, dir.x);
    let mdy = rmul(dir.y, dir.y);
    let mdz = rmul(dir.z, dir.z);
    let pa = radd(mdx, mdy);
    let qa = radd(pa, mdz);
    assert(qa == v3dot(dir, dir));
    let mbx = rmul(oc.x, dir.x);
    let mby = rmul(oc.y, dir.y);
    let mbz = rmul(oc.z, dir.z);
    let pb = radd(mbx, mby);
    let qob = radd(pb, mbz);
    assert(qob == v3dot(oc, dir));
    let mcx = rmul(oc.x, oc.x);
    let mcy = rmul(oc.y, oc.y);
    let mcz = rmul(oc.z, oc.z);
    let pc = radd(mcx, mcy);
    let qoc = radd(pc, mcz);
    assert(qoc == v3dot(oc, oc));
    let qb = rmul(rtwo(), qob);
    let qc = rsub(qoc, rmul(radius, radius));
    let disc = rsub(rmul(qb, qb), rmul(rmul(rfour(), qa), qc));

    let dxn = dir.x.n;
    let dxd = dir.x.d;
    let dyn0 = dir.y.n;
    let dyd = dir.y.d;
    let dzn = dir.z.n;
    let dzd = dir.z.d;
    let rn = radius.n;
    let rd = radius.d;

    // a: the cleared sum of squares is the numerator of `dir . dir`.
    let w1 = (dxn * dxn) * (dyd * dyd);
    let w2 = (dyn0 * dyn0) * (dxd * dxd);
    let w3 = (dzn * dzn) * ((dxd * dxd) * (dyd * dyd));
    assert(qa.n == (w1 + w2) * (dzd * dzd) + w3);
    assert(dxi * dxi == w1 * (dzd * dzd)) by (nonlinear_arith)
        requires dxi == dxn * (dyd * dzd), w1 == (dxn * dxn) * (dyd * dyd);
    assert(dyi * dyi == w2 * (dzd * dzd)) by (nonlinear_arith)
        requires dyi == dyn0 * (dxd * dzd), w2 == (dyn0 * dyn0) * (dxd * dxd);
    assert(dzi * dzi == w3) by (nonlinear_arith)
        requires dzi == dzn * (dxd * dyd), w3 == (dzn * dzn) * ((dxd * dxd) * (dyd * dyd));
    assert(ai == qa.n) by (nonlinear_arith)
        requires
            ai == dxi * dxi + dyi * dyi + dzi * dzi,
            dxi * dxi == w1 * (dzd * dzd),
            dyi * dyi == w2 * (dzd * dzd),
            dzi * dzi == w3,
            qa.n == (w1 + w2) * (dzd * dzd) + w3;

    // b: the cleared mixed sum is `radius.d` times the numerator of `oc . dir`.
    let u1 = (ocxn * dxn) * (ocyd * dyd);
    let u2 = (ocyn * dyn0) * (ocxd * dxd);
    let u3 = (oczn * dzn) * ((ocxd * dxd) * (ocyd * dyd));
    assert(qob.n == (u1 + u2) * (oczd * dzd) + u3);
    lemma_clear_mixed(ocxn, ocyd, oczd, rd, dxn, dyd, dzd);
    assert(ocxi * dxi == rd * (u1 * (oczd * dzd)));
    lemma_clear_mixed(ocyn, ocxd, oczd, rd, dyn0, dxd, dzd);
    assert(ocyi * dyi == rd * (u2 * (oczd * dzd)));
    assert(oczi * dzi == rd * u3) by (nonlinear_arith)
        requires
            oczi == oczn * ((ocxd * ocyd) * rd),
            dzi == dzn * (dxd * dyd),
            u3 == (oczn * dzn) * ((ocxd * dxd) * (ocyd * dyd));
    assert(bi == rd * qob.n) by (nonlinear_arith)
        requires
            bi == ocxi * dxi + ocyi * dyi + oczi * dzi,
            ocxi * dxi == rd * (u1 * (oczd * dzd)),
            ocyi * dyi == rd * (u2 * (oczd * dzd)),
            oczi * dzi == rd * u3,
            qob.n == (u1 + u2) * (oczd * dzd) + u3;

    // c: the cleared sum of squares minus the cleared radius square is the
    // numerator of `oc . oc - radius^2` scaled by `radius.d^2`.
    let g1 = (ocxn * ocxn) * (ocyd * ocyd);
    let g2 = (ocyn * ocyn) * (ocxd * ocxd);
    let g3 = (oczn * oczn) * ((ocxd * ocxd) * (ocyd * ocyd));
    assert(qoc.n == (g1 + g2) * (oczd * oczd) + g3);
    assert(qoc.d == ((ocxd * ocxd) * (ocyd * ocyd)) * (oczd * oczd));
    assert(ocxi * ocxi == (g1 * (oczd * oczd)) * (rd * rd)) by (nonlinear_arith)
        requires ocxi == ocxn * ((ocyd * oczd) * rd), g1 == (ocxn * ocxn) * (ocyd * ocyd);
    assert(ocyi * ocyi == (g2 * (oczd * oczd)) * (rd * rd)) by (nonlinear_arith)
        requires ocyi == ocyn * ((ocxd * oczd) * rd), g2 == (ocyn * ocyn) * (ocxd * ocxd);
    assert(oczi * oczi == g3 * (rd * rd)) by (nonlinear_arith)
        requires oczi == oczn * ((ocxd * ocyd) * rd), g3 == (oczn * oczn) * ((ocxd * ocxd) * (ocyd * ocyd));
    assert(ri * ri == (rn * rn) * (((ocxd * ocxd) * (ocyd * ocyd)) * (oczd * oczd)))
        by (nonlinear_arith)
        requires ri == rn * ((ocxd * ocyd) * oczd);
    assert(ci == qoc.n * (rd * rd) - (rn * rn) * qoc.d) by (nonlinear_arith)
        requires
            ci == ocxi * ocxi + ocyi * ocyi + oczi * oczi - ri * ri,
            ocxi * ocxi == (g1 * (oczd * oczd)) * (rd * rd),
            ocyi * ocyi == (g2 * (oczd * oczd)) * (rd * rd),
            oczi * oczi == g3 * (rd * rd),
            ri * ri == (rn * rn) * (((ocxd * ocxd) * (ocyd * ocyd)) * (oczd * oczd)),
            qoc.n == (g1 + g2) * (oczd * oczd) + g3,
            qoc.d == ((ocxd * ocxd) * (ocyd * ocyd)) * (oczd * oczd);
    assert(ci == qc.n);

    // The denominators removed by the clearing agree on both sides.
    let quot = qa.d * qoc.d;
    let g1 = ocxd * dxd;
    let g2 = ocyd * dyd;
    let g3 = oczd * dzd;
    assert(qob.d == (g1 * g2) * g3);
    lemma_sq_mul(g1 * g2, g3);
    lemma_sq_mul(g1, g2);
    lemma_sq_mul(ocxd, dxd);
    lemma_sq_mul(ocyd, dyd);
    lemma_sq_mul(oczd, dzd);
    assert(qob.d * qob.d == (((ocxd * ocxd) * (dxd * dxd)) * ((ocyd * ocyd) * (dyd * dyd)))
        * ((oczd * oczd) * (dzd * dzd)));
    lemma_swap4((dxd * dxd) * (dyd * dyd), dzd * dzd, (ocxd * ocxd) * (ocyd * ocyd),
        oczd * oczd);
    lemma_swap4(dxd * dxd, dyd * dyd, ocxd * ocxd, ocyd * ocyd);
    lemma_mul_comm(dxd * dxd, ocxd * ocxd);
    lemma_mul_comm(dyd * dyd, ocyd * ocyd);
    lemma_mul_comm(dzd * dzd, oczd * oczd);
    assert(quot == (((ocxd * ocxd) * (dxd * dxd)) * ((ocyd * ocyd) * (dyd * dyd)))
        * ((oczd * oczd) * (dzd * dzd)));
    assert(quot == qob.d * qob.d);
    assert(ocxd > 0 && ocyd > 0 && oczd > 0) by (nonlinear_arith)
        requires
            ocxd == orig.x.d * center.x.d,
            ocyd == orig.y.d * center.y.d,
            oczd == orig.z.d * center.z.d,
            orig.x.d > 0, orig.y.d > 0, orig.z.d > 0,
            center.x.d > 0, center.y.d > 0, center.z.d > 0;
    assert(quot > 0) by (nonlinear_arith)
        requires
            quot == (((dxd * dxd) * (dyd * dyd)) * (dzd * dzd))
                * (((ocxd * ocxd) * (ocyd * ocyd)) * (oczd * oczd)),
            dxd > 0, dyd > 0, dzd > 0, ocxd > 0, ocyd > 0, oczd > 0;

    // Assemble the discriminant's numerator as a positive multiple of
    // `bi^2 - ai * ci`.
    assert(((2 * qob.n) * (2 * qob.n)) * ((1 * qa.d) * (qoc.d * (rd * rd)))
            == 4 * (qa.d * qoc.d) * ((rd * qob.n) * (rd * qob.n))) by (nonlinear_arith);
    assert(((4 * qa.n) * qc.n) * (qa.d * qoc.d)
            == 4 * (qa.d * qoc.d) * (qa.n * qc.n)) by (nonlinear_arith);
    assert(4 * (qa.d * qoc.d) * ((rd * qob.n) * (rd * qob.n))
            - 4 * (qa.d * qoc.d) * (qa.n * qc.n)
            == 4 * (qa.d * qoc.d) * ((rd * qob.n) * (rd * qob.n) - qa.n * qc.n))
        by (nonlinear_arith);
    assert(disc.n == 4 * quot * (bi * bi - ai * ci));
    assert((disc.n > 0) == (bi * bi > ai * ci)) by (nonlinear_arith)
        requires
            disc.n == 4 * quot * (bi * bi - ai * ci),
            quot > 0;
    assert(ratio_lt(rzero(), disc) == (disc.n > 0)) by (nonlinear_arith)
        requires ratio_lt(rzero(), disc) == (0 * disc.d < disc.n * 1);
}

} // verus!
