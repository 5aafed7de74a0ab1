//! The per-pixel computation: background gradient and the full
//! pixel-to-color pipeline. The render loop around it (raster iteration,
//! image buffer, file output) is the caller's concern.

use vstd::prelude::*;
use crate::rat::{
    Ratio, Rat, rwf, ratio_eq, ratio_le, ratio_lt, radd, rsub, rmul, rdiv, rzero, rone,
    in_range, sqrt_bracket, sqrt_fits, SQRT_PREC, SQRT_NUM_BOUND,
};
use crate::vec3::{Vec3, V3, v3eq, v3add, v3scale, v3norm2, v3zero};
use crate::ray::Ray;
use crate::color::{Color, byte_of, rgb_fits};
use crate::camera::{Camera, cam_wf, dir_closed, rhalf, IMAGE_WIDTH, IMAGE_HEIGHT};
use crate::sphere::{Sphere, SphereModel, sphere_hit_spec, hit_fits};

verus! {

/// The sky tint at the top of the background gradient.
pub open spec fn sky_blue() -> V3 {
    V3 { x: Ratio { n: 1, d: 2 }, y: Ratio { n: 7, d: 10 }, z: rone() }
}

pub open spec fn vwhite() -> V3 {
    V3 { x: rone(), y: rone(), z: rone() }
}

/// The background color for gradient parameter `t`:
/// `(1 - t) * white + t * sky_blue`.
pub open spec fn gradient_spec(t: Ratio) -> V3 {
    v3add(v3scale(vwhite(), rsub(rone(), t)), v3scale(sky_blue(), t))
}

/// `c` is the background color of a ray with direction `d`: with `len` the
/// approximate length of `d`, the gradient is taken at
/// `t = (d.y / len + 1) / 2`.
pub open spec fn background_rel(len: Ratio, d: V3, c: V3) -> bool {
    &&& sqrt_bracket(len, v3norm2(d))
    &&& v3eq(c, gradient_spec(rmul(radd(rdiv(d.y, len), rone()), rhalf())))
}

/// The products formed by `ray_color` stay representable. The bindings
/// mirror the executable computation step for step.
pub open spec fn gradient_fits(d: V3) -> bool {
    let dyz = d.y.d * d.z.d;
    let dxz = d.x.d * d.z.d;
    let dxy = d.x.d * d.y.d;
    let dxi = d.x.n * dyz;
    let dyi = d.y.n * dxz;
    let dzi = d.z.n * dxy;
    let ai = dxi * dxi + dyi * dyi + dzi * dzi;
    let ld = d.x.d * dyz;
    let ll = ld * ld;
    &&& in_range(dyz) && in_range(dxz) && in_range(dxy)
    &&& in_range(dxi) && in_range(dyi) && in_range(dzi)
    &&& in_range(dxi * dxi) && in_range(dyi * dyi) && in_range(dzi * dzi)
    &&& in_range(dxi * dxi + dyi * dyi) && in_range(ai)
    &&& in_range(ld) && in_range(ll)
    &&& in_range(ai * ll * (SQRT_PREC * SQRT_PREC))
    &&& in_range(ll * SQRT_PREC)
    &&& in_range(8192 * (d.y.n * (ll * SQRT_PREC)))
    &&& in_range(8192 * (d.y.d * SQRT_NUM_BOUND))
}

/// `ratio_le(a, b)` survives replacing `b` by an equal fraction.
proof fn lemma_le_subst_right(a: Ratio, b: Ratio, c: Ratio)
    requires
        ratio_le(a, b),
        ratio_eq(b, c),
        b.d > 0,
        c.d > 0,
    ensures
        ratio_le(a, c),
{
    assert(a.n * c.d <= c.n * a.d) by (nonlinear_arith)
        requires
            a.n * b.d <= b.n * a.d,
            b.n * c.d == c.n * b.d,
            b.d > 0,
            c.d > 0;
}

/// `ratio_lt(a, s)` survives replacing `a` by an equal fraction.
proof fn lemma_lt_subst_left(a: Ratio, c: Ratio, s: Ratio)
    requires
        ratio_lt(a, s),
        ratio_eq(a, c),
        a.d > 0,
        c.d > 0,
    ensures
        ratio_lt(c, s),
{
    assert(c.n * s.d < s.n * c.d) by (nonlinear_arith)
        requires
            a.n * s.d < s.n * a.d,
            a.n * c.d == c.n * a.d,
            a.d > 0,
            c.d > 0;
}

/// The bespoke squared-length fraction equals `v3norm2`.
proof fn lemma_ls_eq_norm2(d: V3, ai: int, ll: int)
    requires
        d.x.d > 0,
        d.y.d > 0,
        d.z.d > 0,
        ll > 0,
        ai == (d.x.n * (d.y.d * d.z.d)) * (d.x.n * (d.y.d * d.z.d))
            + (d.y.n * (d.x.d * d.z.d)) * (d.y.n * (d.x.d * d.z.d))
            + (d.z.n * (d.x.d * d.y.d)) * (d.z.n * (d.x.d * d.y.d)),
        ll == (d.x.d * (d.y.d * d.z.d)) * (d.x.d * (d.y.d * d.z.d)),
    ensures
        ratio_eq(Ratio { n: ai, d: ll }, v3norm2(d)),
        ai >= 0,
        v3norm2(d).d > 0,
{
    let q = v3norm2(d);
    assert(q.d > 0) by (nonlinear_arith)
        requires
            q.d == ((d.x.d * d.x.d) * (d.y.d * d.y.d)) * (d.z.d * d.z.d),
            d.x.d > 0, d.y.d > 0, d.z.d > 0;
    let dxn = d.x.n;
    let dxd = d.x.d;
    let dyn0 = d.y.n;
    let dyd = d.y.d;
    let dzn = d.z.n;
    let dzd = d.z.d;
    let w1 = (dxn * dxn) * (dyd * dyd);
    let w2 = (dyn0 * dyn0) * (dxd * dxd);
    let w3 = (dzn * dzn) * ((dxd * dxd) * (dyd * dyd));
    assert(q.n == (w1 + w2) * (dzd * dzd) + w3);
    assert(q.d == ((dxd * dxd) * (dyd * dyd)) * (dzd * dzd));
    assert((dxn * (dyd * dzd)) * (dxn * (dyd * dzd)) == w1 * (dzd * dzd)) by (nonlinear_arith)
        requires w1 == (dxn * dxn) * (dyd * dyd);
    assert((dyn0 * (dxd * dzd)) * (dyn0 * (dxd * dzd)) == w2 * (dzd * dzd)) by (nonlinear_arith)
        requires w2 == (dyn0 * dyn0) * (dxd * dxd);
    assert((dzn * (dxd * dyd)) * (dzn * (dxd * dyd)) == w3) by (nonlinear_arith)
        requires w3 == (dzn * dzn) * ((dxd * dxd) * (dyd * dyd));
    assert(ai == q.n) by (nonlinear_arith)
        requires
            ai == w1 * (dzd * dzd) + w2 * (dzd * dzd) + w3,
            q.n == (w1 + w2) * (dzd * dzd) + w3;
    assert((dxd * (dyd * dzd)) * (dxd * (dyd * dzd)) == ((dxd * dxd) * (dyd * dyd)) * (dzd * dzd))
        by (nonlinear_arith);
    assert(ll == q.d);
    assert(ai * q.d == q.n * ll);
    assert(ai >= 0) by (nonlinear_arith)
        requires ai == q.n, q.n == (w1 + w2) * (dzd * dzd) + w3,
            w1 == (dxn * dxn) * (dyd * dyd), w2 == (dyn0 * dyn0) * (dxd * dxd),
            w3 == (dzn * dzn) * ((dxd * dxd) * (dyd * dyd));
}

/// The background gradient of a ray that misses everything: white at the
/// horizon shading to `sky_blue` straight up, driven by the normalized
/// direction's height. Precondition: the direction is not the zero vector.
pub fn ray_color(ray: &Ray) -> (c: Color)
    requires
        ray.wf(),
        gradient_fits(ray@.direction),
        ray@.direction.x.n != 0 || ray@.direction.y.n != 0 || ray@.direction.z.n != 0,
    ensures
        c.wf(),
        rgb_fits(c@),
        exists|len: Ratio| background_rel(len, ray@.direction, c@),
{
    let d = *ray.direction();
    let (dx, dy, dz) = (d.x(), d.y(), d.z());
    let ghost dv = ray@.direction;
    let dyz: i128 = dy.den * dz.den;
    let dxz: i128 = dx.den * dz.den;
    let dxy: i128 = dx.den * dy.den;
    let dxi: i128 = dx.num * dyz;
    let dyi: i128 = dy.num * dxz;
    let dzi: i128 = dz.num * dxy;
    let ai: i128 = dxi * dxi + dyi * dyi + dzi * dzi;
    let ld: i128 = dx.den * dyz;
    let ll: i128 = ld * ld;
    proof {
        assert(ld > 0 && ll > 0 && dyz > 0 && dxz > 0 && dxy > 0) by (nonlinear_arith)
            requires
                dx.den > 0, dy.den > 0, dz.den > 0,
                dyz == dy.den * dz.den, dxz == dx.den * dz.den, dxy == dx.den * dy.den,
                ld == dx.den * dyz, ll == ld * ld,
                in_range(dy.den as int * dz.den as int),
                in_range(dx.den as int * dz.den as int),
                in_range(dx.den as int * dy.den as int),
                in_range(dx.den as int * (dy.den as int * dz.den as int)),
                in_range((dx.den as int * (dy.den as int * dz.den as int))
                    * (dx.den as int * (dy.den as int * dz.den as int)));
        lemma_ls_eq_norm2(dv, ai as int, ll as int);
        if dv.x.n != 0 {
            assert(dxi != 0) by (nonlinear_arith)
                requires dxi == dv.x.n * (dv.y.d * dv.z.d), dv.x.n != 0, dv.y.d > 0, dv.z.d > 0,
                    in_range(dv.y.d * dv.z.d), in_range(dv.x.n * (dv.y.d * dv.z.d));
        } else if dv.y.n != 0 {
            assert(dyi != 0) by (nonlinear_arith)
                requires dyi == dv.y.n * (dv.x.d * dv.z.d), dv.y.n != 0, dv.x.d > 0, dv.z.d > 0,
                    in_range(dv.x.d * dv.z.d), in_range(dv.y.n * (dv.x.d * dv.z.d));
        } else {
            assert(dzi != 0) by (nonlinear_arith)
                requires dzi == dv.z.n * (dv.x.d * dv.y.d), dv.z.n != 0, dv.x.d > 0, dv.y.d > 0,
                    in_range(dv.x.d * dv.y.d), in_range(dv.z.n * (dv.x.d * dv.y.d));
        }
        assert(ai > 0) by (nonlinear_arith)
            requires
                ai == dxi * dxi + dyi * dyi + dzi * dzi,
                dxi != 0 || dyi != 0 || dzi != 0,
                in_range(dxi as int * dxi as int), in_range(dyi as int * dyi as int),
                in_range(dzi as int * dzi as int);
    }
    let ls = Rat { num: ai, den: ll };
    let len = ls.sqrt_floor();
    proof {
        assert(in_range(dv.y.n * (ll as int * SQRT_PREC as int))
            && in_range(8192 * (dv.y.d * len@.n)) && in_range(dv.y.d * len@.n)) by (nonlinear_arith)
            requires
                in_range(8192 * (dv.y.n * (ll as int * SQRT_PREC as int))),
                in_range(8192 * (dv.y.d * SQRT_NUM_BOUND as int)),
                0 <= len@.n < SQRT_NUM_BOUND as int,
                dv.y.d > 0;
    }
    let uy = dy.div(len);
    proof {
        assert(uy@.n == dv.y.n * (ll as int * SQRT_PREC as int) && uy@.d == dv.y.d * len@.n);
        assert(in_range(8192 * uy@.n) && in_range(8192 * uy@.d) && uy@.d > 0);
    }
    let tn: i128 = uy.num + uy.den;
    let td: i128 = 2 * uy.den;
    let cx = Rat { num: 2 * td - tn, den: 2 * td };
    let cy = Rat { num: 10 * td - 3 * tn, den: 10 * td };
    let cz = Rat { num: 1, den: 1 };
    proof {
        let t = rmul(radd(rdiv(dv.y, len@), rone()), rhalf());
        assert(rdiv(dv.y, len@) == uy@);
        let tn0 = t.n;
        let td0 = t.d;
        assert(tn0 == uy@.n + uy@.d && td0 == uy@.d * 2);
        let g = gradient_spec(t);
        let s1 = v3scale(vwhite(), rsub(rone(), t));
        let s2 = v3scale(sky_blue(), t);
        assert(g == v3add(s1, s2));
        assert(s1.x == Ratio { n: td0 - tn0, d: td0 });
        assert(s1.y == Ratio { n: td0 - tn0, d: td0 });
        assert(s1.z == Ratio { n: td0 - tn0, d: td0 });
        assert(s2.x == Ratio { n: tn0, d: td0 * 2 });
        assert(s2.y == Ratio { n: 7 * tn0, d: td0 * 10 });
        assert(s2.z == Ratio { n: tn0, d: td0 });
        assert(g.x == Ratio { n: (td0 - tn0) * (td0 * 2) + tn0 * td0, d: td0 * (td0 * 2) });
        assert(g.y == Ratio { n: (td0 - tn0) * (td0 * 10) + (7 * tn0) * td0, d: td0 * (td0 * 10) });
        assert(g.z == Ratio { n: (td0 - tn0) * td0 + tn0 * td0, d: td0 * td0 });
        assert((2 * td - tn) * (td0 * (td0 * 2))
                == ((td0 - tn0) * (td0 * 2) + tn0 * td0) * (2 * td)) by (nonlinear_arith)
            requires td == 2 * (td0 / 2), 2 * td == 2 * td0, tn == tn0;
        assert((10 * td - 3 * tn) * (td0 * (td0 * 10))
                == ((td0 - tn0) * (td0 * 10) + (7 * tn0) * td0) * (10 * td)) by (nonlinear_arith)
            requires 2 * td == 2 * td0, tn == tn0;
        assert(1 * (td0 * td0) == ((td0 - tn0) * td0 + tn0 * td0) * 1) by (nonlinear_arith);
        assert(ratio_eq(cx@, g.x));
        assert(ratio_eq(cy@, g.y));
        assert(ratio_eq(cz@, g.z));
        // the square-root bracket transfers from the bespoke fraction to
        // `v3norm2`.
        let lsq = Ratio { n: ai as int, d: ll as int };
        let n2 = v3norm2(dv);
        assert(n2.d > 0) by (nonlinear_arith)
            requires
                n2.d == ((dv.x.d * dv.x.d) * (dv.y.d * dv.y.d)) * (dv.z.d * dv.z.d),
                dv.x.d > 0, dv.y.d > 0, dv.z.d > 0;
        lemma_le_subst_right(rmul(len@, len@), lsq, n2);
        lemma_lt_subst_left(lsq, n2,
            rmul(radd(len@, Ratio { n: 1, d: len@.d }), radd(len@, Ratio { n: 1, d: len@.d })));
        assert(sqrt_bracket(len@, n2));
    }
    let c = Color::new(cx, cy, cz);
    proof {
        let t = rmul(radd(rdiv(dv.y, len@), rone()), rhalf());
        assert(background_rel(len@, dv, c@));
        assert(in_range(256 * c@.x.n) && in_range(256 * c@.y.n) && in_range(256 * c@.z.n));
    }
    c
}

} // verus!

verus! {

/// A sphere whose coordinates are small enough for the pixel pipeline's
/// integer arithmetic.
pub open spec fn sphere_bounded(s: SphereModel) -> bool {
    &&& -256 <= s.origin.x.n <= 256 && 0 < s.origin.x.d <= 256
    &&& -256 <= s.origin.y.n <= 256 && 0 < s.origin.y.d <= 256
    &&& -256 <= s.origin.z.n <= 256 && 0 < s.origin.z.d <= 256
    &&& -256 <= s.radius.n <= 256 && 0 < s.radius.d <= 256
}

/// Direction of the ray through raster pixel `(x, y)` counted from the
/// bottom-left corner: normalized coordinates `x / (IMAGE_WIDTH - 1)` and
/// `y / (IMAGE_HEIGHT - 1)`.
pub open spec fn pixel_dir(x: int, y: int) -> V3 {
    dir_closed(Ratio { n: x, d: 799 }, Ratio { n: y, d: 449 })
}

/// The three bytes `p` display the background gradient of direction `d`.
pub open spec fn pixel_background(d: V3, p: [u8; 3]) -> bool {
    exists|len: Ratio, c: V3|
        #[trigger] background_rel(len, d, c)
            && p[0] == byte_of(c.x) && p[1] == byte_of(c.y) && p[2] == byte_of(c.z)
}

/// Magnitude bound of a product from magnitude bounds of its factors.
proof fn lemma_mul_bound(a: int, b: int, aa: int, bb: int)
    requires
        -aa <= a <= aa,
        -bb <= b <= bb,
        0 <= aa,
        0 <= bb,
    ensures
        -(aa * bb) <= a * b <= aa * bb,
{
    assert(-(aa * bb) <= a * b <= aa * bb) by (nonlinear_arith)
        requires -aa <= a <= aa, -bb <= b <= bb, 0 <= aa, 0 <= bb;
}

/// The color of one raster pixel: red where the ray through the pixel hits
/// the sphere, the background gradient elsewhere.
pub fn render_pixel(cam: &Camera, sphere: &Sphere, x: u32, y: u32) -> (p: [u8; 3])
    requires
        cam_wf(cam@),
        sphere.wf(),
        sphere_bounded(sphere@),
        x < IMAGE_WIDTH,
        y < IMAGE_HEIGHT,
    ensures
        sphere_hit_spec(sphere@.origin, sphere@.radius, v3zero(), pixel_dir(x as int, y as int))
            ==> p[0] == 255u8 && p[1] == 0u8 && p[2] == 0u8,
        !sphere_hit_spec(sphere@.origin, sphere@.radius, v3zero(), pixel_dir(x as int, y as int))
            ==> pixel_background(pixel_dir(x as int, y as int), p),
{
    let u = Rat { num: x as i128, den: 799 };
    let v = Rat { num: y as i128, den: 449 };
    let ray = cam.ray_for(u, v);
    proof {
        let dd = ray@.direction;
        let cv = sphere@.origin;
        let rr = sphere@.radius;
        let ov = v3zero();
        assert(dd == pixel_dir(x as int, y as int));
        assert(dd.x.n == 32 * (x as int) - 12784 && dd.x.d == 7191);
        assert(dd.y.n == 2 * (y as int) - 449 && dd.y.d == 449);
        assert(dd.z.n == -1 && dd.z.d == 1);
        assert(-12784 <= dd.x.n <= 12784 && -449 <= dd.y.n <= 449);
        // mirror the bindings of `hit_fits` and bound each one
        let ocxn = ov.x.n * cv.x.d - cv.x.n * ov.x.d;
        let ocxd = ov.x.d * cv.x.d;
        let ocyn = ov.y.n * cv.y.d - cv.y.n * ov.y.d;
        let ocyd = ov.y.d * cv.y.d;
        let oczn = ov.z.n * cv.z.d - cv.z.n * ov.z.d;
        let oczd = ov.z.d * cv.z.d;
        assert(-256 <= ocxn <= 256 && 0 < ocxd <= 256);
        assert(-256 <= ocyn <= 256 && 0 < ocyd <= 256);
        assert(-256 <= oczn <= 256 && 0 < oczd <= 256);
        let dyz = dd.y.d * dd.z.d;
        let dxz = dd.x.d * dd.z.d;
        let dxy = dd.x.d * dd.y.d;
        assert(dyz == 449 && dxz == 7191 && dxy == 3228759);
        let dxi = dd.x.n * dyz;
        let dyi = dd.y.n * dxz;
        let dzi = dd.z.n * dxy;
        assert(-5740016 <= dxi <= 5740016);
        assert(-3228759 <= dyi <= 3228759);
        assert(dzi == -3228759);
        let oyz = ocyd * oczd;
        let oxz = ocxd * oczd;
        let oxy = ocxd * ocyd;
        lemma_mul_bound(ocyd, oczd, 256, 256);
        lemma_mul_bound(ocxd, oczd, 256, 256);
        lemma_mul_bound(ocxd, ocyd, 256, 256);
        lemma_mul_bound(oyz, rr.d, 65536, 256);
        lemma_mul_bound(oxz, rr.d, 65536, 256);
        lemma_mul_bound(oxy, rr.d, 65536, 256);
        let ocxi = ocxn * (oyz * rr.d);
        let ocyi = ocyn * (oxz * rr.d);
        let oczi = oczn * (oxy * rr.d);
        lemma_mul_bound(ocxn, oyz * rr.d, 256, 16777216);
        lemma_mul_bound(ocyn, oxz * rr.d, 256, 16777216);
        lemma_mul_bound(oczn, oxy * rr.d, 256, 16777216);
        lemma_mul_bound(oxy, oczd, 65536, 256);
        let ri = rr.n * (oxy * oczd);
        lemma_mul_bound(rr.n, oxy * oczd, 256, 16777216);
        lemma_mul_bound(dxi, dxi, 5740016, 5740016);
        lemma_mul_bound(dyi, dyi, 3228759, 3228759);
        lemma_mul_bound(dzi, dzi, 3228759, 3228759);
        let ai = dxi * dxi + dyi * dyi + dzi * dzi;
        assert(-70368744177664 <= ai <= 70368744177664);
        lemma_mul_bound(ocxi, dxi, 4294967296, 5740016);
        lemma_mul_bound(ocyi, dyi, 4294967296, 3228759);
        lemma_mul_bound(oczi, dzi, 4294967296, 3228759);
        let bi = ocxi * dxi + ocyi * dyi + oczi * dzi;
        assert(-144115188075855872 <= bi <= 144115188075855872);
        lemma_mul_bound(ocxi, ocxi, 4294967296, 4294967296);
        lemma_mul_bound(ocyi, ocyi, 4294967296, 4294967296);
        lemma_mul_bound(oczi, oczi, 4294967296, 4294967296);
        lemma_mul_bound(ri, ri, 4294967296, 4294967296);
        let ci = ocxi * ocxi + ocyi * ocyi + oczi * oczi - ri * ri;
        assert(-295147905179352825856 <= ci <= 295147905179352825856);
        lemma_mul_bound(bi, bi, 144115188075855872, 144115188075855872);
        lemma_mul_bound(ai, ci, 70368744177664, 295147905179352825856);
        assert(hit_fits(cv, rr, ov, dd));
        // bounds for the gradient path
        let ld = dd.x.d * dyz;
        let ll = ld * ld;
        assert(ld == 3228759 && ll == 10424884680081) by (nonlinear_arith)
            requires ld == dd.x.d * dyz, dd.x.d == 7191, dyz == 449, ll == ld * ld;
        lemma_mul_bound(ai, ll, 70368744177664, 10424884680081);
        lemma_mul_bound(ai * ll, SQRT_PREC as int, 733586043134268500065910784, 4096);
        lemma_mul_bound((ai * ll) * (SQRT_PREC as int), SQRT_PREC as int, 3004768432677963776269970571264, 4096);
        assert(ai * ll * (SQRT_PREC as int * SQRT_PREC as int)
            == ((ai * ll) * SQRT_PREC as int) * SQRT_PREC as int) by (nonlinear_arith);
        lemma_mul_bound(ll, SQRT_PREC as int, 10424884680081, 4096);
        lemma_mul_bound(dd.y.n, ll * (SQRT_PREC as int), 449, 42700327649611776);
        lemma_mul_bound(dd.y.d, SQRT_NUM_BOUND as int, 449, 18446744073709551616);
        assert(gradient_fits(dd));
    }
    if sphere.hit(&ray) {
        Color::Red().to_rgb()
    } else {
        let c = ray_color(&ray);
        let p = c.to_rgb();
        proof {
            let dd = ray@.direction;
            let len = choose|len: Ratio| background_rel(len, dd, c@);
            assert(background_rel(len, dd, c@) && p[0] == byte_of(c@.x)
                && p[1] == byte_of(c@.y) && p[2] == byte_of(c@.z));
            assert(pixel_background(dd, p));
        }
        p
    }
}

} // verus!
