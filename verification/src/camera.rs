//! The fixed pinhole camera: origin at world zero, a 16:9 viewport of
//! height 2 world units, one focal length along negative depth.

use vstd::prelude::*;
use crate::rat::{Ratio, Rat, rzero, rone, ratio_eq, ratio_le};
use crate::vec3::{Vec3, V3, v3zero, v3eq, v3sub, v3add, v3scale};
use crate::point::Point;
use crate::ray::{Ray, RayModel};

verus! {

/// Raster width tied to the camera's 16:9 aspect ratio.
pub const IMAGE_WIDTH: u32 = 800;

/// Raster height tied to the camera's 16:9 aspect ratio.
pub const IMAGE_HEIGHT: u32 = 450;

/// Largest denominator accepted for a normalized viewport coordinate; the
/// raster coordinates `x / (IMAGE_WIDTH - 1)` and `y / (IMAGE_HEIGHT - 1)`
/// stay well below it.
pub const COORD_DEN_LIMIT: i128 = 1024;

/// Mathematical model of the camera.
pub ghost struct CameraModel {
    pub origin: V3,
    pub horizontal: V3,
    pub vertical: V3,
}

/// One half, as a fraction.
pub open spec fn rhalf() -> Ratio {
    Ratio { n: 1, d: 2 }
}

/// The unit step along the depth axis (the focal offset).
pub open spec fn vfocal() -> V3 {
    V3 { x: rzero(), y: rzero(), z: rone() }
}

/// The single fixed pinhole configuration: origin at world zero,
/// `horizontal = (32/9, 0, 0)` and `vertical = (0, 2, 0)`.
pub open spec fn cam_wf(c: CameraModel) -> bool {
    &&& c.origin == v3zero()
    &&& c.horizontal == (V3 { x: Ratio { n: 32, d: 9 }, y: rzero(), z: rzero() })
    &&& c.vertical == (V3 { x: rzero(), y: Ratio { n: 2, d: 1 }, z: rzero() })
}

/// `origin - horizontal/2 - vertical/2 - (0, 0, focal_length)`.
pub open spec fn bottom_left_spec(c: CameraModel) -> V3 {
    v3sub(
        v3sub(v3sub(c.origin, v3scale(c.horizontal, rhalf())), v3scale(c.vertical, rhalf())),
        vfocal(),
    )
}

/// Direction of the viewport ray for normalized coordinates `(u, v)`:
/// `bottom_left + u * horizontal + v * vertical`.
pub open spec fn ray_dir_spec(c: CameraModel, u: Ratio, v: Ratio) -> V3 {
    v3add(v3add(bottom_left_spec(c), v3scale(c.horizontal, u)), v3scale(c.vertical, v))
}

/// Closed form of that direction for the fixed camera, over the raw
/// numerators and denominators of `u` and `v`.
pub open spec fn dir_closed(u: Ratio, v: Ratio) -> V3 {
    V3 {
        x: Ratio { n: 32 * u.n - 16 * u.d, d: 9 * u.d },
        y: Ratio { n: 2 * v.n - v.d, d: v.d },
        z: Ratio { n: -1, d: 1 },
    }
}

/// The fixed pinhole camera.
pub struct Camera {
    origin: Vec3,
    horizontal: Vec3,
    vertical: Vec3,
}

impl View for Camera {
    type V = CameraModel;

    closed spec fn view(&self) -> CameraModel {
        CameraModel {
            origin: self.origin@,
            horizontal: self.horizontal@,
            vertical: self.vertical@,
        }
    }
}

impl Camera {
    pub fn horizontal(&self) -> (v: Vec3)
        ensures
            v@ == self@.horizontal,
    {
        self.horizontal
    }

    pub fn vertical(&self) -> (v: Vec3)
        ensures
            v@ == self@.vertical,
    {
        self.vertical
    }

    /// The bottom-left corner of the viewport.
    pub fn bottom_left(&self) -> (v: Vec3)
        requires
            cam_wf(self@),
        ensures
            v.wf(),
            v@ == bottom_left_spec(self@),
            v@ == (V3 {
                x: Ratio { n: -64, d: 36 },
                y: Ratio { n: -4, d: 4 },
                z: Ratio { n: -4, d: 4 },
            }),
    {
        let two = Rat::from_int(2);
        let focal = Vec3::new(Rat::from_int(0), Rat::from_int(0), Rat::from_int(1));
        self.origin.sub(self.horizontal.div(two)).sub(self.vertical.div(two)).sub(focal)
    }

    /// The ray from the camera origin through the viewport point selected
    /// by normalized coordinates `(u, v)`, both in `[0, 1]`: its direction
    /// is exactly `bottom_left + u * horizontal + v * vertical`.
    pub fn ray_for(&self, u: Rat, v: Rat) -> (r: Ray)
        requires
            cam_wf(self@),
            u.wf(),
            v.wf(),
            u.den <= COORD_DEN_LIMIT,
            v.den <= COORD_DEN_LIMIT,
            ratio_le(rzero(), u@),
            ratio_le(u@, rone()),
            ratio_le(rzero(), v@),
            ratio_le(v@, rone()),
        ensures
            r.wf(),
            r@.origin == v3zero(),
            r@.direction == dir_closed(u@, v@),
            v3eq(r@.direction, ray_dir_spec(self@, u@, v@)),
    {
        proof {
            assert(0 <= u@.n <= u@.d && 0 <= v@.n <= v@.d);
        }
        let dx = Rat { num: 32 * u.num - 16 * u.den, den: 9 * u.den };
        let dy = Rat { num: 2 * v.num - v.den, den: v.den };
        let dz = Rat { num: -1, den: 1 };
        proof {
            let un = u@.n;
            let ud = u@.d;
            let vn = v@.n;
            let vd = v@.d;
            let bl = bottom_left_spec(self@);
            let m1 = v3scale(self@.horizontal, rhalf());
            let r1 = v3sub(self@.origin, m1);
            let m2 = v3scale(self@.vertical, rhalf());
            let r2 = v3sub(r1, m2);
            assert(bl == v3sub(r2, vfocal()));
            assert(m1.x == Ratio { n: 32, d: 18 });
            assert(m1.y == Ratio { n: 0, d: 2 });
            assert(m1.z == Ratio { n: 0, d: 2 });
            assert(m2.x == Ratio { n: 0, d: 2 });
            assert(m2.y == Ratio { n: 2, d: 2 });
            assert(m2.z == Ratio { n: 0, d: 2 });
            assert(r1.x == Ratio { n: -32, d: 18 });
            assert(r1.y == Ratio { n: 0, d: 2 });
            assert(r1.z == Ratio { n: 0, d: 2 });
            assert(r2.x.n == -64 && r2.x.d == 36) by (nonlinear_arith)
                requires
                    r2.x.n == r1.x.n * m2.x.d - m2.x.n * r1.x.d,
                    r2.x.d == r1.x.d * m2.x.d,
                    r1.x == (Ratio { n: -32, d: 18 }),
                    m2.x == (Ratio { n: 0, d: 2 });
            assert(r2.y.n == -4 && r2.y.d == 4) by (nonlinear_arith)
                requires
                    r2.y.n == r1.y.n * m2.y.d - m2.y.n * r1.y.d,
                    r2.y.d == r1.y.d * m2.y.d,
                    r1.y == (Ratio { n: 0, d: 2 }),
                    m2.y == (Ratio { n: 2, d: 2 });
            assert(r2.z.n == 0 && r2.z.d == 4) by (nonlinear_arith)
                requires
                    r2.z.n == r1.z.n * m2.z.d - m2.z.n * r1.z.d,
                    r2.z.d == r1.z.d * m2.z.d,
                    r1.z == (Ratio { n: 0, d: 2 }),
                    m2.z == (Ratio { n: 0, d: 2 });
            assert(bl.x.n == -64 && bl.x.d == 36) by (nonlinear_arith)
                requires
                    bl.x.n == r2.x.n * 1 - 0 * r2.x.d,
                    bl.x.d == r2.x.d * 1,
                    r2.x.n == -64,
                    r2.x.d == 36;
            assert(bl.y.n == -4 && bl.y.d == 4) by (nonlinear_arith)
                requires
                    bl.y.n == r2.y.n * 1 - 0 * r2.y.d,
                    bl.y.d == r2.y.d * 1,
                    r2.y.n == -4,
                    r2.y.d == 4;
            assert(bl.z.n == -4 && bl.z.d == 4) by (nonlinear_arith)
                requires
                    bl.z.n == r2.z.n * 1 - 1 * r2.z.d,
                    bl.z.d == r2.z.d * 1,
                    r2.z.n == 0,
                    r2.z.d == 4;
            assert(bl.x == Ratio { n: -64, d: 36 });
            assert(bl.y == Ratio { n: -4, d: 4 });
            assert(bl.z == Ratio { n: -4, d: 4 });
            let hu = v3scale(self@.horizontal, u@);
            let vv = v3scale(self@.vertical, v@);
            let inner = v3add(bl, hu);
            let s = v3add(inner, vv);
            assert(s == ray_dir_spec(self@, u@, v@));
            assert(inner.x.n == -64 * (9 * ud) + (32 * un) * 36);
            assert(inner.x.d == 36 * (9 * ud));
            assert(s.x.n == inner.x.n * (1 * vd) + (0 * vn) * inner.x.d);
            assert(s.x.d == inner.x.d * (1 * vd));
            assert((32 * un - 16 * ud) * ((36 * (9 * ud)) * (1 * vd))
                    == ((-64 * (9 * ud) + (32 * un) * 36) * (1 * vd) + (0 * vn) * (36 * (9 * ud)))
                        * (9 * ud)) by (nonlinear_arith);
            assert(inner.y.n == -4 * (1 * ud) + (0 * un) * 4);
            assert(inner.y.d == 4 * (1 * ud));
            assert(s.y.n == inner.y.n * (1 * vd) + (2 * vn) * inner.y.d);
            assert(s.y.d == inner.y.d * (1 * vd));
            assert((2 * vn - vd) * ((4 * (1 * ud)) * (1 * vd))
                    == ((-4 * (1 * ud) + (0 * un) * 4) * (1 * vd) + (2 * vn) * (4 * (1 * ud)))
                        * vd) by (nonlinear_arith);
            assert(s.z.n == (-4 * (1 * ud) + (0 * un) * 4) * (1 * vd) + (0 * vn) * (4 * (1 * ud)));
            assert(s.z.d == (4 * (1 * ud)) * (1 * vd));
            assert((-1) * ((4 * (1 * ud)) * (1 * vd))
                    == ((-4 * (1 * ud) + (0 * un) * 4) * (1 * vd) + (0 * vn) * (4 * (1 * ud))) * 1)
                by (nonlinear_arith);
        }
        Ray::new(Point::zero(), Vec3::new(dx, dy, dz))
    }
}

impl Default for Camera {
    /// The single fixed configuration described by `cam_wf`.
    fn default() -> (c: Camera)
        ensures
            cam_wf(c@),
    {
        Camera {
            origin: Vec3::zero(),
            horizontal: Vec3::new(Rat::new(32, 9), Rat::from_int(0), Rat::from_int(0)),
            vertical: Vec3::new(Rat::from_int(0), Rat::from_int(2), Rat::from_int(0)),
        }
    }
}

} // verus!
