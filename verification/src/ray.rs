//! Rays: an origin point and a direction vector, with parametric
//! evaluation.

use vstd::prelude::*;
use crate::rat::{Ratio, Rat};
use crate::point::Point;
use crate::vec3::{Vec3, V3, v3zero, v3add, v3scale, v3add_fits, v3scale_fits};

verus! {

/// Mathematical model of a ray.
pub ghost struct RayModel {
    pub origin: V3,
    pub direction: V3,
}

/// A ray: origin point plus direction vector. The direction is stored as
/// given; it is not normalized.
#[derive(Clone, Copy, Debug)]
pub struct Ray {
    origin: Point,
    direction: Vec3,
}

impl View for Ray {
    type V = RayModel;

    closed spec fn view(&self) -> RayModel {
        RayModel { origin: self.origin@, direction: self.direction@ }
    }
}

/// The products formed by `Ray::at` stay representable.
pub open spec fn ray_at_fits(r: RayModel, t: Ratio) -> bool {
    &&& v3scale_fits(r.direction, t)
    &&& v3add_fits(r.origin, v3scale(r.direction, t))
}

impl Ray {
    pub open spec fn wf(self) -> bool {
        self@.origin.x.d > 0 && self@.origin.y.d > 0 && self@.origin.z.d > 0
            && self@.direction.x.d > 0 && self@.direction.y.d > 0 && self@.direction.z.d > 0
    }

    /// A ray from `origin` in direction `direction`, both stored unchanged.
    pub fn new(origin: Point, direction: Vec3) -> (r: Ray)
        requires
            origin.wf(),
            direction.wf(),
        ensures
            r.wf(),
            r@ == (RayModel { origin: origin@, direction: direction@ }),
    {
        Ray { origin, direction }
    }

    pub fn origin(&self) -> (o: &Point)
        ensures
            o@ == self@.origin,
    {
        &self.origin
    }

    pub fn direction(&self) -> (d: &Vec3)
        ensures
            d@ == self@.direction,
    {
        &self.direction
    }

    /// The point `origin + direction * t`; any `t` is allowed, negative
    /// values extend behind the origin.
    pub fn at(&self, t: Rat) -> (p: Point)
        requires
            self.wf(),
            t.wf(),
            ray_at_fits(self@, t@),
        ensures
            p.wf(),
            p@ == v3add(self@.origin, v3scale(self@.direction, t@)),
    {
        self.origin.add(self.direction.mul(t))
    }
}

impl Default for Ray {
    /// The degenerate ray: zero origin, zero direction.
    fn default() -> (r: Ray)
        ensures
            r.wf(),
            r@ == (RayModel { origin: v3zero(), direction: v3zero() }),
    {
        Ray::new(Point::zero(), Vec3::zero())
    }
}

} // verus!
