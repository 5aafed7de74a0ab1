//! Positions in space: a `Point` is representationally a `Vec3`, with
//! distance semantics layered on top.

use vstd::prelude::*;
use crate::rat::{Rat, sqrt_bracket, sqrt_fits};
use crate::vec3::{Vec3, V3, v3sub, v3sub_fits, v3dot_fits, v3norm2};

verus! {

/// A position in space.
pub type Point = Vec3;

/// The products formed by `Point::distance` stay representable.
pub open spec fn distance_fits(a: V3, b: V3) -> bool {
    &&& v3sub_fits(a, b)
    &&& v3dot_fits(v3sub(a, b), v3sub(a, b))
    &&& sqrt_fits(v3norm2(v3sub(a, b)))
}

impl Point {
    /// Approximate distance from the origin: the point's length.
    pub fn distance_from_origin(&self) -> (r: Rat)
        requires
            self.wf(),
            v3dot_fits(self@, self@),
            sqrt_fits(v3norm2(self@)),
        ensures
            r.wf(),
            sqrt_bracket(r@, v3norm2(self@)),
    {
        self.length()
    }

    /// Approximate distance between two points: the length of their
    /// difference.
    pub fn distance(&self, other: &Point) -> (r: Rat)
        requires
            self.wf(),
            other.wf(),
            distance_fits(self@, other@),
        ensures
            r.wf(),
            sqrt_bracket(r@, v3norm2(v3sub(self@, other@))),
    {
        let d = self.sub(*other);
        d.length()
    }
}

} // verus!
