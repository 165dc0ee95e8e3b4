//! The scene's only primitive: a sphere with a center, a radius and a
//! color.

use vstd::prelude::*;
use crate::color::Color;
use crate::fixed::COORD_LIMIT;
use crate::geom::{Point3D, in_bounds};

verus! {

/// A sphere primitive; immutable for the lifetime of a render.
#[derive(Clone, Copy, PartialEq, Eq, Structural, Debug)]
pub struct Sphere {
    pub center: Point3D,
    pub radius: i64,
    pub color: Color,
}

impl Sphere {
    /// A well-formed sphere: the center within the coordinate limit and
    /// a nonnegative radius no larger than it.
    pub open spec fn wf(self) -> bool {
        &&& in_bounds(self.center, COORD_LIMIT as int)
        &&& 0 <= self.radius <= COORD_LIMIT
    }

    /// Builds a well-formed sphere.
    pub fn new(center: Point3D, radius: i64, color: Color) -> (s: Sphere)
        requires
            in_bounds(center, COORD_LIMIT as int),
            0 <= radius <= COORD_LIMIT,
        ensures
            s == (Sphere { center, radius, color }),
            s.wf(),
    {
        Sphere { center, radius, color }
    }
}

} // verus!
