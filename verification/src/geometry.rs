//! Shared geometric vocabulary: coordinate axes, intersection results and
//! rigid transformations.

use vstd::prelude::*;

use crate::fixed::SCALE;
use crate::fixed::iabs;
use crate::vector::Vector;

verus! {

/// A coordinate axis.
#[derive(Clone, Copy, Debug, PartialEq, Eq, Structural)]
pub enum Axis {
    X,
    Y,
    Z,
}

/// Result of a ray/primitive intersection test: a hit distance along the ray,
/// for triangles together with the barycentric coordinates `(u, v)`.
#[derive(Clone, Copy, Debug, PartialEq, Eq, Structural)]
pub enum Intersection {
    Intersect(i64),
    TriangleIntersect(i64, i64, i64),
}

impl Intersection {
    pub open spec fn distance_spec(self) -> int {
        match self {
            Intersection::Intersect(d) => d as int,
            Intersection::TriangleIntersect(d, _, _) => d as int,
        }
    }

    /// The hit distance carried by either variant.
    pub fn distance(&self) -> (d: i64)
        ensures
            d as int == self.distance_spec(),
    {
        match self {
            Intersection::Intersect(d) => *d,
            Intersection::TriangleIntersect(d, _, _) => *d,
        }
    }
}

/// A rotation angle given with its sine and cosine, all fixed-point scalars.
///
/// The trigonometry itself cannot be computed here, so whoever builds a
/// rotation supplies `sin` and `cos` of `degrees` already scaled by `SCALE`.
#[derive(Clone, Copy, Debug, PartialEq, Eq, Structural)]
pub struct Angle {
    pub degrees: i64,
    pub sin: i64,
    pub cos: i64,
}

impl Angle {
    pub open spec fn wf(self) -> bool {
        &&& iabs(self.sin as int) <= SCALE as int
        &&& iabs(self.cos as int) <= SCALE as int
    }

    pub fn new(degrees: i64, sin: i64, cos: i64) -> (r: Angle)
        requires
            iabs(sin as int) <= SCALE as int,
            iabs(cos as int) <= SCALE as int,
        ensures
            r == (Angle { degrees, sin, cos }),
            r.wf(),
    {
        Angle { degrees, sin, cos }
    }
}

/// A transformation a primitive or the camera can be subjected to.
#[derive(Clone, Copy, Debug)]
pub enum Transformation {
    Translation(Vector),
    Rotation(Axis, Angle),
    Scale(Vector),
}

impl Transformation {
    pub open spec fn wf(self) -> bool {
        match self {
            Transformation::Rotation(_, angle) => angle.wf(),
            Transformation::Translation(_) => true,
            Transformation::Scale(_) => true,
        }
    }
}

} // verus!
