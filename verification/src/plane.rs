//! Infinite planes, solved through the linear plane equation.

use vstd::prelude::*;

use crate::fixed::fdiv;
use crate::fixed::div_fx;
use crate::fixed::lemma_fdiv_bound;
use crate::fixed::SCALE;
use crate::geometry::Intersection;
use crate::normal::Normal;
use crate::normal::nv;
use crate::point::Point;
use crate::ray::DIST_MAX;
use crate::ray::ORIGIN_MAX;
use crate::ray::Ray;
use crate::vector::COORD_MAX;
use crate::vector::Vector;
use crate::vector::dot_spec;
use crate::vector::lemma_dot_bound;

verus! {

#[derive(Clone, Copy, Debug, PartialEq, Eq, Structural)]
pub struct Plane {
    pub normal: Normal,
    pub center: Point,
}

/// Solve `(O + tD - C) . N == 0` for `t`. A ray parallel to the plane
/// (`D . N == 0`) misses, and so does a hit behind the origin or beyond
/// `DIST_MAX`.
pub open spec fn plane_intersect_spec(p: Plane, r: Ray) -> Option<Intersection> {
    let dn = dot_spec(nv(r.direction), nv(p.normal));
    if dn == 0 {
        None
    } else {
        let k = Vector {
            x: (p.center.x - r.origin.x) as i64,
            y: (p.center.y - r.origin.y) as i64,
            z: (p.center.z - r.origin.z) as i64,
        };
        let t = fdiv(dot_spec(k, nv(p.normal)), dn);
        if 0 <= t <= DIST_MAX as int {
            Some(Intersection::Intersect(t as i64))
        } else {
            None
        }
    }
}

impl Plane {
    pub open spec fn wf(self) -> bool {
        &&& self.normal.wf()
        &&& self.center.wf()
    }

    pub fn new(normal: Normal, center: Point) -> (r: Plane)
        ensures
            r == (Plane { normal, center }),
    {
        Plane { normal, center }
    }

    /// Nearest non-negative solution of the plane equation along the ray.
    pub fn intersect(&self, ray: &Ray) -> (res: Option<Intersection>)
        requires
            self.wf(),
            ray.wf(),
        ensures
            res == plane_intersect_spec(*self, *ray),
            res matches Some(i) ==> i matches Intersection::Intersect(t) && 0 <= t <= DIST_MAX,
    {
        let normal: Vector = self.normal.to_vector();
        proof {
            lemma_dot_bound(nv(ray.direction), nv(self.normal), SCALE as int, SCALE as int);
        }
        let dn: i64 = ray.direction.to_vector().dot(normal);
        if dn == 0 {
            return None;
        }
        let k: Vector = self.center.to_vector().sub(ray.origin.to_vector());
        proof {
            lemma_dot_bound(k, nv(self.normal), ORIGIN_MAX as int + COORD_MAX as int, SCALE as int);
            lemma_fdiv_bound(dot_spec(k, nv(self.normal)), dn as int);
        }
        let t: i64 = div_fx(k.dot(normal), dn);
        if 0 <= t && t <= DIST_MAX {
            Some(Intersection::Intersect(t))
        } else {
            None
        }
    }

    /// The plane's own direction, wherever the hit lies.
    pub fn normal_at_point(&self, _point: &Point) -> (r: Normal)
        requires
            self.wf(),
        ensures
            r == self.normal,
            r.wf(),
    {
        self.normal
    }
}

} // verus!
