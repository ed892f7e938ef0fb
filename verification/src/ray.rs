//! Rays: an origin and a direction, with evaluation along the parameter.

use vstd::prelude::*;

use crate::fixed::SCALE;
use crate::fixed::fmul;
use crate::fixed::iabs;
use crate::fixed::lemma_abs_mul;
use crate::fixed::lemma_fmul_bound;
use crate::normal::Normal;
use crate::normal::reflect_spec;
use crate::point::Point;
use crate::point::pv;
use crate::vector::ninf;

verus! {

/// Largest magnitude a ray origin may have.
pub const ORIGIN_MAX: i64 = 1_000_000_000;

/// Largest hit distance a primitive reports; anything farther counts as a miss.
pub const DIST_MAX: i64 = 4_000_000_000;

/// Offset applied along a ray to escape the surface it starts on.
pub const RAY_EPSILON: i64 = 1;

#[derive(Clone, Copy, Debug, PartialEq, Eq, Structural)]
pub struct Ray {
    pub origin: Point,
    pub direction: Normal,
}

/// The point `origin + direction * t`.
pub open spec fn at_spec(r: Ray, t: int) -> Point {
    Point {
        x: (r.origin.x + fmul(r.direction.x as int, t)) as i64,
        y: (r.origin.y + fmul(r.direction.y as int, t)) as i64,
        z: (r.origin.z + fmul(r.direction.z as int, t)) as i64,
    }
}

impl Ray {
    pub open spec fn wf(self) -> bool {
        &&& ninf(pv(self.origin)) <= ORIGIN_MAX as int
        &&& self.direction.wf()
    }

    pub fn new(origin: Point, direction: Normal) -> (r: Ray)
        ensures
            r == (Ray { origin, direction }),
    {
        Ray { origin, direction }
    }

    /// Evaluate the ray at parameter `t`.
    pub fn at(&self, t: i64) -> (r: Point)
        requires
            self.wf(),
            iabs(t as int) <= DIST_MAX as int,
        ensures
            r == at_spec(*self, t as int),
            ninf(pv(r)) <= ORIGIN_MAX as int + DIST_MAX as int + 1,
    {
        proof {
            lemma_at_bound(*self, t as int);
        }
        let ox: i64 = crate::fixed::mul_fx(self.direction.x, t);
        let oy: i64 = crate::fixed::mul_fx(self.direction.y, t);
        let oz: i64 = crate::fixed::mul_fx(self.direction.z, t);
        Point { x: self.origin.x + ox, y: self.origin.y + oy, z: self.origin.z + oz }
    }

    /// The ray bouncing off a surface at `point` with surface normal `normal`,
    /// its origin nudged one epsilon step along the new direction.
    pub fn reflect_from_normal(&self, point: Point, normal: Normal) -> (r: Ray)
        requires
            self.direction.wf(),
            normal.wf(),
            ninf(pv(point)) <= ORIGIN_MAX as int - 2,
        ensures
            r.direction == reflect_spec(normal, self.direction),
            r.origin == at_spec(Ray { origin: point, direction: r.direction }, RAY_EPSILON as int),
            r.wf(),
    {
        let dir: Normal = Normal::reflect(normal, self.direction);
        let ray: Ray = Ray::new(point, dir);
        let start: Point = ray.at(RAY_EPSILON);
        proof {
            lemma_at_bound(ray, RAY_EPSILON as int);
        }
        Ray::new(start, dir)
    }
}

/// The nudge of one epsilon step moves each coordinate by at most one.
proof fn lemma_at_bound(r: Ray, t: int)
    requires
        r.direction.wf(),
        iabs(t) <= DIST_MAX as int,
    ensures
        iabs(fmul(r.direction.x as int, t)) <= DIST_MAX as int + 1,
        iabs(fmul(r.direction.y as int, t)) <= DIST_MAX as int + 1,
        iabs(fmul(r.direction.z as int, t)) <= DIST_MAX as int + 1,
        iabs(t) <= RAY_EPSILON as int ==> iabs(fmul(r.direction.x as int, t)) <= 2
            && iabs(fmul(r.direction.y as int, t)) <= 2 && iabs(fmul(r.direction.z as int, t))
            <= 2,
{
    lemma_abs_mul(r.direction.x as int, t, SCALE as int, DIST_MAX as int);
    lemma_abs_mul(r.direction.y as int, t, SCALE as int, DIST_MAX as int);
    lemma_abs_mul(r.direction.z as int, t, SCALE as int, DIST_MAX as int);
    lemma_fmul_bound(r.direction.x as int, t, (SCALE as int) * (DIST_MAX as int));
    lemma_fmul_bound(r.direction.y as int, t, (SCALE as int) * (DIST_MAX as int));
    lemma_fmul_bound(r.direction.z as int, t, (SCALE as int) * (DIST_MAX as int));
    if iabs(t) <= RAY_EPSILON as int {
        lemma_abs_mul(r.direction.x as int, t, SCALE as int, RAY_EPSILON as int);
        lemma_abs_mul(r.direction.y as int, t, SCALE as int, RAY_EPSILON as int);
        lemma_abs_mul(r.direction.z as int, t, SCALE as int, RAY_EPSILON as int);
        lemma_fmul_bound(r.direction.x as int, t, (SCALE as int) * (RAY_EPSILON as int));
        lemma_fmul_bound(r.direction.y as int, t, (SCALE as int) * (RAY_EPSILON as int));
        lemma_fmul_bound(r.direction.z as int, t, (SCALE as int) * (RAY_EPSILON as int));
    }
}

} // verus!
