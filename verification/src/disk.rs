//! Disks: a plane hit restricted to a radius around the center.

use vstd::prelude::*;

use crate::geometry::Intersection;
use crate::normal::Normal;
use crate::plane::Plane;
use crate::plane::plane_intersect_spec;
use crate::point::Point;
use crate::ray::DIST_MAX;
use crate::ray::Ray;
use crate::ray::at_spec;
use crate::vector::COORD_MAX;
use crate::vector::Vector;
use crate::vector::length_spec;

verus! {

#[derive(Clone, Copy, Debug, PartialEq, Eq, Structural)]
pub struct Disk {
    pub center: Point,
    pub radius: i64,
    pub normal: Normal,
}

/// A plane hit strictly in front of the origin whose point lies strictly
/// within `radius` of the disk center.
pub open spec fn disk_intersect_spec(d: Disk, r: Ray) -> Option<Intersection> {
    match plane_intersect_spec(Plane { normal: d.normal, center: d.center }, r) {
        Some(Intersection::Intersect(t)) => if t > 0 {
            let p = at_spec(r, t as int);
            let dist = length_spec(
                Vector {
                    x: (p.x - d.center.x) as i64,
                    y: (p.y - d.center.y) as i64,
                    z: (p.z - d.center.z) as i64,
                },
            );
            if dist < d.radius as int {
                Some(Intersection::Intersect(t))
            } else {
                None
            }
        } else {
            None
        },
        _ => None,
    }
}

impl Disk {
    pub open spec fn wf(self) -> bool {
        &&& self.center.wf()
        &&& self.normal.wf()
        &&& 0 <= self.radius <= COORD_MAX
    }

    pub fn new(center: Point, radius: i64, normal: Normal) -> (r: Disk)
        ensures
            r == (Disk { center, radius, normal }),
    {
        Disk { center, radius, normal }
    }

    /// Delegate to the carrier plane, then reject hits outside the radius.
    pub fn intersect(&self, ray: &Ray) -> (res: Option<Intersection>)
        requires
            self.wf(),
            ray.wf(),
        ensures
            res == disk_intersect_spec(*self, *ray),
            res matches Some(i) ==> i matches Intersection::Intersect(t) && 0 < t <= DIST_MAX,
    {
        let plane: Plane = Plane::new(self.normal, self.center);
        match plane.intersect(ray) {
            Some(Intersection::Intersect(t)) if t > 0 => {
                let point: Point = ray.at(t);
                let distance: i64 = point.to_vector().sub(self.center.to_vector()).length();
                if distance < self.radius {
                    Some(Intersection::Intersect(t))
                } else {
                    None
                }
            },
            _ => None,
        }
    }
}

} // verus!
