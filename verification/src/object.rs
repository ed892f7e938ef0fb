//! Scene objects: a geometric shape, the material it is shaded with, and an
//! optional mirror blend factor.
//!
//! The shape is a closed variant over the primitives the scene can hold, so
//! every capability is dispatched exhaustively.

use vstd::prelude::*;

use crate::alighned_box::AlighnedBox;
use crate::alighned_box::box_intersect_spec;
use crate::alighned_box::face_normal_spec;
use crate::fixed::SCALE;
use crate::fixed::iabs;
use crate::geometry::Intersection;
use crate::geometry::Transformation;
use crate::matrix::transformation_matrix;
use crate::normal::Normal;
use crate::point::Point;
use crate::point::pv;
use crate::ray::DIST_MAX;
use crate::ray::ORIGIN_MAX;
use crate::ray::Ray;
use crate::sphere::Sphere;
use crate::sphere::sphere_bounding_box_spec;
use crate::sphere::sphere_intersect_spec;
use crate::sphere::sphere_transformed;
use crate::triangle::Triangle;
use crate::triangle::triangle_bounding_box_spec;
use crate::triangle::triangle_intersect_spec;
use crate::triangle::triangle_normal_spec;
use crate::triangle::triangle_transformed;
use crate::vector::COORD_MAX;
use crate::vector::Vector;
use crate::vector::ninf;
use crate::vector::normalize_spec;

verus! {

/// The closed set of primitives a scene object can be.
#[derive(Clone, Copy, Debug)]
pub enum Shape {
    Sphere(Sphere),
    Triangle(Triangle),
    AlighnedBox(AlighnedBox),
}

pub open spec fn shape_wf(s: Shape) -> bool {
    match s {
        Shape::Sphere(x) => x.wf(),
        Shape::Triangle(x) => x.wf(),
        Shape::AlighnedBox(x) => x.proper(),
    }
}

pub open spec fn shape_intersect_spec(s: Shape, r: Ray) -> Option<Intersection> {
    match s {
        Shape::Sphere(x) => sphere_intersect_spec(x, r),
        Shape::Triangle(x) => triangle_intersect_spec(x, r),
        Shape::AlighnedBox(x) => box_intersect_spec(x, r),
    }
}

pub open spec fn shape_bounding_box_spec(s: Shape) -> AlighnedBox {
    match s {
        Shape::Sphere(x) => sphere_bounding_box_spec(x),
        Shape::Triangle(x) => triangle_bounding_box_spec(x),
        Shape::AlighnedBox(x) => x,
    }
}

/// The shading normal for a hit, or nothing where the lookup cannot answer:
/// a box point matching no face, or a barycentric lookup without barycentric
/// coordinates. Both indicate a logic error in the caller, so no normal is
/// invented for them.
pub open spec fn shape_normal_spec(s: Shape, p: Point, i: Intersection) -> Option<Normal> {
    match s {
        Shape::Sphere(x) => Some(
            normalize_spec(
                Vector {
                    x: (p.x - x.center.x) as i64,
                    y: (p.y - x.center.y) as i64,
                    z: (p.z - x.center.z) as i64,
                },
            ),
        ),
        Shape::Triangle(x) => match i {
            Intersection::TriangleIntersect(_, u, v) => if 0 <= u <= SCALE && 0 <= v && u + v
                <= SCALE {
                Some(triangle_normal_spec(x, u as int, v as int))
            } else {
                None
            },
            _ => None,
        },
        Shape::AlighnedBox(x) => face_normal_spec(x, p),
    }
}

#[derive(Clone, Copy, Debug)]
pub struct Object {
    pub shape: Shape,
    pub material_id: usize,
    /// Mirror blend factor in `[0, 1]`; zero means not reflective.
    pub reflection: i64,
}

impl Object {
    pub open spec fn wf(self) -> bool {
        &&& shape_wf(self.shape)
        &&& 0 <= self.reflection <= SCALE
    }

    pub fn new(shape: Shape, material_id: usize) -> (r: Object)
        ensures
            r == (Object { shape, material_id, reflection: 0 }),
    {
        Object { shape, material_id, reflection: 0 }
    }

    /// An object whose color is blended with a mirrored ray.
    pub fn reflective(shape: Shape, material_id: usize, reflection: i64) -> (r: Object)
        requires
            0 <= reflection <= SCALE,
        ensures
            r == (Object { shape, material_id, reflection }),
    {
        Object { shape, material_id, reflection }
    }

    pub fn intersect(&self, ray: &Ray) -> (res: Option<Intersection>)
        requires
            self.wf(),
            ray.wf(),
        ensures
            res == shape_intersect_spec(self.shape, *ray),
            res matches Some(i) ==> iabs(i.distance_spec()) <= DIST_MAX as int,
    {
        match &self.shape {
            Shape::Sphere(x) => x.intersect(ray),
            Shape::Triangle(x) => x.intersect(ray),
            Shape::AlighnedBox(x) => x.intersect(ray),
        }
    }

    /// The shading normal for a hit of this object, or nothing when the
    /// lookup cannot answer; see [`shape_normal_spec`].
    pub fn normal_at_point(&self, point: &Point, intersection: Intersection) -> (res: Option<
        Normal,
    >)
        requires
            self.wf(),
            ninf(pv(*point)) <= ORIGIN_MAX as int + DIST_MAX as int + 1,
        ensures
            res == shape_normal_spec(self.shape, *point, intersection),
            res matches Some(n) ==> n.wf(),
    {
        match &self.shape {
            Shape::Sphere(x) => Some(x.normal_at_point(point, intersection)),
            Shape::Triangle(x) => match intersection {
                Intersection::TriangleIntersect(_, u, v) => if 0 <= u && u <= SCALE && 0 <= v && v
                    <= SCALE && u + v <= SCALE {
                    Some(x.normal_at_point(point, intersection))
                } else {
                    None
                },
                _ => None,
            },
            Shape::AlighnedBox(x) => x.try_face_normal(point),
        }
    }

    /// Transform the underlying shape in place.
    pub fn transform(&mut self, t: Transformation)
        requires
            old(self).wf(),
            t.wf(),
            transformation_matrix(t).bounded(COORD_MAX as int),
            shape_transform_in_range(old(self).shape, t),
        ensures
            final(self).shape == shape_transformed(old(self).shape, t),
            final(self).material_id == old(self).material_id,
            final(self).reflection == old(self).reflection,
            final(self).wf(),
    {
        match &mut self.shape {
            Shape::Sphere(x) => x.transform(t),
            Shape::Triangle(x) => x.transform(t),
            Shape::AlighnedBox(x) => x.transform(t),
        }
    }

    pub fn bounding_box(&self) -> (r: AlighnedBox)
        requires
            self.wf(),
        ensures
            r == shape_bounding_box_spec(self.shape),
            r.proper(),
    {
        match &self.shape {
            Shape::Sphere(x) => x.bounding_box(),
            Shape::Triangle(x) => x.bounding_box(),
            Shape::AlighnedBox(x) => x.bounding_box(),
        }
    }
}

pub open spec fn shape_transformed(s: Shape, t: Transformation) -> Shape {
    match s {
        Shape::Sphere(x) => Shape::Sphere(sphere_transformed(x, t)),
        Shape::Triangle(x) => Shape::Triangle(triangle_transformed(x, t)),
        Shape::AlighnedBox(x) => Shape::AlighnedBox(
            AlighnedBox {
                min: crate::matrix::apply_point_spec(transformation_matrix(t), x.min),
                max: crate::matrix::apply_point_spec(transformation_matrix(t), x.max),
            },
        ),
    }
}

/// Every hit a shape's intersection reports lies within the reportable
/// distance range, and a triangle hit always carries in-range barycentric
/// coordinates.
pub proof fn lemma_shape_hit_in_range(s: Shape, r: Ray)
    ensures
        shape_intersect_spec(s, r) matches Some(i) ==> iabs(i.distance_spec()) <= DIST_MAX as int,
        (s is Triangle && shape_intersect_spec(s, r) is Some) ==> (shape_intersect_spec(s, r)
            matches Some(i) && i matches Intersection::TriangleIntersect(t, u, v) && 0 < t
            <= DIST_MAX && 0 <= u <= SCALE && 0 <= v && u + v <= SCALE),
{
}

/// A well-formed shape's bounding box is a real box.
pub proof fn lemma_shape_bbox_proper(s: Shape)
    requires
        shape_wf(s),
    ensures
        shape_bounding_box_spec(s).proper(),
{
}

/// What a transform demands so that the shape stays within the world range.
pub open spec fn shape_transform_in_range(s: Shape, t: Transformation) -> bool {
    match s {
        Shape::Sphere(x) => sphere_transformed(x, t).wf() && (t matches Transformation::Scale(v)
            ==> 0 <= v.x && 0 <= v.y && 0 <= v.z),
        Shape::Triangle(x) => {
            let moved = triangle_transformed(x, t);
            ninf(moved.a) <= COORD_MAX as int && ninf(moved.b) <= COORD_MAX as int && ninf(moved.c)
                <= COORD_MAX as int
        },
        Shape::AlighnedBox(x) => shape_transformed(s, t) matches Shape::AlighnedBox(moved)
            && moved.proper(),
    }
}

} // verus!
