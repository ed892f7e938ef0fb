//! Spheres, intersected analytically through the quadratic equation.

use vstd::prelude::*;

use crate::alighned_box::AlighnedBox;
use crate::fixed::SCALE;
use crate::fixed::fdiv;
use crate::fixed::fmul;
use crate::fixed::imax;
use crate::fixed::imin;
use crate::fixed::lemma_abs_mul;
use crate::fixed::lemma_fdiv_bound;
use crate::fixed::lemma_fmul_bound;
use crate::fixed::mul_fx;
use crate::fixed::div_fx;
use crate::fixed::sqrt_fx;
use crate::fixed::sqrt_fx_spec;
use crate::geometry::Intersection;
use crate::geometry::Transformation;
use crate::matrix::apply_point_spec;
use crate::matrix::transformation_matrix;
use crate::matrix::Matrix;
use crate::normal::Normal;
use crate::normal::nv;
use crate::point::Point;
use crate::point::pv;
use crate::ray::DIST_MAX;
use crate::ray::ORIGIN_MAX;
use crate::ray::Ray;
use crate::vector::COORD_MAX;
use crate::vector::Vector;
use crate::vector::dot_spec;
use crate::vector::lemma_dot_bound;
use crate::vector::ninf;
use crate::vector::normalize_spec;

verus! {

#[derive(Clone, Copy, Debug, PartialEq, Eq, Structural)]
pub struct Sphere {
    pub center: Point,
    pub radius: i64,
}

/// The coefficients of the quadratic `a*t^2 + b*t + c = 0` satisfied by the
/// hit parameters: `a = D.D`, `b = 2 D.(O - C)`, `c = (O-C).(O-C) - r^2`.
pub open spec fn sphere_oc(s: Sphere, r: Ray) -> Vector {
    Vector {
        x: (r.origin.x - s.center.x) as i64,
        y: (r.origin.y - s.center.y) as i64,
        z: (r.origin.z - s.center.z) as i64,
    }
}

pub open spec fn sphere_a(s: Sphere, r: Ray) -> int {
    dot_spec(nv(r.direction), nv(r.direction))
}

pub open spec fn sphere_b(s: Sphere, r: Ray) -> int {
    2 * dot_spec(sphere_oc(s, r), nv(r.direction))
}

pub open spec fn sphere_c(s: Sphere, r: Ray) -> int {
    dot_spec(sphere_oc(s, r), sphere_oc(s, r)) - fmul(s.radius as int, s.radius as int)
}

pub open spec fn sphere_disc(s: Sphere, r: Ray) -> int {
    fmul(sphere_b(s, r), sphere_b(s, r)) - 4 * fmul(sphere_a(s, r), sphere_c(s, r))
}

/// The smaller positive root of the quadratic, or the only positive one, or a
/// miss when the discriminant is negative or both roots lie behind the origin.
/// A degenerate direction (`a <= 0`) and a root beyond `DIST_MAX` are misses.
pub open spec fn sphere_intersect_spec(s: Sphere, r: Ray) -> Option<Intersection> {
    let a = sphere_a(s, r);
    let b = sphere_b(s, r);
    let disc = sphere_disc(s, r);
    if a <= 0 {
        None
    } else if disc < 0 {
        None
    } else {
        let sq = sqrt_fx_spec(disc);
        let t1 = fdiv(-b - sq, 2 * a);
        let t2 = fdiv(-b + sq, 2 * a);
        let t = if t1 > 0 && t2 > 0 {
            imin(t1, t2)
        } else if t1 > 0 {
            t1
        } else {
            t2
        };
        if t > 0 && t <= DIST_MAX as int {
            Some(Intersection::Intersect(t as i64))
        } else {
            None
        }
    }
}

impl Sphere {
    pub open spec fn wf(self) -> bool {
        &&& self.center.wf()
        &&& 0 <= self.radius <= COORD_MAX
    }

    pub fn new(center: Point, radius: i64) -> (r: Sphere)
        ensures
            r == (Sphere { center, radius }),
    {
        Sphere { center, radius }
    }

    /// Nearest positive hit of the ray, by the quadratic's smaller positive root.
    pub fn intersect(&self, ray: &Ray) -> (res: Option<Intersection>)
        requires
            self.wf(),
            ray.wf(),
        ensures
            res == sphere_intersect_spec(*self, *ray),
            res matches Some(i) ==> i matches Intersection::Intersect(t) && 0 < t
                <= DIST_MAX,
    {
        let k: Vector = ray.origin.to_vector().sub(self.center.to_vector());
        let d: Vector = ray.direction.to_vector();
        proof {
            assert(k == sphere_oc(*self, *ray));
            lemma_dot_bound(nv(ray.direction), nv(ray.direction), SCALE as int, SCALE as int);
            lemma_dot_bound(k, nv(ray.direction), ORIGIN_MAX as int + COORD_MAX as int, SCALE as int);
            lemma_dot_bound(k, k, ORIGIN_MAX as int + COORD_MAX as int, ORIGIN_MAX as int + COORD_MAX as int);
            lemma_abs_mul(self.radius as int, self.radius as int, COORD_MAX as int, COORD_MAX as int);
            lemma_fmul_bound(self.radius as int, self.radius as int, (COORD_MAX as int) * (COORD_MAX as int));
        }
        let a: i64 = d.dot(d);
        let b: i64 = 2 * k.dot(d);
        let c: i64 = k.dot(k) - mul_fx(self.radius, self.radius);
        proof {
            lemma_abs_mul(b as int, b as int, 7_000_000_000int, 7_000_000_000int);
            lemma_fmul_bound(b as int, b as int, 7_000_000_000int * 7_000_000_000int);
            lemma_abs_mul(a as int, c as int, 31_000int, 400_000_000_000_000int);
            lemma_fmul_bound(a as int, c as int, 31_000int * 400_000_000_000_000int);
        }
        let disc: i64 = mul_fx(b, b) - 4 * mul_fx(a, c);
        if a <= 0 {
            return None;
        }
        if disc < 0 {
            return None;
        }
        let sq: i64 = sqrt_fx(disc);
        proof {
            lemma_sqrt_le(disc as int, 13_000_000_000_000_000int, 12_000_000_000int);
            lemma_fdiv_bound(-b - sq, 2 * a as int);
            lemma_fdiv_bound(-b + sq, 2 * a as int);
        }
        let t1: i64 = div_fx(-b - sq, 2 * a);
        let t2: i64 = div_fx(-b + sq, 2 * a);
        let t: i64 = if t1 > 0 && t2 > 0 {
            crate::fixed::min_fx(t1, t2)
        } else if t1 > 0 {
            t1
        } else {
            t2
        };
        if t > 0 && t <= DIST_MAX {
            Some(Intersection::Intersect(t))
        } else {
            None
        }
    }

    /// The outward surface direction: from the center towards the point.
    pub fn normal_at_point(&self, point: &Point, _intersection: Intersection) -> (r: Normal)
        requires
            self.wf(),
            ninf(pv(*point)) <= ORIGIN_MAX as int + DIST_MAX as int + 1,
        ensures
            r == normalize_spec(
                Vector {
                    x: (point.x - self.center.x) as i64,
                    y: (point.y - self.center.y) as i64,
                    z: (point.z - self.center.z) as i64,
                },
            ),
            r.wf(),
    {
        point.to_vector().sub(self.center.to_vector()).normalize()
    }

    /// Move or resize the sphere. Rotation leaves it untouched; scaling takes
    /// the largest factor for the radius, since a sphere cannot become an
    /// ellipsoid here: a known approximation of this design.
    pub fn transform(&mut self, t: Transformation)
        requires
            old(self).wf(),
            t.wf(),
            transformation_matrix(t).bounded(COORD_MAX as int),
            sphere_transformed(*old(self), t).wf(),
            t matches Transformation::Scale(v) ==> 0 <= v.x && 0 <= v.y && 0 <= v.z,
        ensures
            *final(self) == sphere_transformed(*old(self), t),
            final(self).wf(),
    {
        match t {
            Transformation::Translation(_) => {
                let matrix: Matrix = t.transformation_to_matrix();
                self.center = matrix.apply_point(self.center);
            },
            Transformation::Scale(scale) => {
                let matrix: Matrix = t.transformation_to_matrix();
                self.center = matrix.apply_point(self.center);
                proof {
                    lemma_abs_mul(
                        old(self).radius as int,
                        imax(imax(scale.x as int, scale.y as int), scale.z as int),
                        COORD_MAX as int,
                        COORD_MAX as int,
                    );
                    lemma_fmul_bound(
                        old(self).radius as int,
                        imax(imax(scale.x as int, scale.y as int), scale.z as int),
                        (COORD_MAX as int) * (COORD_MAX as int),
                    );
                }
                let factor: i64 = crate::fixed::max_fx(
                    crate::fixed::max_fx(scale.x, scale.y),
                    scale.z,
                );
                self.radius = mul_fx(self.radius, factor);
            },
            Transformation::Rotation(_, _) => {},
        }
    }

    /// The box spanning `center` plus/minus the radius on every axis.
    pub fn bounding_box(&self) -> (r: AlighnedBox)
        requires
            self.wf(),
        ensures
            r == sphere_bounding_box_spec(*self),
            r.proper(),
    {
        AlighnedBox::new(
            Point::new(
                self.center.x - self.radius,
                self.center.y - self.radius,
                self.center.z - self.radius,
            ),
            Point::new(
                self.center.x + self.radius,
                self.center.y + self.radius,
                self.center.z + self.radius,
            ),
        )
    }
}

pub open spec fn sphere_bounding_box_spec(s: Sphere) -> AlighnedBox {
    AlighnedBox {
        min: Point {
            x: (s.center.x - s.radius) as i64,
            y: (s.center.y - s.radius) as i64,
            z: (s.center.z - s.radius) as i64,
        },
        max: Point {
            x: (s.center.x + s.radius) as i64,
            y: (s.center.y + s.radius) as i64,
            z: (s.center.z + s.radius) as i64,
        },
    }
}

/// The sphere after a transformation: translation and scaling move the center
/// through the matrix; scaling multiplies the radius by the largest factor;
/// rotation changes nothing.
pub open spec fn sphere_transformed(s: Sphere, t: Transformation) -> Sphere {
    match t {
        Transformation::Translation(_) => Sphere {
            center: apply_point_spec(transformation_matrix(t), s.center),
            radius: s.radius,
        },
        Transformation::Scale(v) => Sphere {
            center: apply_point_spec(transformation_matrix(t), s.center),
            radius: fmul(
                s.radius as int,
                imax(imax(v.x as int, v.y as int), v.z as int),
            ) as i64,
        },
        Transformation::Rotation(_, _) => s,
    }
}

/// Translating a sphere there and back restores it, and with it its bounding
/// box: fixed-point translation is exact.
pub proof fn lemma_sphere_translation_round_trip(s: Sphere, v: Vector)
    requires
        s.wf(),
        ninf(v) <= COORD_MAX as int,
    ensures
        sphere_transformed(
            sphere_transformed(s, Transformation::Translation(v)),
            Transformation::Translation(Vector { x: (-v.x) as i64, y: (-v.y) as i64, z: (-v.z) as i64 }),
        ) == s,
        sphere_bounding_box_spec(
            sphere_transformed(
                sphere_transformed(s, Transformation::Translation(v)),
                Transformation::Translation(
                    Vector { x: (-v.x) as i64, y: (-v.y) as i64, z: (-v.z) as i64 },
                ),
            ),
        ) == sphere_bounding_box_spec(s),
{
    crate::matrix::lemma_translation_apply_point(v, s.center);
    let moved = sphere_transformed(s, Transformation::Translation(v));
    crate::matrix::lemma_translation_apply_point(
        Vector { x: (-v.x) as i64, y: (-v.y) as i64, z: (-v.z) as i64 },
        moved.center,
    );
}

/// The square root of a bounded scalar is bounded.
pub proof fn lemma_sqrt_le(x: int, xb: int, rb: int)
    requires
        0 <= x <= xb,
        0 <= rb,
        xb * (SCALE as int) < (rb + 1) * (rb + 1),
    ensures
        0 <= sqrt_fx_spec(x) <= rb,
{
    crate::fixed::lemma_isqrt_spec_bounds((x * SCALE) as nat);
    let r = sqrt_fx_spec(x);
    crate::vector::lemma_prod_le(x, SCALE as int, xb, SCALE as int);
    assert(r <= rb) by (nonlinear_arith)
        requires
            r * r <= x * (SCALE as int),
            x * (SCALE as int) < (rb + 1) * (rb + 1),
            0 <= r,
            0 <= rb,
    ;
}

} // verus!
