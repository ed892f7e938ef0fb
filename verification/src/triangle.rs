//! Triangles, intersected by the Moeller-Trumbore barycentric method.

use vstd::prelude::*;

use crate::alighned_box::AlighnedBox;
use crate::fixed::SCALE;
use crate::fixed::div_fx_wide;
use crate::fixed::fdiv;
use crate::fixed::fits_i64;
use crate::fixed::iabs;
use crate::fixed::fmul;
use crate::fixed::imax;
use crate::fixed::imin;
use crate::fixed::lemma_fdiv_bound;
use crate::fixed::min_fx;
use crate::fixed::max_fx;
use crate::geometry::Intersection;
use crate::geometry::Transformation;
use crate::matrix::Matrix;
use crate::matrix::apply_normal_spec;
use crate::matrix::apply_vec_spec;
use crate::matrix::transformation_matrix;
use crate::normal::Normal;
use crate::normal::nv;
use crate::point::Point;
use crate::ray::DIST_MAX;
use crate::ray::ORIGIN_MAX;
use crate::ray::Ray;
use crate::vector::COORD_MAX;
use crate::vector::Vector;
use crate::vector::dot_spec;
use crate::vector::lemma_cross_bound;
use crate::vector::lemma_dot_bound;
use crate::vector::ninf;
use crate::vector::normalize_spec;
use crate::vector::vcross;
use crate::vector::vsub;

verus! {

#[derive(Clone, Copy, Debug, PartialEq, Eq, Structural)]
pub struct Triangle {
    pub a: Vector,
    pub b: Vector,
    pub c: Vector,
    pub na: Normal,
    pub nb: Normal,
    pub nc: Normal,
    /// Whether the three normals came with the vertices; if not, all three are
    /// the face normal and hits are shaded flat.
    pub per_vertex_normals: bool,
}

/// Moeller-Trumbore: barycentric coordinates straight from two cross products.
/// `u` and `v` are accepted only inside `[0, 1]` with `u + v <= 1`, the hit
/// parameter only in `(0, DIST_MAX]`; a determinant of zero is a miss.
pub open spec fn triangle_intersect_spec(tri: Triangle, r: Ray) -> Option<Intersection> {
    let ab = vsub(tri.b, tri.a);
    let ac = vsub(tri.c, tri.a);
    let n = vcross(nv(r.direction), ac);
    let det = dot_spec(ab, n);
    if det == 0 {
        None
    } else {
        let ao = vsub(Vector { x: r.origin.x, y: r.origin.y, z: r.origin.z }, tri.a);
        let u = fdiv(dot_spec(ao, n), det);
        if !(0 <= u <= SCALE as int) {
            None
        } else {
            let aoxab = vcross(ao, ab);
            let v = fdiv(dot_spec(nv(r.direction), aoxab), det);
            if v < 0 || u + v > SCALE as int {
                None
            } else {
                let t = fdiv(dot_spec(ac, aoxab), det);
                if 0 < t <= DIST_MAX as int {
                    Some(Intersection::TriangleIntersect(t as i64, u as i64, v as i64))
                } else {
                    None
                }
            }
        }
    }
}

/// The normal at a hit with barycentric coordinates `(u, v)`: interpolated
/// when per-vertex normals exist, the face normal otherwise. The weights
/// follow the barycentric convention of the intersection test: `u` weighs the
/// second vertex's normal, `v` the third's, and the remainder the first's.
pub open spec fn triangle_normal_spec(tri: Triangle, u: int, v: int) -> Normal {
    if tri.per_vertex_normals {
        let w = SCALE as int - u - v;
        normalize_spec(
            Vector {
                x: (fmul(tri.nb.x as int, u) + fmul(tri.nc.x as int, v) + fmul(
                    tri.na.x as int,
                    w,
                )) as i64,
                y: (fmul(tri.nb.y as int, u) + fmul(tri.nc.y as int, v) + fmul(
                    tri.na.y as int,
                    w,
                )) as i64,
                z: (fmul(tri.nb.z as int, u) + fmul(tri.nc.z as int, v) + fmul(
                    tri.na.z as int,
                    w,
                )) as i64,
            },
        )
    } else {
        tri.na
    }
}

pub open spec fn triangle_bounding_box_spec(tri: Triangle) -> AlighnedBox {
    AlighnedBox {
        min: Point {
            x: imin(imin(tri.a.x as int, tri.b.x as int), tri.c.x as int) as i64,
            y: imin(imin(tri.a.y as int, tri.b.y as int), tri.c.y as int) as i64,
            z: imin(imin(tri.a.z as int, tri.b.z as int), tri.c.z as int) as i64,
        },
        max: Point {
            x: imax(imax(tri.a.x as int, tri.b.x as int), tri.c.x as int) as i64,
            y: imax(imax(tri.a.y as int, tri.b.y as int), tri.c.y as int) as i64,
            z: imax(imax(tri.a.z as int, tri.b.z as int), tri.c.z as int) as i64,
        },
    }
}

/// The triangle after a transformation: every vertex through the matrix,
/// every normal through the matrix and renormalized.
pub open spec fn triangle_transformed(tri: Triangle, t: Transformation) -> Triangle {
    let m = transformation_matrix(t);
    Triangle {
        a: apply_vec_spec(m, tri.a),
        b: apply_vec_spec(m, tri.b),
        c: apply_vec_spec(m, tri.c),
        na: apply_normal_spec(m, tri.na),
        nb: apply_normal_spec(m, tri.nb),
        nc: apply_normal_spec(m, tri.nc),
        per_vertex_normals: tri.per_vertex_normals,
    }
}

impl Triangle {
    pub open spec fn wf(self) -> bool {
        &&& ninf(self.a) <= COORD_MAX as int
        &&& ninf(self.b) <= COORD_MAX as int
        &&& ninf(self.c) <= COORD_MAX as int
        &&& self.na.wf()
        &&& self.nb.wf()
        &&& self.nc.wf()
    }

    /// A flat triangle: all three normals are the face normal of the winding.
    pub fn new(a: Point, b: Point, c: Point) -> (r: Triangle)
        requires
            a.wf(),
            b.wf(),
            c.wf(),
        ensures
            r.a == crate::point::pv(a),
            r.b == crate::point::pv(b),
            r.c == crate::point::pv(c),
            r.na == normalize_spec(
                vcross(vsub(crate::point::pv(b), crate::point::pv(a)), vsub(crate::point::pv(c), crate::point::pv(a))),
            ),
            r.nb == r.na && r.nc == r.na,
            !r.per_vertex_normals,
            r.wf(),
    {
        let av: Vector = a.to_vector();
        let bv: Vector = b.to_vector();
        let cv: Vector = c.to_vector();
        let ab: Vector = bv.sub(av);
        let ac: Vector = cv.sub(av);
        proof {
            lemma_cross_bound(ab, ac, 2 * COORD_MAX as int, 2 * COORD_MAX as int);
        }
        let n: Normal = ab.cross(ac).normalize();
        Triangle { a: av, b: bv, c: cv, na: n, nb: n, nc: n, per_vertex_normals: false }
    }

    /// A triangle with its own normal at each vertex.
    pub fn with_normals(a: Point, na: Normal, b: Point, nb: Normal, c: Point, nc: Normal) -> (r:
        Triangle)
        requires
            a.wf(),
            b.wf(),
            c.wf(),
            na.wf(),
            nb.wf(),
            nc.wf(),
        ensures
            r == (Triangle {
                a: crate::point::pv(a),
                b: crate::point::pv(b),
                c: crate::point::pv(c),
                na,
                nb,
                nc,
                per_vertex_normals: true,
            }),
            r.wf(),
    {
        Triangle {
            a: a.to_vector(),
            b: b.to_vector(),
            c: c.to_vector(),
            na,
            nb,
            nc,
            per_vertex_normals: true,
        }
    }

    /// Nearest hit with its barycentric coordinates; see
    /// [`triangle_intersect_spec`].
    pub fn intersect(&self, ray: &Ray) -> (res: Option<Intersection>)
        requires
            self.wf(),
            ray.wf(),
        ensures
            res == triangle_intersect_spec(*self, *ray),
            res matches Some(i) ==> i matches Intersection::TriangleIntersect(t, u, v) && 0 < t
                <= DIST_MAX && 0 <= u <= SCALE && 0 <= v && u + v <= SCALE,
    {
        let ab: Vector = self.b.sub(self.a);
        let ac: Vector = self.c.sub(self.a);
        proof {
            lemma_cross_bound(nv(ray.direction), ac, SCALE as int, 2 * COORD_MAX as int);
        }
        let normal: Vector = ray.direction.to_vector().cross(ac);
        proof {
            assert(normal == vcross(nv(ray.direction), ac));
            lemma_dot_bound(ab, normal, 2 * COORD_MAX as int, 4 * COORD_MAX as int + 2);
        }
        let d: i64 = ab.dot(normal);
        if d == 0 {
            return None;
        }
        let ao: Vector = ray.origin.to_vector().sub(self.a);
        proof {
            lemma_dot_bound(ao, normal, ORIGIN_MAX as int + COORD_MAX as int, 4 * COORD_MAX as int + 2);
        }
        let u_num: i64 = ao.dot(normal);
        proof {
            lemma_fdiv_bound(u_num as int, d as int);
        }
        let u_wide: i128 = div_fx_wide(u_num, d);
        if !(0 <= u_wide && u_wide <= SCALE as i128) {
            return None;
        }
        let u: i64 = u_wide as i64;
        proof {
            lemma_cross_bound(ao, ab, ORIGIN_MAX as int + COORD_MAX as int, 2 * COORD_MAX as int);
        }
        let ao_cross_ab: Vector = ao.cross(ab);
        proof {
            assert(ao_cross_ab == vcross(ao, ab));
            lemma_dot_bound(
                nv(ray.direction),
                ao_cross_ab,
                SCALE as int,
                2 * (((ORIGIN_MAX as int + COORD_MAX as int) * (2 * COORD_MAX as int)) / (
                SCALE as int)) + 2,
            );
            lemma_dot_bound(
                ac,
                ao_cross_ab,
                2 * COORD_MAX as int,
                2 * (((ORIGIN_MAX as int + COORD_MAX as int) * (2 * COORD_MAX as int)) / (
                SCALE as int)) + 2,
            );
        }
        let v_num: i64 = ray.direction.to_vector().dot(ao_cross_ab);
        proof {
            lemma_fdiv_bound(v_num as int, d as int);
        }
        let v_wide: i128 = div_fx_wide(v_num, d);
        if v_wide < 0 || u_wide + v_wide > SCALE as i128 {
            return None;
        }
        let v: i64 = v_wide as i64;
        let t_num: i64 = ac.dot(ao_cross_ab);
        proof {
            lemma_fdiv_bound(t_num as int, d as int);
        }
        let t_wide: i128 = div_fx_wide(t_num, d);
        if 0 < t_wide && t_wide <= DIST_MAX as i128 {
            Some(Intersection::TriangleIntersect(t_wide as i64, u, v))
        } else {
            None
        }
    }

    /// The shading normal for a barycentric hit. Calling this with a plain
    /// hit is a logic error, so the barycentric variant is demanded outright.
    pub fn normal_at_point(&self, _point: &Point, intersection: Intersection) -> (r: Normal)
        requires
            self.wf(),
            intersection matches Intersection::TriangleIntersect(t, u, v) && 0 <= u <= SCALE && 0
                <= v && u + v <= SCALE,
        ensures
            intersection matches Intersection::TriangleIntersect(t, u, v) ==> r
                == triangle_normal_spec(*self, u as int, v as int),
            r.wf(),
    {
        match intersection {
            Intersection::TriangleIntersect(_, u, v) => {
                if self.per_vertex_normals {
                    let w: i64 = SCALE - u - v;
                    proof {
                        lemma_interp_bounds(*self, u as int, v as int, w as int);
                    }
                    let sb: Vector = self.nb.scaled(u);
                    let sc: Vector = self.nc.scaled(v);
                    let sa: Vector = self.na.scaled(w);
                    sb.add(sc).add(sa).normalize()
                } else {
                    self.na
                }
            },
            _ => {
                proof {
                    assert(false);
                }
                self.na
            },
        }
    }

    /// Transform every vertex and normal by the matrix of the transformation.
    pub fn transform(&mut self, t: Transformation)
        requires
            old(self).wf(),
            t.wf(),
            transformation_matrix(t).bounded(COORD_MAX as int),
            ninf(triangle_transformed(*old(self), t).a) <= COORD_MAX as int,
            ninf(triangle_transformed(*old(self), t).b) <= COORD_MAX as int,
            ninf(triangle_transformed(*old(self), t).c) <= COORD_MAX as int,
        ensures
            *final(self) == triangle_transformed(*old(self), t),
            final(self).wf(),
    {
        let matrix: Matrix = t.transformation_to_matrix();
        self.a = matrix.apply_vector(self.a);
        self.b = matrix.apply_vector(self.b);
        self.c = matrix.apply_vector(self.c);
        self.na = matrix.apply_normal(self.na);
        self.nb = matrix.apply_normal(self.nb);
        self.nc = matrix.apply_normal(self.nc);
    }

    /// The smallest box containing the three vertices.
    pub fn bounding_box(&self) -> (r: AlighnedBox)
        requires
            self.wf(),
        ensures
            r == triangle_bounding_box_spec(*self),
            r.proper(),
    {
        let min: Point = Point::new(
            min_fx(min_fx(self.a.x, self.b.x), self.c.x),
            min_fx(min_fx(self.a.y, self.b.y), self.c.y),
            min_fx(min_fx(self.a.z, self.b.z), self.c.z),
        );
        let max: Point = Point::new(
            max_fx(max_fx(self.a.x, self.b.x), self.c.x),
            max_fx(max_fx(self.a.y, self.b.y), self.c.y),
            max_fx(max_fx(self.a.z, self.b.z), self.c.z),
        );
        AlighnedBox::new(min, max)
    }
}

/// Translating a triangle there and back restores its vertices, and with them
/// its bounding box: fixed-point translation is exact. (The vertex normals are
/// renormalized on each step and may drift; the box depends only on the
/// vertices.)
#[verifier::rlimit(100)]
pub proof fn lemma_triangle_translation_round_trip(tri: Triangle, v: Vector)
    requires
        tri.wf(),
        ninf(v) <= COORD_MAX as int,
    ensures
        ({
            let back = triangle_transformed(
                triangle_transformed(tri, Transformation::Translation(v)),
                Transformation::Translation(
                    Vector { x: (-v.x) as i64, y: (-v.y) as i64, z: (-v.z) as i64 },
                ),
            );
            back.a == tri.a && back.b == tri.b && back.c == tri.c
                && triangle_bounding_box_spec(back) == triangle_bounding_box_spec(tri)
        }),
{
    let back_v = Vector { x: (-v.x) as i64, y: (-v.y) as i64, z: (-v.z) as i64 };
    crate::matrix::lemma_translation_apply_vector(v, tri.a);
    crate::matrix::lemma_translation_apply_vector(v, tri.b);
    crate::matrix::lemma_translation_apply_vector(v, tri.c);
    let moved = triangle_transformed(tri, Transformation::Translation(v));
    crate::matrix::lemma_translation_apply_vector(back_v, moved.a);
    crate::matrix::lemma_translation_apply_vector(back_v, moved.b);
    crate::matrix::lemma_translation_apply_vector(back_v, moved.c);
}

/// Bounds for the barycentric interpolation of the three vertex normals.
proof fn lemma_interp_bounds(tri: Triangle, u: int, v: int, w: int)
    requires
        tri.wf(),
        0 <= u <= SCALE as int,
        0 <= v <= SCALE as int,
        0 <= w <= SCALE as int,
    ensures
        fits_i64(fmul(tri.nb.x as int, u)) && fits_i64(fmul(tri.nb.y as int, u)) && fits_i64(
            fmul(tri.nb.z as int, u),
        ),
        fits_i64(fmul(tri.nc.x as int, v)) && fits_i64(fmul(tri.nc.y as int, v)) && fits_i64(
            fmul(tri.nc.z as int, v),
        ),
        fits_i64(fmul(tri.na.x as int, w)) && fits_i64(fmul(tri.na.y as int, w)) && fits_i64(
            fmul(tri.na.z as int, w),
        ),
        iabs(fmul(tri.nb.x as int, u)) <= SCALE as int + 1,
        iabs(fmul(tri.nb.y as int, u)) <= SCALE as int + 1,
        iabs(fmul(tri.nb.z as int, u)) <= SCALE as int + 1,
        iabs(fmul(tri.nc.x as int, v)) <= SCALE as int + 1,
        iabs(fmul(tri.nc.y as int, v)) <= SCALE as int + 1,
        iabs(fmul(tri.nc.z as int, v)) <= SCALE as int + 1,
        iabs(fmul(tri.na.x as int, w)) <= SCALE as int + 1,
        iabs(fmul(tri.na.y as int, w)) <= SCALE as int + 1,
        iabs(fmul(tri.na.z as int, w)) <= SCALE as int + 1,
{
    let s = SCALE as int;
    crate::fixed::lemma_abs_mul(tri.nb.x as int, u, s, s);
    crate::fixed::lemma_abs_mul(tri.nb.y as int, u, s, s);
    crate::fixed::lemma_abs_mul(tri.nb.z as int, u, s, s);
    crate::fixed::lemma_abs_mul(tri.nc.x as int, v, s, s);
    crate::fixed::lemma_abs_mul(tri.nc.y as int, v, s, s);
    crate::fixed::lemma_abs_mul(tri.nc.z as int, v, s, s);
    crate::fixed::lemma_abs_mul(tri.na.x as int, w, s, s);
    crate::fixed::lemma_abs_mul(tri.na.y as int, w, s, s);
    crate::fixed::lemma_abs_mul(tri.na.z as int, w, s, s);
    crate::fixed::lemma_fmul_bound(tri.nb.x as int, u, s * s);
    crate::fixed::lemma_fmul_bound(tri.nb.y as int, u, s * s);
    crate::fixed::lemma_fmul_bound(tri.nb.z as int, u, s * s);
    crate::fixed::lemma_fmul_bound(tri.nc.x as int, v, s * s);
    crate::fixed::lemma_fmul_bound(tri.nc.y as int, v, s * s);
    crate::fixed::lemma_fmul_bound(tri.nc.z as int, v, s * s);
    crate::fixed::lemma_fmul_bound(tri.na.x as int, w, s * s);
    crate::fixed::lemma_fmul_bound(tri.na.y as int, w, s * s);
    crate::fixed::lemma_fmul_bound(tri.na.z as int, w, s * s);
}

} // verus!
