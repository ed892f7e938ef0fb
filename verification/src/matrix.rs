//! 4x4 transformation matrices over fixed-point scalars, applied to points,
//! vectors and normals through homogeneous coordinates.
//!
//! As in the rest of the geometry, normals are transformed by the forward
//! matrix and renormalized rather than by the inverse transpose; this is exact
//! only for translations and rotations and is a documented approximation for
//! non-uniform scaling.

use vstd::prelude::*;

use crate::fixed::SCALE;
use crate::fixed::div_floor_i128;
use crate::fixed::fmul;
use crate::fixed::iabs;
use crate::fixed::lemma_abs_mul;
use crate::fixed::lemma_fmul_bound;
use crate::geometry::Angle;
use crate::geometry::Axis;
use crate::geometry::Transformation;
use crate::normal::Normal;
use crate::normal::nv;
use crate::point::Point;
use crate::point::pv;
use crate::vector::COORD_MAX;
use crate::vector::LENGTH_MAX;
use crate::vector::Vector;
use crate::vector::ninf;
use crate::vector::normalize_spec;

verus! {

/// A 4x4 matrix in row-major order.
#[derive(Clone, Copy, Debug, PartialEq, Eq, Structural)]
pub struct Matrix {
    pub m00: i64,
    pub m01: i64,
    pub m02: i64,
    pub m03: i64,
    pub m10: i64,
    pub m11: i64,
    pub m12: i64,
    pub m13: i64,
    pub m20: i64,
    pub m21: i64,
    pub m22: i64,
    pub m23: i64,
    pub m30: i64,
    pub m31: i64,
    pub m32: i64,
    pub m33: i64,
}

/// One row of a homogeneous product: `a*x + b*y + c*z + d*w`, each term a
/// fixed-point product.
pub open spec fn apply_row(a: int, b: int, c: int, d: int, x: int, y: int, z: int, w: int) -> int {
    fmul(a, x) + fmul(b, y) + fmul(c, z) + fmul(d, w)
}

pub open spec fn apx(m: Matrix, x: int, y: int, z: int, w: int) -> int {
    apply_row(m.m00 as int, m.m01 as int, m.m02 as int, m.m03 as int, x, y, z, w)
}

pub open spec fn apy(m: Matrix, x: int, y: int, z: int, w: int) -> int {
    apply_row(m.m10 as int, m.m11 as int, m.m12 as int, m.m13 as int, x, y, z, w)
}

pub open spec fn apz(m: Matrix, x: int, y: int, z: int, w: int) -> int {
    apply_row(m.m20 as int, m.m21 as int, m.m22 as int, m.m23 as int, x, y, z, w)
}

/// Applying a matrix to a point or free vector: homogeneous coordinate 1.
pub open spec fn apply_vec_spec(m: Matrix, v: Vector) -> Vector {
    Vector {
        x: apx(m, v.x as int, v.y as int, v.z as int, SCALE as int) as i64,
        y: apy(m, v.x as int, v.y as int, v.z as int, SCALE as int) as i64,
        z: apz(m, v.x as int, v.y as int, v.z as int, SCALE as int) as i64,
    }
}

pub open spec fn apply_point_spec(m: Matrix, p: Point) -> Point {
    Point {
        x: apx(m, p.x as int, p.y as int, p.z as int, SCALE as int) as i64,
        y: apy(m, p.x as int, p.y as int, p.z as int, SCALE as int) as i64,
        z: apz(m, p.x as int, p.y as int, p.z as int, SCALE as int) as i64,
    }
}

pub open spec fn apply_normal_spec(m: Matrix, n: Normal) -> Normal {
    normalize_spec(apply_vec_spec(m, nv(n)))
}

pub open spec fn translation_matrix(v: Vector) -> Matrix {
    Matrix {
        m00: SCALE, m01: 0, m02: 0, m03: v.x,
        m10: 0, m11: SCALE, m12: 0, m13: v.y,
        m20: 0, m21: 0, m22: SCALE, m23: v.z,
        m30: 0, m31: 0, m32: 0, m33: SCALE,
    }
}

pub open spec fn scale_matrix(v: Vector) -> Matrix {
    Matrix {
        m00: v.x, m01: 0, m02: 0, m03: 0,
        m10: 0, m11: v.y, m12: 0, m13: 0,
        m20: 0, m21: 0, m22: v.z, m23: 0,
        m30: 0, m31: 0, m32: 0, m33: SCALE,
    }
}

pub open spec fn rotation_x_matrix(a: Angle) -> Matrix {
    Matrix {
        m00: SCALE, m01: 0, m02: 0, m03: 0,
        m10: 0, m11: a.cos, m12: (-a.sin as int) as i64, m13: 0,
        m20: 0, m21: a.sin, m22: a.cos, m23: 0,
        m30: 0, m31: 0, m32: 0, m33: SCALE,
    }
}

pub open spec fn rotation_y_matrix(a: Angle) -> Matrix {
    Matrix {
        m00: a.cos, m01: 0, m02: a.sin, m03: 0,
        m10: 0, m11: SCALE, m12: 0, m13: 0,
        m20: (-a.sin as int) as i64, m21: 0, m22: a.cos, m23: 0,
        m30: 0, m31: 0, m32: 0, m33: SCALE,
    }
}

pub open spec fn rotation_z_matrix(a: Angle) -> Matrix {
    Matrix {
        m00: a.cos, m01: (-a.sin as int) as i64, m02: 0, m03: 0,
        m10: a.sin, m11: a.cos, m12: 0, m13: 0,
        m20: 0, m21: 0, m22: SCALE, m23: 0,
        m30: 0, m31: 0, m32: 0, m33: SCALE,
    }
}

/// One matrix entry addressed by row and column.
pub open spec fn melem(m: Matrix, r: int, c: int) -> int {
    if r == 0 {
        if c == 0 { m.m00 as int } else if c == 1 { m.m01 as int }
        else if c == 2 { m.m02 as int } else { m.m03 as int }
    } else if r == 1 {
        if c == 0 { m.m10 as int } else if c == 1 { m.m11 as int }
        else if c == 2 { m.m12 as int } else { m.m13 as int }
    } else if r == 2 {
        if c == 0 { m.m20 as int } else if c == 1 { m.m21 as int }
        else if c == 2 { m.m22 as int } else { m.m23 as int }
    } else {
        if c == 0 { m.m30 as int } else if c == 1 { m.m31 as int }
        else if c == 2 { m.m32 as int } else { m.m33 as int }
    }
}

/// Entry `(r, c)` of the matrix product `a * b`.
pub open spec fn mul_elem_spec(a: Matrix, b: Matrix, r: int, c: int) -> int {
    apply_row(
        melem(a, r, 0), melem(a, r, 1), melem(a, r, 2), melem(a, r, 3),
        melem(b, 0, c), melem(b, 1, c), melem(b, 2, c), melem(b, 3, c),
    )
}

/// A fixed-point row/column product of four terms whose factors stay within
/// `LENGTH_MAX`.
fn dot4(a: i64, b: i64, c: i64, d: i64, x: i64, y: i64, z: i64, w: i64) -> (r: i64)
    requires
        iabs(a as int) <= LENGTH_MAX as int,
        iabs(b as int) <= LENGTH_MAX as int,
        iabs(c as int) <= LENGTH_MAX as int,
        iabs(d as int) <= LENGTH_MAX as int,
        iabs(x as int) <= LENGTH_MAX as int,
        iabs(y as int) <= LENGTH_MAX as int,
        iabs(z as int) <= LENGTH_MAX as int,
        iabs(w as int) <= LENGTH_MAX as int,
    ensures
        r as int == apply_row(a as int, b as int, c as int, d as int, x as int, y as int, z as int, w as int),
{
    proof {
        lemma_abs_mul(a as int, x as int, LENGTH_MAX as int, LENGTH_MAX as int);
        lemma_abs_mul(b as int, y as int, LENGTH_MAX as int, LENGTH_MAX as int);
        lemma_abs_mul(c as int, z as int, LENGTH_MAX as int, LENGTH_MAX as int);
        lemma_abs_mul(d as int, w as int, LENGTH_MAX as int, LENGTH_MAX as int);
        lemma_fmul_bound(a as int, x as int, (LENGTH_MAX as int) * (LENGTH_MAX as int));
        lemma_fmul_bound(b as int, y as int, (LENGTH_MAX as int) * (LENGTH_MAX as int));
        lemma_fmul_bound(c as int, z as int, (LENGTH_MAX as int) * (LENGTH_MAX as int));
        lemma_fmul_bound(d as int, w as int, (LENGTH_MAX as int) * (LENGTH_MAX as int));
    }
    let t0: i128 = div_floor_i128((a as i128) * (x as i128), SCALE as i128);
    let t1: i128 = div_floor_i128((b as i128) * (y as i128), SCALE as i128);
    let t2: i128 = div_floor_i128((c as i128) * (z as i128), SCALE as i128);
    let t3: i128 = div_floor_i128((d as i128) * (w as i128), SCALE as i128);
    (t0 + t1 + t2 + t3) as i64
}

impl Matrix {
    /// Every entry within the given magnitude.
    pub open spec fn bounded(self, m: int) -> bool {
        &&& iabs(self.m00 as int) <= m && iabs(self.m01 as int) <= m
        &&& iabs(self.m02 as int) <= m && iabs(self.m03 as int) <= m
        &&& iabs(self.m10 as int) <= m && iabs(self.m11 as int) <= m
        &&& iabs(self.m12 as int) <= m && iabs(self.m13 as int) <= m
        &&& iabs(self.m20 as int) <= m && iabs(self.m21 as int) <= m
        &&& iabs(self.m22 as int) <= m && iabs(self.m23 as int) <= m
        &&& iabs(self.m30 as int) <= m && iabs(self.m31 as int) <= m
        &&& iabs(self.m32 as int) <= m && iabs(self.m33 as int) <= m
    }

    pub fn new() -> (r: Matrix)
        ensures
            forall|i: int, j: int| 0 <= i < 4 && 0 <= j < 4 ==> melem(r, i, j) == 0,
    {
        Matrix {
            m00: 0, m01: 0, m02: 0, m03: 0,
            m10: 0, m11: 0, m12: 0, m13: 0,
            m20: 0, m21: 0, m22: 0, m23: 0,
            m30: 0, m31: 0, m32: 0, m33: 0,
        }
    }

    /// Build a matrix from row-major data.
    pub fn with_data(d: [[i64; 4]; 4]) -> (r: Matrix)
        ensures
            forall|i: int, j: int| 0 <= i < 4 && 0 <= j < 4 ==> melem(r, i, j) == d@[i]@[j] as int,
    {
        Matrix {
            m00: d[0][0], m01: d[0][1], m02: d[0][2], m03: d[0][3],
            m10: d[1][0], m11: d[1][1], m12: d[1][2], m13: d[1][3],
            m20: d[2][0], m21: d[2][1], m22: d[2][2], m23: d[2][3],
            m30: d[3][0], m31: d[3][1], m32: d[3][2], m33: d[3][3],
        }
    }

    pub fn translation(v: Vector) -> (r: Matrix)
        ensures
            r == translation_matrix(v),
    {
        Matrix {
            m00: SCALE, m01: 0, m02: 0, m03: v.x,
            m10: 0, m11: SCALE, m12: 0, m13: v.y,
            m20: 0, m21: 0, m22: SCALE, m23: v.z,
            m30: 0, m31: 0, m32: 0, m33: SCALE,
        }
    }

    pub fn scale(v: Vector) -> (r: Matrix)
        ensures
            r == scale_matrix(v),
    {
        Matrix {
            m00: v.x, m01: 0, m02: 0, m03: 0,
            m10: 0, m11: v.y, m12: 0, m13: 0,
            m20: 0, m21: 0, m22: v.z, m23: 0,
            m30: 0, m31: 0, m32: 0, m33: SCALE,
        }
    }

    pub fn rotation_x(a: Angle) -> (r: Matrix)
        requires
            a.wf(),
        ensures
            r == rotation_x_matrix(a),
    {
        Matrix {
            m00: SCALE, m01: 0, m02: 0, m03: 0,
            m10: 0, m11: a.cos, m12: -a.sin, m13: 0,
            m20: 0, m21: a.sin, m22: a.cos, m23: 0,
            m30: 0, m31: 0, m32: 0, m33: SCALE,
        }
    }

    pub fn rotation_y(a: Angle) -> (r: Matrix)
        requires
            a.wf(),
        ensures
            r == rotation_y_matrix(a),
    {
        Matrix {
            m00: a.cos, m01: 0, m02: a.sin, m03: 0,
            m10: 0, m11: SCALE, m12: 0, m13: 0,
            m20: -a.sin, m21: 0, m22: a.cos, m23: 0,
            m30: 0, m31: 0, m32: 0, m33: SCALE,
        }
    }

    pub fn rotation_z(a: Angle) -> (r: Matrix)
        requires
            a.wf(),
        ensures
            r == rotation_z_matrix(a),
    {
        Matrix {
            m00: a.cos, m01: -a.sin, m02: 0, m03: 0,
            m10: a.sin, m11: a.cos, m12: 0, m13: 0,
            m20: 0, m21: 0, m22: SCALE, m23: 0,
            m30: 0, m31: 0, m32: 0, m33: SCALE,
        }
    }

    /// Matrix product.
    pub fn mul(&self, rhs: &Matrix) -> (r: Matrix)
        requires
            self.bounded(LENGTH_MAX as int),
            rhs.bounded(LENGTH_MAX as int),
        ensures
            forall|i: int, j: int|
                0 <= i < 4 && 0 <= j < 4 ==> melem(r, i, j) == mul_elem_spec(*self, *rhs, i, j),
    {
        Matrix {
            m00: dot4(self.m00, self.m01, self.m02, self.m03, rhs.m00, rhs.m10, rhs.m20, rhs.m30),
            m01: dot4(self.m00, self.m01, self.m02, self.m03, rhs.m01, rhs.m11, rhs.m21, rhs.m31),
            m02: dot4(self.m00, self.m01, self.m02, self.m03, rhs.m02, rhs.m12, rhs.m22, rhs.m32),
            m03: dot4(self.m00, self.m01, self.m02, self.m03, rhs.m03, rhs.m13, rhs.m23, rhs.m33),
            m10: dot4(self.m10, self.m11, self.m12, self.m13, rhs.m00, rhs.m10, rhs.m20, rhs.m30),
            m11: dot4(self.m10, self.m11, self.m12, self.m13, rhs.m01, rhs.m11, rhs.m21, rhs.m31),
            m12: dot4(self.m10, self.m11, self.m12, self.m13, rhs.m02, rhs.m12, rhs.m22, rhs.m32),
            m13: dot4(self.m10, self.m11, self.m12, self.m13, rhs.m03, rhs.m13, rhs.m23, rhs.m33),
            m20: dot4(self.m20, self.m21, self.m22, self.m23, rhs.m00, rhs.m10, rhs.m20, rhs.m30),
            m21: dot4(self.m20, self.m21, self.m22, self.m23, rhs.m01, rhs.m11, rhs.m21, rhs.m31),
            m22: dot4(self.m20, self.m21, self.m22, self.m23, rhs.m02, rhs.m12, rhs.m22, rhs.m32),
            m23: dot4(self.m20, self.m21, self.m22, self.m23, rhs.m03, rhs.m13, rhs.m23, rhs.m33),
            m30: dot4(self.m30, self.m31, self.m32, self.m33, rhs.m00, rhs.m10, rhs.m20, rhs.m30),
            m31: dot4(self.m30, self.m31, self.m32, self.m33, rhs.m01, rhs.m11, rhs.m21, rhs.m31),
            m32: dot4(self.m30, self.m31, self.m32, self.m33, rhs.m02, rhs.m12, rhs.m22, rhs.m32),
            m33: dot4(self.m30, self.m31, self.m32, self.m33, rhs.m03, rhs.m13, rhs.m23, rhs.m33),
        }
    }

    /// Apply to a free vector. Vectors and normals ride through with a
    /// homogeneous coordinate of one, just like points, so translations move
    /// them too; a deliberate simplification of this design.
    pub fn apply_vector(&self, v: Vector) -> (r: Vector)
        requires
            self.bounded(LENGTH_MAX as int),
            ninf(v) <= LENGTH_MAX as int,
        ensures
            r == apply_vec_spec(*self, v),
    {
        let x: i64 = dot4(self.m00, self.m01, self.m02, self.m03, v.x, v.y, v.z, SCALE);
        let y: i64 = dot4(self.m10, self.m11, self.m12, self.m13, v.x, v.y, v.z, SCALE);
        let z: i64 = dot4(self.m20, self.m21, self.m22, self.m23, v.x, v.y, v.z, SCALE);
        Vector { x, y, z }
    }

    pub fn apply_point(&self, p: Point) -> (r: Point)
        requires
            self.bounded(LENGTH_MAX as int),
            ninf(pv(p)) <= LENGTH_MAX as int,
        ensures
            r == apply_point_spec(*self, p),
    {
        let x: i64 = dot4(self.m00, self.m01, self.m02, self.m03, p.x, p.y, p.z, SCALE);
        let y: i64 = dot4(self.m10, self.m11, self.m12, self.m13, p.x, p.y, p.z, SCALE);
        let z: i64 = dot4(self.m20, self.m21, self.m22, self.m23, p.x, p.y, p.z, SCALE);
        Point { x, y, z }
    }

    /// Apply to a direction and renormalize.
    pub fn apply_normal(&self, n: Normal) -> (r: Normal)
        requires
            self.bounded(COORD_MAX as int),
            n.wf(),
        ensures
            r == apply_normal_spec(*self, n),
            r.wf(),
    {
        let v: Vector = self.apply_vector(n.to_vector());
        proof {
            lemma_apply_bound(*self, nv(n), COORD_MAX as int, SCALE as int);
        }
        v.normalize()
    }
}

/// Bound on the components a matrix application can produce.
pub proof fn lemma_apply_bound(m: Matrix, v: Vector, mm: int, mv: int)
    requires
        m.bounded(mm),
        ninf(v) <= mv,
        0 <= mm,
        SCALE as int <= mv,
    ensures
        iabs(apx(m, v.x as int, v.y as int, v.z as int, SCALE as int)) <= 4 * ((mm * mv) / (
        SCALE as int)) + 4,
        iabs(apy(m, v.x as int, v.y as int, v.z as int, SCALE as int)) <= 4 * ((mm * mv) / (
        SCALE as int)) + 4,
        iabs(apz(m, v.x as int, v.y as int, v.z as int, SCALE as int)) <= 4 * ((mm * mv) / (
        SCALE as int)) + 4,
{
    let s = SCALE as int;
    lemma_abs_mul(m.m00 as int, v.x as int, mm, mv);
    lemma_abs_mul(m.m01 as int, v.y as int, mm, mv);
    lemma_abs_mul(m.m02 as int, v.z as int, mm, mv);
    lemma_abs_mul(m.m03 as int, s, mm, mv);
    lemma_abs_mul(m.m10 as int, v.x as int, mm, mv);
    lemma_abs_mul(m.m11 as int, v.y as int, mm, mv);
    lemma_abs_mul(m.m12 as int, v.z as int, mm, mv);
    lemma_abs_mul(m.m13 as int, s, mm, mv);
    lemma_abs_mul(m.m20 as int, v.x as int, mm, mv);
    lemma_abs_mul(m.m21 as int, v.y as int, mm, mv);
    lemma_abs_mul(m.m22 as int, v.z as int, mm, mv);
    lemma_abs_mul(m.m23 as int, s, mm, mv);
    lemma_fmul_bound(m.m00 as int, v.x as int, mm * mv);
    lemma_fmul_bound(m.m01 as int, v.y as int, mm * mv);
    lemma_fmul_bound(m.m02 as int, v.z as int, mm * mv);
    lemma_fmul_bound(m.m03 as int, s, mm * mv);
    lemma_fmul_bound(m.m10 as int, v.x as int, mm * mv);
    lemma_fmul_bound(m.m11 as int, v.y as int, mm * mv);
    lemma_fmul_bound(m.m12 as int, v.z as int, mm * mv);
    lemma_fmul_bound(m.m13 as int, s, mm * mv);
    lemma_fmul_bound(m.m20 as int, v.x as int, mm * mv);
    lemma_fmul_bound(m.m21 as int, v.y as int, mm * mv);
    lemma_fmul_bound(m.m22 as int, v.z as int, mm * mv);
    lemma_fmul_bound(m.m23 as int, s, mm * mv);
}

impl Transformation {
    /// The matrix of this transformation.
    pub fn transformation_to_matrix(&self) -> (r: Matrix)
        requires
            self.wf(),
        ensures
            r == transformation_matrix(*self),
    {
        match *self {
            Transformation::Rotation(axis, angle) => match axis {
                Axis::X => Matrix::rotation_x(angle),
                Axis::Y => Matrix::rotation_y(angle),
                Axis::Z => Matrix::rotation_z(angle),
            },
            Transformation::Translation(vector) => Matrix::translation(vector),
            Transformation::Scale(vector) => Matrix::scale(vector),
        }
    }
}

/// Applying a translation matrix moves a point by exactly the translation
/// vector: the homogeneous products are exact.
pub proof fn lemma_translation_apply_point(v: Vector, p: Point)
    requires
        crate::fixed::fits_i64(p.x + v.x),
        crate::fixed::fits_i64(p.y + v.y),
        crate::fixed::fits_i64(p.z + v.z),
    ensures
        apply_point_spec(translation_matrix(v), p) == (Point {
            x: (p.x + v.x) as i64,
            y: (p.y + v.y) as i64,
            z: (p.z + v.z) as i64,
        }),
{
    crate::fixed::lemma_fmul_one(p.x as int);
    crate::fixed::lemma_fmul_one(p.y as int);
    crate::fixed::lemma_fmul_one(p.z as int);
    crate::fixed::lemma_fmul_one(v.x as int);
    crate::fixed::lemma_fmul_one(v.y as int);
    crate::fixed::lemma_fmul_one(v.z as int);
    crate::fixed::lemma_fmul_zero(p.x as int);
    crate::fixed::lemma_fmul_zero(p.y as int);
    crate::fixed::lemma_fmul_zero(p.z as int);
}

/// The same for free vectors, which ride through the translation with a
/// homogeneous coordinate of one, just like points.
pub proof fn lemma_translation_apply_vector(v: Vector, u: Vector)
    requires
        crate::fixed::fits_i64(u.x + v.x),
        crate::fixed::fits_i64(u.y + v.y),
        crate::fixed::fits_i64(u.z + v.z),
    ensures
        apply_vec_spec(translation_matrix(v), u) == (Vector {
            x: (u.x + v.x) as i64,
            y: (u.y + v.y) as i64,
            z: (u.z + v.z) as i64,
        }),
{
    lemma_translation_apply_point(v, Point { x: u.x, y: u.y, z: u.z });
}

pub open spec fn transformation_matrix(t: Transformation) -> Matrix {
    match t {
        Transformation::Rotation(axis, angle) => match axis {
            Axis::X => rotation_x_matrix(angle),
            Axis::Y => rotation_y_matrix(angle),
            Axis::Z => rotation_z_matrix(angle),
        },
        Transformation::Translation(vector) => translation_matrix(vector),
        Transformation::Scale(vector) => scale_matrix(vector),
    }
}

} // verus!
