//! Free vectors with fixed-point components, and the bulk of the scalar
//! bound lemmas the rest of the geometry leans on.

use vstd::prelude::*;

use crate::fixed::SCALE;
use crate::fixed::clamp_spec;
use crate::fixed::div_floor_i128;
use crate::fixed::fdiv;
use crate::fixed::fits_i64;
use crate::fixed::fmul;
use crate::fixed::iabs;
use crate::fixed::lemma_abs_mul;
use crate::fixed::lemma_fmul_bound;
use crate::fixed::sqrt_fx;
use crate::fixed::sqrt_fx_spec;
use crate::fixed::div_fx;
use crate::geometry::Axis;
use crate::normal::Normal;
use crate::point::Point;

verus! {

/// Largest magnitude a world coordinate may have (10^3 world units).
pub const COORD_MAX: i64 = 10_000_000;

/// Largest component magnitude accepted by `length` and `normalize`.
pub const LENGTH_MAX: i64 = 100_000_000_000;

#[derive(Clone, Copy, Debug, PartialEq, Eq, Structural)]
pub struct Vector {
    pub x: i64,
    pub y: i64,
    pub z: i64,
}

/// Infinity norm: the largest component magnitude.
pub open spec fn ninf(v: Vector) -> int {
    let ax = iabs(v.x as int);
    let ay = iabs(v.y as int);
    let az = iabs(v.z as int);
    if ax >= ay && ax >= az {
        ax
    } else if ay >= az {
        ay
    } else {
        az
    }
}

pub open spec fn dot_spec(a: Vector, b: Vector) -> int {
    fmul(a.x as int, b.x as int) + fmul(a.y as int, b.y as int) + fmul(a.z as int, b.z as int)
}

pub open spec fn cross_x_spec(a: Vector, b: Vector) -> int {
    fmul(a.y as int, b.z as int) - fmul(a.z as int, b.y as int)
}

pub open spec fn cross_y_spec(a: Vector, b: Vector) -> int {
    fmul(a.z as int, b.x as int) - fmul(a.x as int, b.z as int)
}

pub open spec fn cross_z_spec(a: Vector, b: Vector) -> int {
    fmul(a.x as int, b.y as int) - fmul(a.y as int, b.x as int)
}

pub open spec fn length_spec(v: Vector) -> int {
    sqrt_fx_spec(dot_spec(v, v))
}

pub open spec fn normalize_spec(v: Vector) -> Normal {
    let l = length_spec(v);
    if l == 0 {
        Normal { x: 0, y: 0, z: 0 }
    } else {
        Normal {
            x: clamp_spec(fdiv(v.x as int, l), -SCALE as int, SCALE as int) as i64,
            y: clamp_spec(fdiv(v.y as int, l), -SCALE as int, SCALE as int) as i64,
            z: clamp_spec(fdiv(v.z as int, l), -SCALE as int, SCALE as int) as i64,
        }
    }
}

/// Componentwise difference, as a spec value.
pub open spec fn vsub(a: Vector, b: Vector) -> Vector {
    Vector { x: (a.x - b.x) as i64, y: (a.y - b.y) as i64, z: (a.z - b.z) as i64 }
}

/// The cross product, as a spec value.
pub open spec fn vcross(a: Vector, b: Vector) -> Vector {
    Vector {
        x: cross_x_spec(a, b) as i64,
        y: cross_y_spec(a, b) as i64,
        z: cross_z_spec(a, b) as i64,
    }
}

pub open spec fn vcomp(v: Vector, axis: Axis) -> int {
    match axis {
        Axis::X => v.x as int,
        Axis::Y => v.y as int,
        Axis::Z => v.z as int,
    }
}

/// A fixed-point product of two in-range scalars stays far inside `i128`.
pub proof fn lemma_fmul_fits(a: int, b: int)
    requires
        iabs(a) <= 0x8000_0000_0000_0000,
        iabs(b) <= 0x8000_0000_0000_0000,
    ensures
        iabs(a * b) <= 0x4000_0000_0000_0000_0000_0000_0000_0000,
        iabs(fmul(a, b)) <= 0x4000_0000_0000_0000_0000_0000_0000_0000int / (SCALE as int) + 1,
{
    lemma_abs_mul(a, b, 0x8000_0000_0000_0000, 0x8000_0000_0000_0000);
    lemma_fmul_bound(a, b, 0x4000_0000_0000_0000_0000_0000_0000_0000);
}

/// Bound on a fixed-point dot product from bounds on its operands.
pub proof fn lemma_dot_bound(a: Vector, b: Vector, ma: int, mb: int)
    requires
        ninf(a) <= ma,
        ninf(b) <= mb,
    ensures
        iabs(dot_spec(a, b)) <= 3 * ((ma * mb) / (SCALE as int)) + 3,
{
    lemma_abs_mul(a.x as int, b.x as int, ma, mb);
    lemma_abs_mul(a.y as int, b.y as int, ma, mb);
    lemma_abs_mul(a.z as int, b.z as int, ma, mb);
    lemma_fmul_bound(a.x as int, b.x as int, ma * mb);
    lemma_fmul_bound(a.y as int, b.y as int, ma * mb);
    lemma_fmul_bound(a.z as int, b.z as int, ma * mb);
}

/// Bound on the components of a fixed-point cross product.
pub proof fn lemma_cross_bound(a: Vector, b: Vector, ma: int, mb: int)
    requires
        ninf(a) <= ma,
        ninf(b) <= mb,
    ensures
        iabs(cross_x_spec(a, b)) <= 2 * ((ma * mb) / (SCALE as int)) + 2,
        iabs(cross_y_spec(a, b)) <= 2 * ((ma * mb) / (SCALE as int)) + 2,
        iabs(cross_z_spec(a, b)) <= 2 * ((ma * mb) / (SCALE as int)) + 2,
{
    lemma_abs_mul(a.x as int, b.y as int, ma, mb);
    lemma_abs_mul(a.x as int, b.z as int, ma, mb);
    lemma_abs_mul(a.y as int, b.x as int, ma, mb);
    lemma_abs_mul(a.y as int, b.z as int, ma, mb);
    lemma_abs_mul(a.z as int, b.x as int, ma, mb);
    lemma_abs_mul(a.z as int, b.y as int, ma, mb);
    lemma_fmul_bound(a.x as int, b.y as int, ma * mb);
    lemma_fmul_bound(a.x as int, b.z as int, ma * mb);
    lemma_fmul_bound(a.y as int, b.x as int, ma * mb);
    lemma_fmul_bound(a.y as int, b.z as int, ma * mb);
    lemma_fmul_bound(a.z as int, b.x as int, ma * mb);
    lemma_fmul_bound(a.z as int, b.y as int, ma * mb);
}

/// Monotonicity of products of non-negative bounds.
pub proof fn lemma_prod_le(a: int, b: int, aa: int, bb: int)
    requires
        0 <= a <= aa,
        0 <= b <= bb,
    ensures
        a * b <= aa * bb,
{
    assert(a * b <= aa * bb) by (nonlinear_arith)
        requires
            0 <= a <= aa,
            0 <= b <= bb,
    ;
}

impl Vector {
    /// All components within the world-coordinate range.
    pub open spec fn wf(self) -> bool {
        ninf(self) <= COORD_MAX as int
    }

    pub fn new(x: i64, y: i64, z: i64) -> (r: Vector)
        ensures
            r == (Vector { x, y, z }),
    {
        Vector { x, y, z }
    }

    /// Fixed-point dot product, each term floored separately.
    pub fn dot(&self, other: Vector) -> (r: i64)
        requires
            fits_i64(dot_spec(*self, other)),
        ensures
            r as int == dot_spec(*self, other),
    {
        proof {
            lemma_fmul_fits(self.x as int, other.x as int);
            lemma_fmul_fits(self.y as int, other.y as int);
            lemma_fmul_fits(self.z as int, other.z as int);
        }
        let tx: i128 = div_floor_i128((self.x as i128) * (other.x as i128), SCALE as i128);
        let ty: i128 = div_floor_i128((self.y as i128) * (other.y as i128), SCALE as i128);
        let tz: i128 = div_floor_i128((self.z as i128) * (other.z as i128), SCALE as i128);
        (tx + ty + tz) as i64
    }

    /// Squared length would overflow long before this; `length` therefore
    /// asks for components within `LENGTH_MAX`.
    pub fn length(&self) -> (r: i64)
        requires
            ninf(*self) <= LENGTH_MAX as int,
        ensures
            r as int == length_spec(*self),
            0 <= r,
    {
        proof {
            lemma_dot_bound(*self, *self, LENGTH_MAX as int, LENGTH_MAX as int);
            lemma_dot_nonneg(*self);
        }
        let d: i64 = self.dot(*self);
        sqrt_fx(d)
    }

    pub fn cross(&self, other: Vector) -> (r: Vector)
        requires
            fits_i64(cross_x_spec(*self, other)),
            fits_i64(cross_y_spec(*self, other)),
            fits_i64(cross_z_spec(*self, other)),
        ensures
            r.x as int == cross_x_spec(*self, other),
            r.y as int == cross_y_spec(*self, other),
            r.z as int == cross_z_spec(*self, other),
    {
        proof {
            lemma_fmul_fits(self.x as int, other.x as int);
            lemma_fmul_fits(self.x as int, other.y as int);
            lemma_fmul_fits(self.x as int, other.z as int);
            lemma_fmul_fits(self.y as int, other.x as int);
            lemma_fmul_fits(self.y as int, other.z as int);
            lemma_fmul_fits(self.z as int, other.x as int);
            lemma_fmul_fits(self.z as int, other.y as int);
        }
        let cx: i128 = div_floor_i128((self.y as i128) * (other.z as i128), SCALE as i128)
            - div_floor_i128((self.z as i128) * (other.y as i128), SCALE as i128);
        let cy: i128 = div_floor_i128((self.z as i128) * (other.x as i128), SCALE as i128)
            - div_floor_i128((self.x as i128) * (other.z as i128), SCALE as i128);
        let cz: i128 = div_floor_i128((self.x as i128) * (other.y as i128), SCALE as i128)
            - div_floor_i128((self.y as i128) * (other.x as i128), SCALE as i128);
        Vector { x: cx as i64, y: cy as i64, z: cz as i64 }
    }

    /// Direction of the vector; a zero-length vector yields the zero normal.
    pub fn normalize(&self) -> (r: Normal)
        requires
            ninf(*self) <= LENGTH_MAX as int,
        ensures
            r == normalize_spec(*self),
            r.wf(),
    {
        let len: i64 = self.length();
        if len == 0 {
            Normal::new(0, 0, 0)
        } else {
            proof {
                crate::fixed::lemma_div_stays_in_range(self.x as int * SCALE as int, len as int);
                crate::fixed::lemma_div_stays_in_range(self.y as int * SCALE as int, len as int);
                crate::fixed::lemma_div_stays_in_range(self.z as int * SCALE as int, len as int);
                lemma_abs_mul(self.x as int, SCALE as int, LENGTH_MAX as int, SCALE as int);
                lemma_abs_mul(self.y as int, SCALE as int, LENGTH_MAX as int, SCALE as int);
                lemma_abs_mul(self.z as int, SCALE as int, LENGTH_MAX as int, SCALE as int);
            }
            let nx: i64 = crate::fixed::clamp_fx(div_fx(self.x, len), -SCALE, SCALE);
            let ny: i64 = crate::fixed::clamp_fx(div_fx(self.y, len), -SCALE, SCALE);
            let nz: i64 = crate::fixed::clamp_fx(div_fx(self.z, len), -SCALE, SCALE);
            Normal::new(nx, ny, nz)
        }
    }

    pub fn add(&self, other: Vector) -> (r: Vector)
        requires
            fits_i64(self.x + other.x),
            fits_i64(self.y + other.y),
            fits_i64(self.z + other.z),
        ensures
            r.x == self.x + other.x,
            r.y == self.y + other.y,
            r.z == self.z + other.z,
    {
        Vector { x: self.x + other.x, y: self.y + other.y, z: self.z + other.z }
    }

    pub fn sub(&self, other: Vector) -> (r: Vector)
        requires
            fits_i64(self.x - other.x),
            fits_i64(self.y - other.y),
            fits_i64(self.z - other.z),
        ensures
            r.x == self.x - other.x,
            r.y == self.y - other.y,
            r.z == self.z - other.z,
    {
        Vector { x: self.x - other.x, y: self.y - other.y, z: self.z - other.z }
    }

    pub fn neg(&self) -> (r: Vector)
        requires
            i64::MIN < self.x,
            i64::MIN < self.y,
            i64::MIN < self.z,
        ensures
            r.x == -self.x,
            r.y == -self.y,
            r.z == -self.z,
    {
        Vector { x: -self.x, y: -self.y, z: -self.z }
    }

    /// Componentwise fixed-point division by a scalar.
    pub fn div(&self, k: i64) -> (r: Vector)
        requires
            k != 0,
            fits_i64(fdiv(self.x as int, k as int)),
            fits_i64(fdiv(self.y as int, k as int)),
            fits_i64(fdiv(self.z as int, k as int)),
        ensures
            r.x as int == fdiv(self.x as int, k as int),
            r.y as int == fdiv(self.y as int, k as int),
            r.z as int == fdiv(self.z as int, k as int),
    {
        Vector { x: div_fx(self.x, k), y: div_fx(self.y, k), z: div_fx(self.z, k) }
    }

    pub fn to_point(&self) -> (r: Point)
        ensures
            r.x == self.x,
            r.y == self.y,
            r.z == self.z,
    {
        Point { x: self.x, y: self.y, z: self.z }
    }

    pub fn index(&self, axis: Axis) -> (r: i64)
        ensures
            r as int == vcomp(*self, axis),
    {
        match axis {
            Axis::X => self.x,
            Axis::Y => self.y,
            Axis::Z => self.z,
        }
    }
}

/// A dot product of a vector with itself is non-negative.
pub proof fn lemma_dot_nonneg(v: Vector)
    ensures
        0 <= dot_spec(v, v),
{
    lemma_sq_div_nonneg(v.x as int);
    lemma_sq_div_nonneg(v.y as int);
    lemma_sq_div_nonneg(v.z as int);
}

proof fn lemma_sq_div_nonneg(a: int)
    ensures
        0 <= fmul(a, a),
{
    assert(0 <= a * a) by (nonlinear_arith);
    if a * a > 0 {
        vstd::arithmetic::div_mod::lemma_div_pos_is_pos(a * a, SCALE as int);
    } else {
        assert(a * a == 0);
        vstd::arithmetic::div_mod::lemma_basic_div(0, SCALE as int);
    }
}

} // verus!
