//! Directions: vectors whose components stay within one unit.
//!
//! As in many small tracers this is a sanity bound, not a guarantee of unit
//! length; `Vector::normalize` produces values that respect it.

use vstd::prelude::*;

use crate::fixed::SCALE;
use crate::fixed::fits_i64;
use crate::fixed::fmul;
use crate::fixed::iabs;
use crate::geometry::Axis;
use crate::vector::Vector;
use crate::vector::dot_spec;
use crate::vector::lemma_dot_bound;
use crate::vector::ninf;
use crate::vector::normalize_spec;
use crate::vector::vcomp;

verus! {

#[derive(Clone, Copy, Debug, PartialEq, Eq, Structural)]
pub struct Normal {
    pub x: i64,
    pub y: i64,
    pub z: i64,
}

/// The direction seen as a free vector.
pub open spec fn nv(n: Normal) -> Vector {
    Vector { x: n.x, y: n.y, z: n.z }
}

/// Reflection of `direction` about `normal`, renormalized.
pub open spec fn reflect_spec(normal: Normal, direction: Normal) -> Normal {
    let n = nv(normal);
    let d = nv(direction);
    let k = 2 * dot_spec(d, n);
    normalize_spec(
        Vector {
            x: (d.x - fmul(n.x as int, k)) as i64,
            y: (d.y - fmul(n.y as int, k)) as i64,
            z: (d.z - fmul(n.z as int, k)) as i64,
        },
    )
}

impl Normal {
    pub open spec fn wf(self) -> bool {
        ninf(nv(self)) <= SCALE as int
    }

    /// The opposite direction, as a spec value.
    pub open spec fn neg_spec(self) -> Normal {
        Normal { x: (-self.x) as i64, y: (-self.y) as i64, z: (-self.z) as i64 }
    }

    /// Every component must lie within one unit; out-of-range directions are
    /// ruled out by the precondition.
    pub fn new(x: i64, y: i64, z: i64) -> (r: Normal)
        requires
            iabs(x as int) <= SCALE as int,
            iabs(y as int) <= SCALE as int,
            iabs(z as int) <= SCALE as int,
        ensures
            r == (Normal { x, y, z }),
            r.wf(),
    {
        Normal { x, y, z }
    }

    pub fn dot(&self, other: Normal) -> (r: i64)
        requires
            self.wf(),
            other.wf(),
        ensures
            r as int == dot_spec(nv(*self), nv(other)),
            iabs(r as int) <= 3 * (SCALE as int) + 3,
    {
        proof {
            lemma_dot_bound(nv(*self), nv(other), SCALE as int, SCALE as int);
        }
        self.to_vector().dot(other.to_vector())
    }

    /// Mirror `direction` about `normal` and renormalize.
    pub fn reflect(normal: Normal, direction: Normal) -> (r: Normal)
        requires
            normal.wf(),
            direction.wf(),
        ensures
            r == reflect_spec(normal, direction),
            r.wf(),
    {
        proof {
            lemma_dot_bound(nv(direction), nv(normal), SCALE as int, SCALE as int);
        }
        let d: i64 = direction.to_vector().dot(normal.to_vector());
        let k: i64 = 2 * d;
        proof {
            crate::fixed::lemma_abs_mul(normal.x as int, k as int, SCALE as int, 7 * (SCALE as int));
            crate::fixed::lemma_abs_mul(normal.y as int, k as int, SCALE as int, 7 * (SCALE as int));
            crate::fixed::lemma_abs_mul(normal.z as int, k as int, SCALE as int, 7 * (SCALE as int));
            crate::fixed::lemma_fmul_bound(normal.x as int, k as int, 7 * (SCALE as int) * (SCALE as int));
            crate::fixed::lemma_fmul_bound(normal.y as int, k as int, 7 * (SCALE as int) * (SCALE as int));
            crate::fixed::lemma_fmul_bound(normal.z as int, k as int, 7 * (SCALE as int) * (SCALE as int));
        }
        let sx: i64 = crate::fixed::mul_fx(normal.x, k);
        let sy: i64 = crate::fixed::mul_fx(normal.y, k);
        let sz: i64 = crate::fixed::mul_fx(normal.z, k);
        let v: Vector = Vector {
            x: direction.x - sx,
            y: direction.y - sy,
            z: direction.z - sz,
        };
        v.normalize()
    }

    /// Scale by a fixed-point factor, yielding a free vector.
    pub fn scaled(&self, k: i64) -> (r: Vector)
        requires
            self.wf(),
            fits_i64(fmul(self.x as int, k as int)),
            fits_i64(fmul(self.y as int, k as int)),
            fits_i64(fmul(self.z as int, k as int)),
        ensures
            r.x as int == fmul(self.x as int, k as int),
            r.y as int == fmul(self.y as int, k as int),
            r.z as int == fmul(self.z as int, k as int),
    {
        Vector {
            x: crate::fixed::mul_fx(self.x, k),
            y: crate::fixed::mul_fx(self.y, k),
            z: crate::fixed::mul_fx(self.z, k),
        }
    }

    pub fn neg(&self) -> (r: Normal)
        requires
            self.wf(),
        ensures
            r == self.neg_spec(),
            r.x == -self.x,
            r.y == -self.y,
            r.z == -self.z,
            r.wf(),
    {
        Normal { x: -self.x, y: -self.y, z: -self.z }
    }

    pub fn to_vector(&self) -> (r: Vector)
        ensures
            r == nv(*self),
    {
        Vector { x: self.x, y: self.y, z: self.z }
    }

    pub fn index(&self, axis: Axis) -> (r: i64)
        ensures
            r as int == vcomp(nv(*self), axis),
    {
        match axis {
            Axis::X => self.x,
            Axis::Y => self.y,
            Axis::Z => self.z,
        }
    }
}

} // verus!
