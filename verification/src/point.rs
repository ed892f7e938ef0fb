//! Locations in space, kept apart from free vectors.

use vstd::prelude::*;

use crate::fixed::fits_i64;
use crate::geometry::Axis;
use crate::vector::COORD_MAX;
use crate::vector::Vector;
use crate::vector::ninf;
use crate::vector::vcomp;

verus! {

#[derive(Clone, Copy, Debug, PartialEq, Eq, Structural)]
pub struct Point {
    pub x: i64,
    pub y: i64,
    pub z: i64,
}

/// The point seen as a free vector from the origin.
pub open spec fn pv(p: Point) -> Vector {
    Vector { x: p.x, y: p.y, z: p.z }
}

impl Point {
    pub open spec fn wf(self) -> bool {
        ninf(pv(self)) <= COORD_MAX as int
    }

    pub fn new(x: i64, y: i64, z: i64) -> (r: Point)
        ensures
            r == (Point { x, y, z }),
    {
        Point { x, y, z }
    }

    pub fn add(&self, other: Vector) -> (r: Point)
        requires
            fits_i64(self.x + other.x),
            fits_i64(self.y + other.y),
            fits_i64(self.z + other.z),
        ensures
            r.x == self.x + other.x,
            r.y == self.y + other.y,
            r.z == self.z + other.z,
    {
        Point { x: self.x + other.x, y: self.y + other.y, z: self.z + other.z }
    }

    /// The vector leading from `other` to `self`.
    pub fn sub(&self, other: Point) -> (r: Vector)
        requires
            fits_i64(self.x - other.x),
            fits_i64(self.y - other.y),
            fits_i64(self.z - other.z),
        ensures
            r.x == self.x - other.x,
            r.y == self.y - other.y,
            r.z == self.z - other.z,
    {
        Vector { x: self.x - other.x, y: self.y - other.y, z: self.z - other.z }
    }

    pub fn to_vector(&self) -> (r: Vector)
        ensures
            r == pv(*self),
    {
        Vector { x: self.x, y: self.y, z: self.z }
    }

    pub fn index(&self, axis: Axis) -> (r: i64)
        ensures
            r as int == vcomp(pv(*self), axis),
    {
        match axis {
            Axis::X => self.x,
            Axis::Y => self.y,
            Axis::Z => self.z,
        }
    }
}

} // verus!
