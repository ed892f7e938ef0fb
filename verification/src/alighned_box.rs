//! Axis-aligned boxes: bounding volumes and a primitive in their own right.
//!
//! The default box carries inverted sentinel corners so that a union with any
//! real box yields that box; the union laws are proved below.

use vstd::prelude::*;

use crate::fixed::SCALE;
use crate::fixed::fdiv;
use crate::fixed::fmul;
use crate::fixed::iabs;
use crate::fixed::imax;
use crate::fixed::imin;
use crate::fixed::div_fx;
use crate::fixed::lemma_abs_mul;
use crate::fixed::lemma_fdiv_bound;
use crate::fixed::lemma_fmul_bound;
use crate::fixed::max_fx;
use crate::fixed::min_fx;
use crate::geometry::Axis;
use crate::geometry::Intersection;
use crate::geometry::Transformation;
use crate::matrix::Matrix;
use crate::matrix::apply_point_spec;
use crate::matrix::transformation_matrix;
use crate::normal::Normal;
use crate::point::Point;
use crate::point::pv;
use crate::ray::DIST_MAX;
use crate::ray::ORIGIN_MAX;
use crate::ray::Ray;
use crate::vector::COORD_MAX;
use crate::vector::Vector;
use crate::vector::ninf;

verus! {

/// Largest magnitude a corner of a proper box may have.
pub const BOX_MAX: i64 = 200_000_000;

/// Sentinel corner coordinate of the default (empty) box.
pub const BOX_INF: i64 = 1_000_000_000_000_000_000;

/// Sentinel slab parameter standing in for an unbounded interval.
pub const T_INF: i64 = 1_000_000_000_000_000_000;

/// Sentinel surface area of an empty box: worse than any real area.
pub const AREA_INF: i64 = 1_000_000_000_000_000;

/// Surface tolerance when matching a point to one of the six faces.
pub const FACE_TOLERANCE: i64 = 10;

#[derive(Clone, Copy, Debug, PartialEq, Eq, Structural)]
pub struct AlighnedBox {
    pub min: Point,
    pub max: Point,
}

pub open spec fn default_box_spec() -> AlighnedBox {
    AlighnedBox {
        min: Point { x: BOX_INF, y: BOX_INF, z: BOX_INF },
        max: Point { x: (-BOX_INF) as i64, y: (-BOX_INF) as i64, z: (-BOX_INF) as i64 },
    }
}

pub open spec fn union_spec(a: AlighnedBox, b: AlighnedBox) -> AlighnedBox {
    AlighnedBox {
        min: Point {
            x: imin(a.min.x as int, b.min.x as int) as i64,
            y: imin(a.min.y as int, b.min.y as int) as i64,
            z: imin(a.min.z as int, b.min.z as int) as i64,
        },
        max: Point {
            x: imax(a.max.x as int, b.max.x as int) as i64,
            y: imax(a.max.y as int, b.max.y as int) as i64,
            z: imax(a.max.z as int, b.max.z as int) as i64,
        },
    }
}

pub open spec fn center_spec(b: AlighnedBox) -> Point {
    Point {
        x: fdiv(b.min.x + b.max.x, 2 * SCALE) as i64,
        y: fdiv(b.min.y + b.max.y, 2 * SCALE) as i64,
        z: fdiv(b.min.z + b.max.z, 2 * SCALE) as i64,
    }
}

pub open spec fn longest_axis_spec(b: AlighnedBox) -> Axis {
    let dx = b.max.x - b.min.x;
    let dy = b.max.y - b.min.y;
    let dz = b.max.z - b.min.z;
    if dx > dy && dx > dz {
        Axis::X
    } else if dy > dz {
        Axis::Y
    } else {
        Axis::Z
    }
}

/// The point's position within the box, per axis as a fraction of the extent;
/// axes without extent keep the raw offset.
pub open spec fn offset_spec(b: AlighnedBox, p: Point) -> Vector {
    Vector {
        x: if b.max.x > b.min.x {
            fdiv(p.x - b.min.x, b.max.x - b.min.x) as i64
        } else {
            (p.x - b.min.x) as i64
        },
        y: if b.max.y > b.min.y {
            fdiv(p.y - b.min.y, b.max.y - b.min.y) as i64
        } else {
            (p.y - b.min.y) as i64
        },
        z: if b.max.z > b.min.z {
            fdiv(p.z - b.min.z, b.max.z - b.min.z) as i64
        } else {
            (p.z - b.min.z) as i64
        },
    }
}

pub open spec fn surface_area_spec(b: AlighnedBox) -> int {
    if b.min.x > b.max.x || b.min.y > b.max.y || b.min.z > b.max.z {
        AREA_INF as int
    } else {
        let dx = b.max.x - b.min.x;
        let dy = b.max.y - b.min.y;
        let dz = b.max.z - b.min.z;
        2 * (fmul(dx, dy) + fmul(dx, dz) + fmul(dy, dz))
    }
}

/// Parametric interval of one slab. A zero direction component makes the
/// interval unbounded (both ends sentinels) when the origin lies between the
/// slab planes, and empty otherwise.
pub open spec fn slab_lo_raw(c: int, o: int, d: int) -> int {
    if d != 0 {
        fdiv(c - o, d)
    } else if c - o <= 0 {
        -T_INF as int
    } else {
        T_INF as int
    }
}

pub open spec fn slab_hi_raw(c: int, o: int, d: int) -> int {
    if d != 0 {
        fdiv(c - o, d)
    } else if c - o >= 0 {
        T_INF as int
    } else {
        -T_INF as int
    }
}

pub open spec fn slab_lo(minc: int, maxc: int, o: int, d: int) -> int {
    imin(slab_lo_raw(minc, o, d), slab_hi_raw(maxc, o, d))
}

pub open spec fn slab_hi(minc: int, maxc: int, o: int, d: int) -> int {
    imax(slab_lo_raw(minc, o, d), slab_hi_raw(maxc, o, d))
}

/// The final entry parameter of the slab method: the three per-axis parameter
/// intervals are intersected and the greatest lower end is reported, or an
/// out-of-range sentinel when some pair of intervals fails to overlap.
pub open spec fn slab_entry_spec(b: AlighnedBox, r: Ray) -> int {
    let lx = slab_lo(b.min.x as int, b.max.x as int, r.origin.x as int, r.direction.x as int);
    let hx = slab_hi(b.min.x as int, b.max.x as int, r.origin.x as int, r.direction.x as int);
    let ly = slab_lo(b.min.y as int, b.max.y as int, r.origin.y as int, r.direction.y as int);
    let hy = slab_hi(b.min.y as int, b.max.y as int, r.origin.y as int, r.direction.y as int);
    let lz = slab_lo(b.min.z as int, b.max.z as int, r.origin.z as int, r.direction.z as int);
    let hz = slab_hi(b.min.z as int, b.max.z as int, r.origin.z as int, r.direction.z as int);
    if lx > hy || ly > hx {
        T_INF as int
    } else {
        let t1 = imax(lx, ly);
        let t2 = imin(hx, hy);
        if t1 > hz || lz > t2 {
            T_INF as int
        } else {
            imax(t1, lz)
        }
    }
}

/// Whether the ray's parameter line meets the box, at any parameter, in
/// front of or behind the origin. This is the pruning test the tree traversal
/// uses: it must never reject a box some contained surface is hit through, so
/// it carries no sign or distance constraint, and its interval comparisons
/// allow one floored-division rounding step of slack on each side.
pub open spec fn box_overlap_spec(b: AlighnedBox, r: Ray) -> bool {
    let lx = slab_lo(b.min.x as int, b.max.x as int, r.origin.x as int, r.direction.x as int);
    let hx = slab_hi(b.min.x as int, b.max.x as int, r.origin.x as int, r.direction.x as int);
    let ly = slab_lo(b.min.y as int, b.max.y as int, r.origin.y as int, r.direction.y as int);
    let hy = slab_hi(b.min.y as int, b.max.y as int, r.origin.y as int, r.direction.y as int);
    let lz = slab_lo(b.min.z as int, b.max.z as int, r.origin.z as int, r.direction.z as int);
    let hz = slab_hi(b.min.z as int, b.max.z as int, r.origin.z as int, r.direction.z as int);
    if lx > hy + 2 || ly > hx + 2 {
        false
    } else {
        let t1 = imax(lx, ly);
        let t2 = imin(hx, hy);
        if t1 > hz + 2 || lz > t2 + 2 {
            false
        } else {
            -T_INF < imax(t1, lz) < T_INF as int
        }
    }
}

/// Slab-method ray/box intersection as a scene primitive: a hit requires the
/// entry parameter to be positive (a box around the ray origin is a miss, as
/// the intersection protocol demands) and within the reportable range.
pub open spec fn box_intersect_spec(b: AlighnedBox, r: Ray) -> Option<Intersection> {
    let tmin = slab_entry_spec(b, r);
    if 0 < tmin <= DIST_MAX as int {
        Some(Intersection::Intersect(tmin as i64))
    } else {
        None
    }
}

/// Which of the six faces the point lies on, within `FACE_TOLERANCE`.
pub open spec fn face_normal_spec(b: AlighnedBox, p: Point) -> Option<Normal> {
    if iabs(p.x - b.min.x) < FACE_TOLERANCE as int {
        Some(Normal { x: (-SCALE) as i64, y: 0, z: 0 })
    } else if iabs(p.x - b.max.x) < FACE_TOLERANCE as int {
        Some(Normal { x: SCALE, y: 0, z: 0 })
    } else if iabs(p.y - b.min.y) < FACE_TOLERANCE as int {
        Some(Normal { x: 0, y: (-SCALE) as i64, z: 0 })
    } else if iabs(p.y - b.max.y) < FACE_TOLERANCE as int {
        Some(Normal { x: 0, y: SCALE, z: 0 })
    } else if iabs(p.z - b.min.z) < FACE_TOLERANCE as int {
        Some(Normal { x: 0, y: 0, z: (-SCALE) as i64 })
    } else if iabs(p.z - b.max.z) < FACE_TOLERANCE as int {
        Some(Normal { x: 0, y: 0, z: SCALE })
    } else {
        None
    }
}

impl AlighnedBox {
    /// A real box: ordered corners within the world range.
    pub open spec fn proper(self) -> bool {
        &&& self.min.x <= self.max.x
        &&& self.min.y <= self.max.y
        &&& self.min.z <= self.max.z
        &&& ninf(pv(self.min)) <= BOX_MAX as int
        &&& ninf(pv(self.max)) <= BOX_MAX as int
    }

    /// Either a real box or a not-yet-filled union seed within the sentinels.
    pub open spec fn wf(self) -> bool {
        self.proper() || (ninf(pv(self.min)) <= BOX_INF as int && ninf(pv(self.max))
            <= BOX_INF as int && (self.min.x > self.max.x || self.min.y > self.max.y || self.min.z
            > self.max.z))
    }

    pub fn new(min: Point, max: Point) -> (r: AlighnedBox)
        ensures
            r == (AlighnedBox { min, max }),
    {
        AlighnedBox { min, max }
    }

    /// The box spanning `center` plus/minus the three half-extents.
    pub fn from_dimensions(center: Point, width: i64, height: i64, length: i64) -> (r: AlighnedBox)
        requires
            center.wf(),
            0 <= width <= COORD_MAX,
            0 <= height <= COORD_MAX,
            0 <= length <= COORD_MAX,
        ensures
            r.min.x == center.x - width,
            r.min.y == center.y - height,
            r.min.z == center.z - length,
            r.max.x == center.x + width,
            r.max.y == center.y + height,
            r.max.z == center.z + length,
            r.proper(),
    {
        let size: Vector = Vector::new(width, height, length);
        let c: Vector = center.to_vector();
        AlighnedBox::new(c.sub(size).to_point(), c.add(size).to_point())
    }

    /// Center of a real box.
    pub fn center(&self) -> (r: Point)
        requires
            self.proper(),
        ensures
            r == center_spec(*self),
            ninf(pv(r)) <= BOX_MAX as int,
    {
        proof {
            lemma_fdiv_bound(self.min.x + self.max.x, 2 * SCALE as int);
            lemma_fdiv_bound(self.min.y + self.max.y, 2 * SCALE as int);
            lemma_fdiv_bound(self.min.z + self.max.z, 2 * SCALE as int);
            lemma_center_in_box(*self);
        }
        let sum: Vector = self.min.to_vector().add(self.max.to_vector());
        sum.div(2 * SCALE).to_point()
    }

    /// The smallest box containing both boxes.
    pub fn union(&self, other: &AlighnedBox) -> (r: AlighnedBox)
        ensures
            r == union_spec(*self, *other),
    {
        AlighnedBox::new(
            Point::new(
                min_fx(self.min.x, other.min.x),
                min_fx(self.min.y, other.min.y),
                min_fx(self.min.z, other.min.z),
            ),
            Point::new(
                max_fx(self.max.x, other.max.x),
                max_fx(self.max.y, other.max.y),
                max_fx(self.max.z, other.max.z),
            ),
        )
    }

    /// The smallest box containing this box and the point.
    pub fn union_point(&self, other: Point) -> (r: AlighnedBox)
        ensures
            r == union_spec(AlighnedBox { min: other, max: other }, *self),
    {
        AlighnedBox::new(other, other).union(self)
    }

    /// The axis along which the box is longest; X wins ties against both,
    /// then Y against Z.
    pub fn longest_axis(&self) -> (r: Axis)
        requires
            self.wf(),
        ensures
            r == longest_axis_spec(*self),
    {
        let x_len: i64 = self.max.x - self.min.x;
        let y_len: i64 = self.max.y - self.min.y;
        let z_len: i64 = self.max.z - self.min.z;
        if x_len > y_len && x_len > z_len {
            Axis::X
        } else if y_len > z_len {
            Axis::Y
        } else {
            Axis::Z
        }
    }

    /// Fractional position of `p` within the box, used for SAH bucketing.
    pub fn offset(&self, p: Point) -> (r: Vector)
        requires
            self.proper(),
            ninf(pv(p)) <= BOX_MAX as int,
        ensures
            r == offset_spec(*self, p),
    {
        let mut ox: i64 = p.x - self.min.x;
        let mut oy: i64 = p.y - self.min.y;
        let mut oz: i64 = p.z - self.min.z;
        if self.max.x > self.min.x {
            proof {
                lemma_fdiv_bound(p.x - self.min.x, self.max.x - self.min.x);
            }
            ox = div_fx(ox, self.max.x - self.min.x);
        }
        if self.max.y > self.min.y {
            proof {
                lemma_fdiv_bound(p.y - self.min.y, self.max.y - self.min.y);
            }
            oy = div_fx(oy, self.max.y - self.min.y);
        }
        if self.max.z > self.min.z {
            proof {
                lemma_fdiv_bound(p.z - self.min.z, self.max.z - self.min.z);
            }
            oz = div_fx(oz, self.max.z - self.min.z);
        }
        Vector { x: ox, y: oy, z: oz }
    }

    /// Twice the sum of the pairwise face areas; an empty box reports the
    /// sentinel area, which loses against every real area.
    pub fn surface_area(&self) -> (r: i64)
        requires
            self.wf(),
        ensures
            r as int == surface_area_spec(*self),
            0 <= r <= AREA_INF,
    {
        if self.min.x > self.max.x || self.min.y > self.max.y || self.min.z > self.max.z {
            AREA_INF
        } else {
            let dx: i64 = self.max.x - self.min.x;
            let dy: i64 = self.max.y - self.min.y;
            let dz: i64 = self.max.z - self.min.z;
            proof {
                lemma_abs_mul(dx as int, dy as int, 2 * BOX_MAX as int, 2 * BOX_MAX as int);
                lemma_abs_mul(dx as int, dz as int, 2 * BOX_MAX as int, 2 * BOX_MAX as int);
                lemma_abs_mul(dy as int, dz as int, 2 * BOX_MAX as int, 2 * BOX_MAX as int);
                lemma_fmul_bound(dx as int, dy as int, 4 * (BOX_MAX as int) * (BOX_MAX as int));
                lemma_fmul_bound(dx as int, dz as int, 4 * (BOX_MAX as int) * (BOX_MAX as int));
                lemma_fmul_bound(dy as int, dz as int, 4 * (BOX_MAX as int) * (BOX_MAX as int));
                lemma_fmul_nonneg(dx as int, dy as int);
                lemma_fmul_nonneg(dx as int, dz as int);
                lemma_fmul_nonneg(dy as int, dz as int);
            }
            let axy: i64 = crate::fixed::mul_fx(dx, dy);
            let axz: i64 = crate::fixed::mul_fx(dx, dz);
            let ayz: i64 = crate::fixed::mul_fx(dy, dz);
            2 * (axy + axz + ayz)
        }
    }

    /// The slab method's entry parameter; see [`slab_entry_spec`].
    fn slab_entry(&self, ray: &Ray) -> (r: i64)
        requires
            self.proper(),
            ray.wf(),
        ensures
            r as int == slab_entry_spec(*self, *ray),
    {
        let (lx, hx): (i64, i64) = slab(self.min.x, self.max.x, ray.origin.x, ray.direction.x);
        let (ly, hy): (i64, i64) = slab(self.min.y, self.max.y, ray.origin.y, ray.direction.y);
        let (lz, hz): (i64, i64) = slab(self.min.z, self.max.z, ray.origin.z, ray.direction.z);
        if lx > hy || ly > hx {
            return T_INF;
        }
        let t1: i64 = max_fx(lx, ly);
        let t2: i64 = min_fx(hx, hy);
        if t1 > hz || lz > t2 {
            return T_INF;
        }
        max_fx(t1, lz)
    }

    /// Slab-method intersection as a primitive; see [`box_intersect_spec`].
    pub fn intersect(&self, ray: &Ray) -> (r: Option<Intersection>)
        requires
            self.proper(),
            ray.wf(),
        ensures
            r == box_intersect_spec(*self, *ray),
            r matches Some(i) ==> i matches Intersection::Intersect(t) && 0 < t
                <= DIST_MAX,
    {
        let tmin: i64 = self.slab_entry(ray);
        if 0 < tmin && tmin <= DIST_MAX {
            Some(Intersection::Intersect(tmin))
        } else {
            None
        }
    }

    /// The pruning test; see [`box_overlap_spec`]. Unlike the primitive
    /// protocol it accepts entry parameters behind the origin, so a box the
    /// ray starts inside still counts, and its comparisons carry a rounding
    /// step of slack so a hit floored across a box face is not pruned.
    pub fn ray_overlaps(&self, ray: &Ray) -> (r: bool)
        requires
            self.proper(),
            ray.wf(),
        ensures
            r == box_overlap_spec(*self, *ray),
    {
        let (lx, hx): (i64, i64) = slab(self.min.x, self.max.x, ray.origin.x, ray.direction.x);
        let (ly, hy): (i64, i64) = slab(self.min.y, self.max.y, ray.origin.y, ray.direction.y);
        let (lz, hz): (i64, i64) = slab(self.min.z, self.max.z, ray.origin.z, ray.direction.z);
        if lx > hy + 2 || ly > hx + 2 {
            return false;
        }
        let t1: i64 = max_fx(lx, ly);
        let t2: i64 = min_fx(hx, hy);
        if t1 > hz + 2 || lz > t2 + 2 {
            return false;
        }
        let tmin: i64 = max_fx(t1, lz);
        -T_INF < tmin && tmin < T_INF
    }

    /// The unit normal of the face the point lies on; the point must match one
    /// of the six faces within `FACE_TOLERANCE`. Anything else is a logic
    /// error in the caller, ruled out by the precondition.
    pub fn normal_at_point(&self, point: &Point, _intersection: Intersection) -> (r: Normal)
        requires
            self.proper(),
            ninf(pv(*point)) <= ORIGIN_MAX as int + DIST_MAX as int + 1,
            face_normal_spec(*self, *point) is Some,
        ensures
            Some(r) == face_normal_spec(*self, *point),
            r.wf(),
    {
        if abs_diff(point.x, self.min.x) < FACE_TOLERANCE {
            Normal::new(-SCALE, 0, 0)
        } else if abs_diff(point.x, self.max.x) < FACE_TOLERANCE {
            Normal::new(SCALE, 0, 0)
        } else if abs_diff(point.y, self.min.y) < FACE_TOLERANCE {
            Normal::new(0, -SCALE, 0)
        } else if abs_diff(point.y, self.max.y) < FACE_TOLERANCE {
            Normal::new(0, SCALE, 0)
        } else if abs_diff(point.z, self.min.z) < FACE_TOLERANCE {
            Normal::new(0, 0, -SCALE)
        } else {
            Normal::new(0, 0, SCALE)
        }
    }

    /// The face normal lookup as a total function: nothing when the point
    /// matches no face within the tolerance.
    pub fn try_face_normal(&self, point: &Point) -> (r: Option<Normal>)
        requires
            self.proper(),
            ninf(pv(*point)) <= ORIGIN_MAX as int + DIST_MAX as int + 1,
        ensures
            r == face_normal_spec(*self, *point),
            r matches Some(n) ==> n.wf(),
    {
        if abs_diff(point.x, self.min.x) < FACE_TOLERANCE {
            Some(Normal::new(-SCALE, 0, 0))
        } else if abs_diff(point.x, self.max.x) < FACE_TOLERANCE {
            Some(Normal::new(SCALE, 0, 0))
        } else if abs_diff(point.y, self.min.y) < FACE_TOLERANCE {
            Some(Normal::new(0, -SCALE, 0))
        } else if abs_diff(point.y, self.max.y) < FACE_TOLERANCE {
            Some(Normal::new(0, SCALE, 0))
        } else if abs_diff(point.z, self.min.z) < FACE_TOLERANCE {
            Some(Normal::new(0, 0, -SCALE))
        } else if abs_diff(point.z, self.max.z) < FACE_TOLERANCE {
            Some(Normal::new(0, 0, SCALE))
        } else {
            None
        }
    }

    /// Transform both corners by the matrix of the transformation. Rotation
    /// and negative scaling may leave the corners unordered; callers that
    /// need a proper box afterwards must re-establish it.
    pub fn transform(&mut self, t: Transformation)
        requires
            old(self).proper(),
            t.wf(),
            transformation_matrix(t).bounded(COORD_MAX as int),
        ensures
            final(self).min == apply_point_spec(transformation_matrix(t), old(self).min),
            final(self).max == apply_point_spec(transformation_matrix(t), old(self).max),
    {
        let matrix: Matrix = t.transformation_to_matrix();
        self.min = matrix.apply_point(self.min);
        self.max = matrix.apply_point(self.max);
    }

    pub fn bounding_box(&self) -> (r: AlighnedBox)
        ensures
            r == *self,
    {
        *self
    }
}

impl Default for AlighnedBox {
    /// The empty box: unioning it with any box yields that box.
    fn default() -> (r: AlighnedBox)
        ensures
            r == default_box_spec(),
    {
        AlighnedBox::new(
            Point::new(BOX_INF, BOX_INF, BOX_INF),
            Point::new(-BOX_INF, -BOX_INF, -BOX_INF),
        )
    }
}

/// `|a - b|` for scalars that are far from the `i64` limits.
fn abs_diff(a: i64, b: i64) -> (r: i64)
    requires
        iabs(a as int) <= BOX_INF as int,
        iabs(b as int) <= BOX_INF as int,
    ensures
        r as int == iabs(a - b),
{
    if a >= b {
        a - b
    } else {
        b - a
    }
}

/// One slab interval, ends ordered, sentinels standing in for infinity.
fn slab(minc: i64, maxc: i64, o: i64, d: i64) -> (r: (i64, i64))
    requires
        iabs(minc as int) <= BOX_MAX as int,
        iabs(maxc as int) <= BOX_MAX as int,
        iabs(o as int) <= ORIGIN_MAX as int,
    ensures
        r.0 as int == slab_lo(minc as int, maxc as int, o as int, d as int),
        r.1 as int == slab_hi(minc as int, maxc as int, o as int, d as int),
        -T_INF <= r.0 <= T_INF,
        -T_INF <= r.1 <= T_INF,
{
    let lo_raw: i64 = if d != 0 {
        proof {
            lemma_fdiv_bound(minc - o, d as int);
        }
        div_fx(minc - o, d)
    } else if minc - o <= 0 {
        -T_INF
    } else {
        T_INF
    };
    let hi_raw: i64 = if d != 0 {
        proof {
            lemma_fdiv_bound(maxc - o, d as int);
        }
        div_fx(maxc - o, d)
    } else if maxc - o >= 0 {
        T_INF
    } else {
        -T_INF
    };
    (min_fx(lo_raw, hi_raw), max_fx(lo_raw, hi_raw))
}

/// A product of two non-negative scalars stays non-negative after rescaling.
proof fn lemma_fmul_nonneg(a: int, b: int)
    requires
        0 <= a,
        0 <= b,
    ensures
        0 <= fmul(a, b),
{
    assert(0 <= a * b) by (nonlinear_arith)
        requires
            0 <= a,
            0 <= b,
    ;
    if a * b > 0 {
        vstd::arithmetic::div_mod::lemma_div_pos_is_pos(a * b, SCALE as int);
    } else {
        vstd::arithmetic::div_mod::lemma_basic_div(0, SCALE as int);
    }
}

/// The center of a real box lies within the world range of boxes.
proof fn lemma_center_in_box(b: AlighnedBox)
    requires
        b.proper(),
    ensures
        ninf(pv(center_spec(b))) <= BOX_MAX as int,
{
    lemma_halving(b.min.x as int, b.max.x as int);
    lemma_halving(b.min.y as int, b.max.y as int);
    lemma_halving(b.min.z as int, b.max.z as int);
}

/// Halving a sum of two bounded scalars stays bounded.
proof fn lemma_halving(a: int, b: int)
    requires
        iabs(a) <= BOX_MAX as int,
        iabs(b) <= BOX_MAX as int,
    ensures
        iabs(fdiv(a + b, 2 * SCALE)) <= BOX_MAX as int,
{
    let s = SCALE as int;
    let p = (a + b) * s;
    lemma_abs_mul(a + b, s, 2 * BOX_MAX as int, s);
    vstd::arithmetic::div_mod::lemma_fundamental_div_mod(p, 2 * s);
    vstd::arithmetic::div_mod::lemma_mod_bound(p, 2 * s);
    let q = p / (2 * s);
    let r = p % (2 * s);
    assert(iabs(q) <= BOX_MAX as int) by (nonlinear_arith)
        requires
            p == (2 * s) * q + r,
            0 <= r < 2 * s,
            iabs(p) <= 2 * (BOX_MAX as int) * s,
            s == SCALE as int,
            SCALE == 10000,
            BOX_MAX == 200_000_000,
    ;
}

/// Componentwise containment of one box in another.
pub open spec fn box_contains_spec(outer: AlighnedBox, inner: AlighnedBox) -> bool {
    &&& outer.min.x <= inner.min.x
    &&& outer.min.y <= inner.min.y
    &&& outer.min.z <= inner.min.z
    &&& inner.max.x <= outer.max.x
    &&& inner.max.y <= outer.max.y
    &&& inner.max.z <= outer.max.z
}

/// A union contains both of its arguments.
pub proof fn lemma_union_contains(a: AlighnedBox, b: AlighnedBox)
    ensures
        box_contains_spec(union_spec(a, b), a),
        box_contains_spec(union_spec(a, b), b),
{
}

/// The union of two real boxes is a real box.
pub proof fn lemma_union_proper(a: AlighnedBox, b: AlighnedBox)
    requires
        a.proper(),
        b.proper(),
    ensures
        union_spec(a, b).proper(),
{
}

/// Growing an accumulator that is still the default box, or already real, by
/// a real box keeps it real.
pub proof fn lemma_union_accumulate(acc: AlighnedBox, b: AlighnedBox)
    requires
        acc == default_box_spec() || acc.proper(),
        b.proper(),
    ensures
        union_spec(acc, b).proper(),
        union_spec(b, acc).proper(),
{
    if acc == default_box_spec() {
        lemma_union_default_absorbs(b);
    }
}

/// Widening a slab's planes widens its parameter interval.
proof fn lemma_slab_monotone(min1: int, max1: int, min2: int, max2: int, o: int, d: int)
    requires
        min2 <= min1 <= max1 <= max2,
    ensures
        slab_lo(min2, max2, o, d) <= slab_lo(min1, max1, o, d),
        slab_hi(min1, max1, o, d) <= slab_hi(min2, max2, o, d),
{
    if d != 0 {
        crate::fixed::lemma_fdiv_ordered(min1 - o, max1 - o, d);
        crate::fixed::lemma_fdiv_ordered(min2 - o, max2 - o, d);
        crate::fixed::lemma_fdiv_ordered(min2 - o, min1 - o, d);
        crate::fixed::lemma_fdiv_ordered(max1 - o, max2 - o, d);
    }
}

/// If one real box contains another and the ray's parameter line meets the
/// inner box, it meets the outer box: pruning by an enclosing box loses no
/// surface the inner box covers.
#[verifier::rlimit(100)]
pub proof fn lemma_overlap_monotone(inner: AlighnedBox, outer: AlighnedBox, r: Ray)
    requires
        inner.proper(),
        outer.proper(),
        box_contains_spec(outer, inner),
        r.wf(),
        box_overlap_spec(inner, r),
    ensures
        box_overlap_spec(outer, r),
{
    lemma_slab_monotone(
        inner.min.x as int,
        inner.max.x as int,
        outer.min.x as int,
        outer.max.x as int,
        r.origin.x as int,
        r.direction.x as int,
    );
    lemma_slab_monotone(
        inner.min.y as int,
        inner.max.y as int,
        outer.min.y as int,
        outer.max.y as int,
        r.origin.y as int,
        r.direction.y as int,
    );
    lemma_slab_monotone(
        inner.min.z as int,
        inner.max.z as int,
        outer.min.z as int,
        outer.max.z as int,
        r.origin.z as int,
        r.direction.z as int,
    );
    // The outer entry parameter stays above the lower sentinel: some axis
    // with a nonzero direction has finite slab ends, and a ray with no
    // direction at all cannot have met the inner box either.
    if r.direction.x != 0 {
        lemma_fdiv_bound(outer.min.x - r.origin.x, r.direction.x as int);
        lemma_fdiv_bound(outer.max.x - r.origin.x, r.direction.x as int);
    } else if r.direction.y != 0 {
        lemma_fdiv_bound(outer.min.y - r.origin.y, r.direction.y as int);
        lemma_fdiv_bound(outer.max.y - r.origin.y, r.direction.y as int);
    } else if r.direction.z != 0 {
        lemma_fdiv_bound(outer.min.z - r.origin.z, r.direction.z as int);
        lemma_fdiv_bound(outer.max.z - r.origin.z, r.direction.z as int);
    }
}

/// The fractional offset of a point within a real box stays bounded.
pub proof fn lemma_offset_bound(b: AlighnedBox, p: Point)
    requires
        b.proper(),
        ninf(pv(p)) <= BOX_MAX as int,
    ensures
        ninf(offset_spec(b, p)) <= 5_000_000_000_000,
{
    if b.max.x > b.min.x {
        lemma_fdiv_bound(p.x - b.min.x, b.max.x - b.min.x);
    }
    if b.max.y > b.min.y {
        lemma_fdiv_bound(p.y - b.min.y, b.max.y - b.min.y);
    }
    if b.max.z > b.min.z {
        lemma_fdiv_bound(p.z - b.min.z, b.max.z - b.min.z);
    }
}

/// Translating a box there and back restores it: fixed-point translation is
/// exact.
pub proof fn lemma_box_translation_round_trip(b: AlighnedBox, v: Vector)
    requires
        b.proper(),
        ninf(v) <= COORD_MAX as int,
    ensures
        ({
            let back_v = Vector { x: (-v.x) as i64, y: (-v.y) as i64, z: (-v.z) as i64 };
            let moved = AlighnedBox {
                min: apply_point_spec(transformation_matrix(Transformation::Translation(v)), b.min),
                max: apply_point_spec(transformation_matrix(Transformation::Translation(v)), b.max),
            };
            let back = AlighnedBox {
                min: apply_point_spec(
                    transformation_matrix(Transformation::Translation(back_v)),
                    moved.min,
                ),
                max: apply_point_spec(
                    transformation_matrix(Transformation::Translation(back_v)),
                    moved.max,
                ),
            };
            back == b
        }),
{
    let back_v = Vector { x: (-v.x) as i64, y: (-v.y) as i64, z: (-v.z) as i64 };
    crate::matrix::lemma_translation_apply_point(v, b.min);
    crate::matrix::lemma_translation_apply_point(v, b.max);
    let moved = AlighnedBox {
        min: apply_point_spec(transformation_matrix(Transformation::Translation(v)), b.min),
        max: apply_point_spec(transformation_matrix(Transformation::Translation(v)), b.max),
    };
    crate::matrix::lemma_translation_apply_point(back_v, moved.min);
    crate::matrix::lemma_translation_apply_point(back_v, moved.max);
}

/// Unioning with the default box changes nothing: the sentinels lose every
/// componentwise comparison against a real box.
pub proof fn lemma_union_default_absorbs(b: AlighnedBox)
    requires
        b.wf(),
    ensures
        union_spec(b, default_box_spec()) == b,
        union_spec(default_box_spec(), b) == b,
{
}

/// Box union is commutative.
pub proof fn lemma_union_commutative(a: AlighnedBox, b: AlighnedBox)
    ensures
        union_spec(a, b) == union_spec(b, a),
{
}

/// Box union is associative.
pub proof fn lemma_union_associative(a: AlighnedBox, b: AlighnedBox, c: AlighnedBox)
    ensures
        union_spec(union_spec(a, b), c) == union_spec(a, union_spec(b, c)),
{
}

} // verus!
