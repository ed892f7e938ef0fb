//! The camera's rectangular view frame in world space.

use vstd::prelude::*;

use crate::fixed::fmul;
use crate::fixed::fits_i64;
use crate::geometry::Transformation;
use crate::matrix::Matrix;
use crate::matrix::apply_point_spec;
use crate::matrix::transformation_matrix;
use crate::point::Point;
use crate::point::pv;
use crate::vector::COORD_MAX;
use crate::vector::ninf;

verus! {

pub struct ViewFrame {
    pub origin: Point,
    pub width: i64,
    pub height: i64,
}

/// The world point behind pixel `(x, y)` of an image `iw` by `ih` pixels:
/// offsets of whole per-pixel steps from the frame's lower-left corner.
pub open spec fn point_on_pixel_spec(f: ViewFrame, x: int, y: int, iw: int, ih: int) -> Point {
    let x_factor = f.width as int / iw;
    let y_factor = f.height as int / ih;
    Point {
        x: (f.origin.x - f.width as int / 2 + x * x_factor) as i64,
        y: (f.origin.y - f.height as int / 2 + y * y_factor) as i64,
        z: f.origin.z,
    }
}

/// The frame after a transformation: the origin moves through the matrix; a
/// scaling also stretches the extents.
pub open spec fn viewframe_transformed(f: ViewFrame, t: Transformation) -> ViewFrame {
    let origin = apply_point_spec(transformation_matrix(t), f.origin);
    match t {
        Transformation::Scale(v) => ViewFrame {
            origin,
            width: fmul(f.width as int, v.x as int) as i64,
            height: fmul(f.height as int, v.y as int) as i64,
        },
        _ => ViewFrame { origin, width: f.width, height: f.height },
    }
}

impl ViewFrame {
    pub open spec fn wf(self) -> bool {
        &&& self.origin.wf()
        &&& 0 <= self.width <= COORD_MAX
        &&& 0 <= self.height <= COORD_MAX
    }

    pub fn new(origin: Point, width: i64, height: i64) -> (r: ViewFrame)
        ensures
            r == (ViewFrame { origin, width, height }),
    {
        ViewFrame { origin, width, height }
    }

    /// See [`point_on_pixel_spec`]; the result stays within twice the world
    /// range around the frame.
    pub fn point_on_pixel(&self, x: usize, y: usize, image_width: usize, image_height: usize) -> (r:
        Point)
        requires
            self.wf(),
            0 < image_width <= 100_000_000,
            0 < image_height <= 100_000_000,
            x <= image_width,
            y <= image_height,
        ensures
            r == point_on_pixel_spec(*self, x as int, y as int, image_width as int,
            image_height as int),
            ninf(pv(r)) <= 2 * COORD_MAX as int,
    {
        proof {
            lemma_pixel_offset(self.width as int, x as int, image_width as int);
            lemma_pixel_offset(self.height as int, y as int, image_height as int);
        }
        let x_factor: i64 = self.width / (image_width as i64);
        let y_factor: i64 = self.height / (image_height as i64);
        let x_offset: i64 = (x as i64) * x_factor;
        let y_offset: i64 = (y as i64) * y_factor;
        Point::new(
            self.origin.x - self.width / 2 + x_offset,
            self.origin.y - self.height / 2 + y_offset,
            self.origin.z,
        )
    }

    /// Transform the frame; see [`viewframe_transformed`].
    pub fn transform(&mut self, t: Transformation)
        requires
            old(self).wf(),
            t.wf(),
            transformation_matrix(t).bounded(COORD_MAX as int),
            viewframe_transformed(*old(self), t).wf(),
            t matches Transformation::Scale(v) ==> fits_i64(
                fmul(old(self).width as int, v.x as int),
            ) && fits_i64(fmul(old(self).height as int, v.y as int)),
        ensures
            *final(self) == viewframe_transformed(*old(self), t),
            final(self).wf(),
    {
        let matrix: Matrix = t.transformation_to_matrix();
        self.origin = matrix.apply_point(self.origin);
        if let Transformation::Scale(scale) = t {
            self.width = crate::fixed::mul_fx(self.width, scale.x);
            self.height = crate::fixed::mul_fx(self.height, scale.y);
        }
    }
}

/// A whole number of per-pixel steps never leaves the frame's extent.
proof fn lemma_pixel_offset(extent: int, p: int, image: int)
    requires
        0 <= extent <= COORD_MAX as int,
        0 < image,
        0 <= p <= image,
    ensures
        0 <= extent / image,
        0 <= p * (extent / image) <= extent,
        0 <= extent / 2 <= extent,
{
    let f = extent / image;
    vstd::arithmetic::div_mod::lemma_div_pos_is_pos(extent, image);
    vstd::arithmetic::div_mod::lemma_fundamental_div_mod(extent, image);
    vstd::arithmetic::div_mod::lemma_mod_bound(extent, image);
    vstd::arithmetic::mul::lemma_mul_nonnegative(p, f);
    assert(p * f <= extent) by (nonlinear_arith)
        requires
            extent == image * f + extent % image,
            0 <= extent % image,
            0 <= p <= image,
            0 <= f,
    ;
    vstd::arithmetic::div_mod::lemma_div_pos_is_pos(extent, 2);
    vstd::arithmetic::div_mod::lemma_fundamental_div_mod(extent, 2);
    vstd::arithmetic::div_mod::lemma_mod_bound(extent, 2);
}

} // verus!
