//! The camera: a position, a view frame, and accumulated rotation angles.
//!
//! Each axis keeps its angle together with the angle's sine and cosine; when a
//! rotation is added, the new sine and cosine come from the angle-addition
//! formulas, so no trigonometry is ever computed here.

use vstd::prelude::*;

use crate::fixed::SCALE;
use crate::fixed::clamp_spec;
use crate::fixed::fits_i64;
use crate::fixed::fmul;
use crate::fixed::lemma_abs_mul;
use crate::fixed::lemma_fmul_bound;
use crate::geometry::Angle;
use crate::geometry::Axis;
use crate::geometry::Transformation;
use crate::matrix::Matrix;
use crate::matrix::apply_point_spec;
use crate::matrix::apply_vec_spec;
use crate::matrix::lemma_apply_bound;
use crate::matrix::rotation_x_matrix;
use crate::matrix::rotation_y_matrix;
use crate::matrix::rotation_z_matrix;
use crate::matrix::transformation_matrix;
use crate::normal::Normal;
use crate::point::Point;
use crate::point::pv;
use crate::ray::Ray;
use crate::vector::COORD_MAX;
use crate::vector::Vector;
use crate::vector::ninf;
use crate::vector::normalize_spec;
use crate::viewframe::ViewFrame;
use crate::viewframe::point_on_pixel_spec;
use crate::viewframe::viewframe_transformed;

verus! {

pub struct Camera {
    pub position: Point,
    pub view_frame: ViewFrame,
    pub rot_x: Angle,
    pub rot_y: Angle,
    pub rot_z: Angle,
}

/// The ray generated for a pixel: from the camera position towards the
/// pixel's point on the view frame, rotated by the accumulated angles.
pub open spec fn ray_for_pixel_spec(c: Camera, x: int, y: int, iw: int, ih: int) -> Ray {
    Ray {
        origin: c.position,
        direction: rotate_ray_spec(
            c,
            crate::vector::vsub(
                pv(point_on_pixel_spec(c.view_frame, x, y, iw, ih)),
                pv(c.position),
            ),
        ),
    }
}

/// The direction of a generated ray: the offset rotated about X, then Y, then
/// Z, renormalized.
pub open spec fn rotate_ray_spec(c: Camera, direction: Vector) -> Normal {
    normalize_spec(
        apply_vec_spec(
            rotation_z_matrix(c.rot_z),
            apply_vec_spec(
                rotation_y_matrix(c.rot_y),
                apply_vec_spec(rotation_x_matrix(c.rot_x), direction),
            ),
        ),
    )
}

/// An accumulated angle after adding `d`: degrees add up, sine and cosine
/// follow the angle-addition formulas, clamped back into one unit against
/// rounding drift.
pub open spec fn angle_sum_spec(a: Angle, d: Angle) -> Angle {
    Angle {
        degrees: (a.degrees + d.degrees) as i64,
        sin: clamp_spec(
            fmul(a.sin as int, d.cos as int) + fmul(a.cos as int, d.sin as int),
            -SCALE as int,
            SCALE as int,
        ) as i64,
        cos: clamp_spec(
            fmul(a.cos as int, d.cos as int) - fmul(a.sin as int, d.sin as int),
            -SCALE as int,
            SCALE as int,
        ) as i64,
    }
}

/// The camera after a transformation: rotations accumulate on their axis;
/// anything else moves the position and the view frame.
pub open spec fn camera_transformed(c: Camera, t: Transformation) -> Camera {
    match t {
        Transformation::Rotation(axis, angle) => match axis {
            Axis::X => Camera { rot_x: angle_sum_spec(c.rot_x, angle), ..c },
            Axis::Y => Camera { rot_y: angle_sum_spec(c.rot_y, angle), ..c },
            Axis::Z => Camera { rot_z: angle_sum_spec(c.rot_z, angle), ..c },
        },
        _ => Camera {
            position: apply_point_spec(transformation_matrix(t), c.position),
            view_frame: viewframe_transformed(c.view_frame, t),
            ..c
        },
    }
}

impl Camera {
    pub open spec fn wf(self) -> bool {
        &&& self.position.wf()
        &&& self.view_frame.wf()
        &&& self.rot_x.wf()
        &&& self.rot_y.wf()
        &&& self.rot_z.wf()
    }

    pub fn new(position: Point, view_frame: ViewFrame) -> (r: Camera)
        ensures
            r.position == position,
            r.view_frame == view_frame,
            r.rot_x == zero_angle_spec() && r.rot_y == zero_angle_spec() && r.rot_z
                == zero_angle_spec(),
    {
        let zero: Angle = Angle::new(0, 0, SCALE);
        Camera { position, view_frame, rot_x: zero, rot_y: zero, rot_z: zero }
    }

    /// The accumulated rotation angles, in fixed-point degrees.
    pub fn rotation_vector(&self) -> (r: Vector)
        ensures
            r.x == self.rot_x.degrees,
            r.y == self.rot_y.degrees,
            r.z == self.rot_z.degrees,
    {
        Vector::new(self.rot_x.degrees, self.rot_y.degrees, self.rot_z.degrees)
    }

    /// The ray from the camera through the given pixel of the image.
    pub fn ray_for_pixel(&self, x: usize, y: usize, image_width: usize, image_height: usize) -> (r:
        Ray)
        requires
            self.wf(),
            0 < image_width <= 100_000_000,
            0 < image_height <= 100_000_000,
            x <= image_width,
            y <= image_height,
        ensures
            r == ray_for_pixel_spec(
                *self,
                x as int,
                y as int,
                image_width as int,
                image_height as int,
            ),
            r.wf(),
    {
        let point: Point = self.view_frame.point_on_pixel(x, y, image_width, image_height);
        let offset: Vector = point.to_vector().sub(self.position.to_vector());
        self.rotate_ray(self.position, offset)
    }

    /// Rotate a candidate direction by the accumulated camera angles; see
    /// [`rotate_ray_spec`].
    pub fn rotate_ray(&self, position: Point, direction: Vector) -> (r: Ray)
        requires
            self.wf(),
            ninf(pv(position)) <= crate::ray::ORIGIN_MAX as int,
            ninf(direction) <= 3 * COORD_MAX as int,
        ensures
            r.origin == position,
            r.direction == rotate_ray_spec(*self, direction),
            r.wf(),
    {
        let mx: Matrix = Matrix::rotation_x(self.rot_x);
        let my: Matrix = Matrix::rotation_y(self.rot_y);
        let mz: Matrix = Matrix::rotation_z(self.rot_z);
        proof {
            lemma_apply_bound(rotation_x_matrix(self.rot_x), direction, SCALE as int, 3 * (
            COORD_MAX as int));
        }
        let d1: Vector = mx.apply_vector(direction);
        proof {
            lemma_apply_bound(rotation_y_matrix(self.rot_y), d1, SCALE as int, 4 * (3 * (
            COORD_MAX as int)) + 4);
        }
        let d2: Vector = my.apply_vector(d1);
        proof {
            lemma_apply_bound(
                rotation_z_matrix(self.rot_z),
                d2,
                SCALE as int,
                4 * (4 * (3 * (COORD_MAX as int)) + 4) + 4,
            );
        }
        let d3: Vector = mz.apply_vector(d2);
        let dir: Normal = d3.normalize();
        Ray::new(position, dir)
    }

    /// Apply a transformation; see [`camera_transformed`].
    pub fn transform(&mut self, t: Transformation)
        requires
            old(self).wf(),
            t.wf(),
            transformation_matrix(t).bounded(COORD_MAX as int),
            fits_i64(old(self).rot_x.degrees + rotation_degrees_spec(t)),
            fits_i64(old(self).rot_y.degrees + rotation_degrees_spec(t)),
            fits_i64(old(self).rot_z.degrees + rotation_degrees_spec(t)),
            camera_transformed(*old(self), t).position.wf(),
            camera_transformed(*old(self), t).view_frame.wf(),
            t matches Transformation::Scale(v) ==> fits_i64(
                fmul(old(self).view_frame.width as int, v.x as int),
            ) && fits_i64(fmul(old(self).view_frame.height as int, v.y as int)),
        ensures
            *final(self) == camera_transformed(*old(self), t),
            final(self).wf(),
    {
        match t {
            Transformation::Rotation(axis, angle) => {
                match axis {
                    Axis::X => {
                        self.rot_x = add_angles(self.rot_x, angle);
                    },
                    Axis::Y => {
                        self.rot_y = add_angles(self.rot_y, angle);
                    },
                    Axis::Z => {
                        self.rot_z = add_angles(self.rot_z, angle);
                    },
                }
            },
            _ => {
                let matrix: Matrix = t.transformation_to_matrix();
                self.position = matrix.apply_point(self.position);
                self.view_frame.transform(t);
            },
        }
    }
}

pub open spec fn zero_angle_spec() -> Angle {
    Angle { degrees: 0, sin: 0, cos: SCALE }
}

/// The degree count a transformation adds to an axis (zero unless a rotation).
pub open spec fn rotation_degrees_spec(t: Transformation) -> int {
    match t {
        Transformation::Rotation(_, angle) => angle.degrees as int,
        _ => 0,
    }
}

/// Accumulate a rotation onto an axis angle; see [`angle_sum_spec`].
fn add_angles(a: Angle, d: Angle) -> (r: Angle)
    requires
        a.wf(),
        d.wf(),
        fits_i64(a.degrees + d.degrees),
    ensures
        r == angle_sum_spec(a, d),
        r.wf(),
{
    proof {
        lemma_abs_mul(a.sin as int, d.cos as int, SCALE as int, SCALE as int);
        lemma_abs_mul(a.cos as int, d.sin as int, SCALE as int, SCALE as int);
        lemma_abs_mul(a.cos as int, d.cos as int, SCALE as int, SCALE as int);
        lemma_abs_mul(a.sin as int, d.sin as int, SCALE as int, SCALE as int);
        lemma_fmul_bound(a.sin as int, d.cos as int, (SCALE as int) * (SCALE as int));
        lemma_fmul_bound(a.cos as int, d.sin as int, (SCALE as int) * (SCALE as int));
        lemma_fmul_bound(a.cos as int, d.cos as int, (SCALE as int) * (SCALE as int));
        lemma_fmul_bound(a.sin as int, d.sin as int, (SCALE as int) * (SCALE as int));
    }
    let sin: i64 = crate::fixed::clamp_fx(
        crate::fixed::mul_fx(a.sin, d.cos) + crate::fixed::mul_fx(a.cos, d.sin),
        -SCALE,
        SCALE,
    );
    let cos: i64 = crate::fixed::clamp_fx(
        crate::fixed::mul_fx(a.cos, d.cos) - crate::fixed::mul_fx(a.sin, d.sin),
        -SCALE,
        SCALE,
    );
    Angle::new(a.degrees + d.degrees, sin, cos)
}

} // verus!
