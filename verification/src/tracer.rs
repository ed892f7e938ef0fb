//! The shading pipeline: per-pixel camera rays, nearest-hit queries, Phong
//! lighting with shadow tests, and capped mirror recursion.

use vstd::prelude::*;

use crate::camera::Camera;
use crate::color::CHANNEL_MAX;
use crate::color::Color;
use crate::fixed::SCALE;
use crate::fixed::clamp_spec;
use crate::fixed::fmul;
use crate::fixed::iabs;
use crate::fixed::imax;
use crate::fixed::lemma_abs_mul;
use crate::fixed::lemma_blend_bound;
use crate::fixed::lemma_fmul_bound;
use crate::fixed::pow_fx_signed_spec;
use crate::geometry::Intersection;
use crate::geometry::Transformation;
use crate::light::INTENSITY_MAX;
use crate::light::Light;
use crate::material::Material;
use crate::matrix::transformation_matrix;
use crate::normal::Normal;
use crate::normal::nv;
use crate::normal::reflect_spec;
use crate::object::Object;
use crate::object::shape_intersect_spec;
use crate::point::Point;
use crate::point::pv;
use crate::ray::ORIGIN_MAX;
use crate::ray::RAY_EPSILON;
use crate::ray::Ray;
use crate::ray::at_spec;
use crate::scene::MAX_LIGHTS;
use crate::scene::Scene;
use crate::scene::Tracer;
use crate::scene::tracer_objects;
use crate::scene::tracer_trace_spec;
use crate::texture_loader::TextureLoader;
use crate::vector::COORD_MAX;
use crate::vector::Vector;
use crate::vector::dot_spec;
use crate::vector::lemma_dot_bound;
use crate::vector::ninf;
use crate::vector::normalize_spec;
use crate::camera::camera_transformed;
use crate::camera::rotation_degrees_spec;
use crate::fixed::fits_i64;

verus! {

/// How deep mirror reflections may recurse.
pub const MIRROR_RECURSION_LIMIT: u32 = 4;

/// Largest channel magnitude one light may contribute to a pixel.
pub const CONTRIBUTION_MAX: i64 = 2_000_000_000_000_000;

/// Largest channel magnitude a shaded pixel may reach before saturation.
pub const PIXEL_MAX: i64 = 2_000_000_000_000_000_000;

/// The color of a pixel no ray hit.
pub fn background_color() -> (c: Color)
    ensures
        c == background_spec(),
        c.r.val == 1800 && c.g.val == 3900 && c.b.val == 0,
{
    Color::new(1800, 3900, 0)
}

/// The Phong term of one light: diffuse by the incidence angle, specular by
/// the reflected direction's dot with the view direction raised to the
/// shininess power, sign and all. The specular base is clamped into one unit
/// against fixed-point drift before exponentiation.
pub open spec fn phong_color_spec(
    intensity: Color,
    light_dir: Normal,
    normal: Normal,
    ray_dir: Normal,
    material: Material,
) -> Color {
    let dk = imax(dot_spec(nv(normal), Vector { x: (-light_dir.x) as i64, y: (-light_dir.y) as i64, z: (-light_dir.z) as i64 }), 0);
    let reflection = reflect_spec(normal, light_dir);
    let sdot = dot_spec(nv(reflection), Vector { x: (-ray_dir.x) as i64, y: (-ray_dir.y) as i64, z: (-ray_dir.z) as i64 });
    let spow = pow_fx_signed_spec(
        clamp_spec(sdot, -SCALE as int, SCALE as int),
        material.shininess as nat,
    );
    Color {
        r: crate::bounded::Bounded {
            val: (fmul(fmul(intensity.r.val as int, dk), material.diffuse.r.val as int) + fmul(
                fmul(intensity.r.val as int, spow),
                material.specular.r.val as int,
            )) as i64,
        },
        g: crate::bounded::Bounded {
            val: (fmul(fmul(intensity.g.val as int, dk), material.diffuse.g.val as int) + fmul(
                fmul(intensity.g.val as int, spow),
                material.specular.g.val as int,
            )) as i64,
        },
        b: crate::bounded::Bounded {
            val: (fmul(fmul(intensity.b.val as int, dk), material.diffuse.b.val as int) + fmul(
                fmul(intensity.b.val as int, spow),
                material.specular.b.val as int,
            )) as i64,
        },
    }
}

/// What one light adds to a point's color: ambient lights contribute
/// unconditionally, point and directional lights contribute their Phong term
/// unless the point is shadowed towards them.
pub open spec fn light_contribution_spec(
    light: Light,
    point: Point,
    normal: Normal,
    material: Material,
    ray_dir: Normal,
    shadowed: bool,
) -> Color {
    match light {
        Light::Environment(c, k) => Color {
            r: crate::bounded::Bounded {
                val: fmul(fmul(c.r.val as int, k as int), material.ambient.r.val as int) as i64,
            },
            g: crate::bounded::Bounded {
                val: fmul(fmul(c.g.val as int, k as int), material.ambient.g.val as int) as i64,
            },
            b: crate::bounded::Bounded {
                val: fmul(fmul(c.b.val as int, k as int), material.ambient.b.val as int) as i64,
            },
        },
        Light::Point(p, c, k) => if shadowed {
            Color {
                r: crate::bounded::Bounded { val: 0 },
                g: crate::bounded::Bounded { val: 0 },
                b: crate::bounded::Bounded { val: 0 },
            }
        } else {
            phong_color_spec(
                Color {
                    r: crate::bounded::Bounded { val: fmul(c.r.val as int, k as int) as i64 },
                    g: crate::bounded::Bounded { val: fmul(c.g.val as int, k as int) as i64 },
                    b: crate::bounded::Bounded { val: fmul(c.b.val as int, k as int) as i64 },
                },
                normalize_spec(crate::vector::vsub(pv(point), pv(p))),
                normal,
                ray_dir,
                material,
            )
        },
        Light::Directed(d, c, k) => if shadowed {
            Color {
                r: crate::bounded::Bounded { val: 0 },
                g: crate::bounded::Bounded { val: 0 },
                b: crate::bounded::Bounded { val: 0 },
            }
        } else {
            phong_color_spec(
                Color {
                    r: crate::bounded::Bounded { val: fmul(c.r.val as int, k as int) as i64 },
                    g: crate::bounded::Bounded { val: fmul(c.g.val as int, k as int) as i64 },
                    b: crate::bounded::Bounded { val: fmul(c.b.val as int, k as int) as i64 },
                },
                d,
                normal,
                ray_dir,
                material,
            )
        },
    }
}

/// The ray cast to decide whether a point is shadowed towards a light: the
/// point nudged one epsilon step along the direction to the light.
pub open spec fn shadow_ray_spec(point: Point, dir_to_light: Normal) -> Ray {
    Ray {
        origin: at_spec(Ray { origin: point, direction: dir_to_light }, RAY_EPSILON as int),
        direction: dir_to_light,
    }
}

/// The background color, as a value.
pub open spec fn background_spec() -> Color {
    Color {
        r: crate::bounded::Bounded { val: 1800 },
        g: crate::bounded::Bounded { val: 3900 },
        b: crate::bounded::Bounded { val: 0 },
    }
}

/// Whether the point is shadowed towards the light: the scene's tracer finds
/// some hit along the epsilon-offset shadow ray. Ambient lights are never
/// occlusion-tested.
pub open spec fn light_shadowed_spec(t: Tracer, light: Light, point: Point) -> bool {
    match light {
        Light::Environment(_, _) => false,
        Light::Point(p, _, _) => tracer_trace_spec(
            t,
            shadow_ray_spec(point, normalize_spec(crate::vector::vsub(pv(p), pv(point)))),
        ) is Some,
        Light::Directed(d, _, _) => tracer_trace_spec(
            t,
            shadow_ray_spec(point, d.neg_spec()),
        ) is Some,
    }
}

/// The sum of the first `n` lights' contributions at a surface point, each
/// with the shadow outcome its shadow ray produces over the scene's tracer.
pub open spec fn shading_sum(
    t: Tracer,
    lights: Seq<Light>,
    point: Point,
    normal: Normal,
    material: Material,
    ray_dir: Normal,
    n: int,
) -> Color
    decreases n,
{
    if n <= 0 {
        Color {
            r: crate::bounded::Bounded { val: 0 },
            g: crate::bounded::Bounded { val: 0 },
            b: crate::bounded::Bounded { val: 0 },
        }
    } else {
        let prev = shading_sum(t, lights, point, normal, material, ray_dir, n - 1);
        let c = light_contribution_spec(
            lights[n - 1],
            point,
            normal,
            material,
            ray_dir,
            light_shadowed_spec(t, lights[n - 1], point),
        );
        Color {
            r: crate::bounded::Bounded { val: (prev.r.val + c.r.val) as i64 },
            g: crate::bounded::Bounded { val: (prev.g.val + c.g.val) as i64 },
            b: crate::bounded::Bounded { val: (prev.b.val + c.b.val) as i64 },
        }
    }
}

/// The mirror blend: the local color weighted by the complement of the
/// reflection factor plus the bounced color weighted by the factor.
pub open spec fn blend_spec(local: Color, bounced: Color, k: int) -> Color {
    Color {
        r: crate::bounded::Bounded {
            val: (fmul(local.r.val as int, SCALE - k) + fmul(bounced.r.val as int, k)) as i64,
        },
        g: crate::bounded::Bounded {
            val: (fmul(local.g.val as int, SCALE - k) + fmul(bounced.g.val as int, k)) as i64,
        },
        b: crate::bounded::Bounded {
            val: (fmul(local.b.val as int, SCALE - k) + fmul(bounced.b.val as int, k)) as i64,
        },
    }
}

/// The ray bounced off a surface: mirrored about the normal, its origin
/// nudged one epsilon step along the new direction.
pub open spec fn reflected_ray_spec(ray: Ray, p: Point, n: Normal) -> Ray {
    let dir = reflect_spec(n, ray.direction);
    Ray { origin: at_spec(Ray { origin: p, direction: dir }, RAY_EPSILON as int), direction: dir }
}

/// Whether a hit point lies within the range shadow and reflection rays are
/// specified for.
pub open spec fn in_shading_range(p: Point) -> bool {
    ninf(pv(p)) <= ORIGIN_MAX as int - 2
}

/// The color one traced ray produces: the background on a miss, otherwise the
/// Phong sum at the nearest recorded hit, blended with the mirrored recursion
/// for reflective objects up to the recursion limit. Hits whose shading
/// normal cannot be determined, or whose point leaves the shading range, fall
/// back to the background (degenerate states a well-formed scene never
/// produces).
pub open spec fn traced_color_spec(rt: RayTracer, ray: Ray, nonce: u32) -> Color
    decreases MIRROR_RECURSION_LIMIT - nonce,
{
    match tracer_trace_spec(rt.scene.objects, ray) {
        None => background_spec(),
        Some((index, inter)) => {
            let object = tracer_objects(rt.scene.objects)[index as int];
            let point = at_spec(ray, inter.distance_spec());
            match crate::object::shape_normal_spec(object.shape, point, inter) {
                None => background_spec(),
                Some(normal) => if !in_shading_range(point) {
                    background_spec()
                } else {
                    let material = rt.scene.materials@[object.material_id as int];
                    let local = shading_sum(
                        rt.scene.objects,
                        rt.scene.lights@,
                        point,
                        normal,
                        material,
                        ray.direction,
                        rt.scene.lights@.len() as int,
                    );
                    if object.reflection > 0 && nonce < MIRROR_RECURSION_LIMIT {
                        blend_spec(
                            local,
                            traced_color_spec(
                                rt,
                                reflected_ray_spec(ray, point, normal),
                                (nonce + 1) as u32,
                            ),
                            object.reflection as int,
                        )
                    } else {
                        local
                    }
                },
            }
        },
    }
}

pub struct RayTracer {
    pub scene: Scene,
    pub texture_loader: TextureLoader,
    pub camera: Camera,
    pub width: usize,
    pub height: usize,
}

impl RayTracer {
    pub open spec fn wf(self) -> bool {
        &&& self.scene.wf()
        &&& self.camera.wf()
        &&& 0 < self.width <= 10000
        &&& 0 < self.height <= 10000
    }

    pub fn new(scene: Scene, camera: Camera, width: usize, height: usize) -> (r: RayTracer)
        ensures
            r.scene == scene,
            r.camera == camera,
            r.width == width,
            r.height == height,
            r.texture_loader.textures@ == Map::<usize, u8>::empty(),
    {
        RayTracer { scene, texture_loader: TextureLoader::new(), camera, width, height }
    }

    /// Move or turn the camera; see [`camera_transformed`].
    pub fn transform_camera(&mut self, transformation: Transformation)
        requires
            old(self).camera.wf(),
            transformation.wf(),
            transformation_matrix(transformation).bounded(COORD_MAX as int),
            fits_i64(old(self).camera.rot_x.degrees + rotation_degrees_spec(transformation)),
            fits_i64(old(self).camera.rot_y.degrees + rotation_degrees_spec(transformation)),
            fits_i64(old(self).camera.rot_z.degrees + rotation_degrees_spec(transformation)),
            camera_transformed(old(self).camera, transformation).position.wf(),
            camera_transformed(old(self).camera, transformation).view_frame.wf(),
            transformation matches Transformation::Scale(v) ==> fits_i64(
                fmul(old(self).camera.view_frame.width as int, v.x as int),
            ) && fits_i64(fmul(old(self).camera.view_frame.height as int, v.y as int)),
        ensures
            final(self).camera == camera_transformed(old(self).camera, transformation),
            final(self).camera.wf(),
            final(self).scene == old(self).scene,
            final(self).width == old(self).width && final(self).height == old(self).height,
    {
        self.camera.transform(transformation)
    }

    /// The camera's accumulated rotation angles.
    pub fn rotation_vector(&self) -> (r: Vector)
        ensures
            r.x == self.camera.rot_x.degrees,
            r.y == self.camera.rot_y.degrees,
            r.z == self.camera.rot_z.degrees,
    {
        self.camera.rotation_vector()
    }

    /// Shade every pixel in row-major order: pixel `(x, y)` holds exactly the
    /// color of the camera ray through column `x` of pixel row `height - y`,
    /// rows from the top of the image.
    pub fn render(&self) -> (buff: Vec<Color>)
        requires
            self.wf(),
        ensures
            buff@.len() == self.width * self.height,
            forall|yy: int, xx: int|
                0 <= yy < self.height && 0 <= xx < self.width ==> #[trigger] buff@[yy * self.width
                    + xx] == traced_color_spec(
                    *self,
                    crate::camera::ray_for_pixel_spec(
                        self.camera,
                        xx,
                        self.height - yy,
                        self.width as int,
                        self.height as int,
                    ),
                    0,
                ),
            forall|k: int|
                0 <= k < buff@.len() ==> iabs((#[trigger] buff@[k]).r.val as int) <= PIXEL_MAX
                    + 8 && iabs(buff@[k].g.val as int) <= PIXEL_MAX + 8 && iabs(
                    buff@[k].b.val as int,
                ) <= PIXEL_MAX + 8,
    {
        let mut buff: Vec<Color> = Vec::new();
        let mut y: usize = 0;
        while y < self.height
            invariant
                self.wf(),
                0 <= y <= self.height,
                buff@.len() == y * self.width,
                forall|yy: int, xx: int|
                    0 <= yy < y && 0 <= xx < self.width ==> #[trigger] buff@[yy * self.width + xx]
                        == traced_color_spec(
                        *self,
                        crate::camera::ray_for_pixel_spec(
                            self.camera,
                            xx,
                            self.height - yy,
                            self.width as int,
                            self.height as int,
                        ),
                        0,
                    ),
                forall|k: int|
                    0 <= k < buff@.len() ==> iabs((#[trigger] buff@[k]).r.val as int) <= PIXEL_MAX
                        + 8 && iabs(buff@[k].g.val as int) <= PIXEL_MAX + 8 && iabs(
                        buff@[k].b.val as int,
                    ) <= PIXEL_MAX + 8,
            decreases self.height - y,
        {
            let mut x: usize = 0;
            while x < self.width
                invariant
                    self.wf(),
                    0 <= y < self.height,
                    0 <= x <= self.width,
                    buff@.len() == y * self.width + x,
                    forall|yy: int, xx: int|
                        0 <= yy < y && 0 <= xx < self.width ==> #[trigger] buff@[yy * self.width
                            + xx] == traced_color_spec(
                            *self,
                            crate::camera::ray_for_pixel_spec(
                                self.camera,
                                xx,
                                self.height - yy,
                                self.width as int,
                                self.height as int,
                            ),
                            0,
                        ),
                    forall|xx: int|
                        0 <= xx < x ==> #[trigger] buff@[y * self.width + xx] == traced_color_spec(
                            *self,
                            crate::camera::ray_for_pixel_spec(
                                self.camera,
                                xx,
                                self.height - y,
                                self.width as int,
                                self.height as int,
                            ),
                            0,
                        ),
                    forall|k: int|
                        0 <= k < buff@.len() ==> iabs((#[trigger] buff@[k]).r.val as int)
                            <= PIXEL_MAX + 8 && iabs(buff@[k].g.val as int) <= PIXEL_MAX + 8
                            && iabs(buff@[k].b.val as int) <= PIXEL_MAX + 8,
                decreases self.width - x,
            {
                let ray: Ray = self.camera.ray_for_pixel(x, self.height - y, self.width, self.height);
                let color: Color = self.get_color_for_ray(&ray, 0);
                buff.push(color);
                proof {
                    lemma_row_indices(self.width as int, y as int, x as int);
                    assert forall|yy: int, xx: int|
                        0 <= yy < y && 0 <= xx < self.width implies #[trigger] buff@[yy * self.width
                        + xx] == traced_color_spec(
                        *self,
                        crate::camera::ray_for_pixel_spec(
                            self.camera,
                            xx,
                            self.height - yy,
                            self.width as int,
                            self.height as int,
                        ),
                        0,
                    ) by {
                        lemma_row_indices(self.width as int, yy, xx);
                        assert((yy + 1) * self.width <= y * self.width) by (nonlinear_arith)
                            requires
                                yy + 1 <= y,
                                0 < self.width,
                        ;
                    }
                }
                x += 1;
            }
            proof {
                lemma_render_counts(self.width as int, y as int);
                assert forall|yy: int, xx: int|
                    0 <= yy < y + 1 && 0 <= xx < self.width implies #[trigger] buff@[yy * self.width
                    + xx] == traced_color_spec(
                    *self,
                    crate::camera::ray_for_pixel_spec(
                        self.camera,
                        xx,
                        self.height - yy,
                        self.width as int,
                        self.height as int,
                    ),
                    0,
                ) by {
                    lemma_row_indices(self.width as int, yy, xx);
                    lemma_row_indices(self.width as int, y as int, xx);
                }
            }
            y += 1;
        }
        proof {
            assert((self.height as int) * (self.width as int) == (self.width as int) * (
            self.height as int)) by (nonlinear_arith);
            assert forall|yy: int, xx: int|
                0 <= yy < self.height && 0 <= xx < self.width implies 0 <= #[trigger] (yy
                    * self.width + xx) < buff@.len() by {
                lemma_row_indices(self.width as int, yy, xx);
                assert((yy + 1) * self.width <= (self.height as int) * self.width)
                    by (nonlinear_arith)
                    requires
                        yy + 1 <= self.height as int,
                        0 < self.width,
                ;
            }
        }
        buff
    }

    /// Trace one ray and shade its nearest hit; misses take the background
    /// color, and so do hits whose shading normal cannot be determined or
    /// whose hit point leaves the range shadow rays are specified for, both
    /// degenerate states that cannot arise from a well-formed scene.
    pub fn get_color_for_ray(&self, ray: &Ray, nonce: u32) -> (c: Color)
        requires
            self.scene.wf(),
            ray.wf(),
            nonce <= MIRROR_RECURSION_LIMIT,
        ensures
            c == traced_color_spec(*self, *ray, nonce),
            iabs(c.r.val as int) <= PIXEL_MAX as int + 2 * (MIRROR_RECURSION_LIMIT - nonce),
            iabs(c.g.val as int) <= PIXEL_MAX as int + 2 * (MIRROR_RECURSION_LIMIT - nonce),
            iabs(c.b.val as int) <= PIXEL_MAX as int + 2 * (MIRROR_RECURSION_LIMIT - nonce),
        decreases MIRROR_RECURSION_LIMIT - nonce,
    {
        let traced: Option<(usize, Intersection)> = self.scene.objects().trace(ray);
        let (index, intersection): (usize, Intersection) = match traced {
            Some(hit) => hit,
            None => {
                return background_color();
            },
        };
        let object: &Object = self.scene.objects().object_by_index(index);
        proof {
            assert(tracer_objects(self.scene.objects)[index as int].wf());
            crate::object::lemma_shape_hit_in_range(object.shape, *ray);
        }
        let distance: i64 = intersection.distance();
        let intersection_point: Point = ray.at(distance);
        let normal: Normal = match object.normal_at_point(&intersection_point, intersection) {
            Some(n) => n,
            None => {
                return background_color();
            },
        };
        proof {
            assert(tracer_objects(self.scene.objects)[index as int].material_id
                < self.scene.materials@.len());
            assert(self.scene.materials@[object.material_id as int].wf());
        }
        let material: Material = *self.scene.materials(object.material_id);
        let in_world: bool = -(ORIGIN_MAX - 2) <= intersection_point.x && intersection_point.x
            <= ORIGIN_MAX - 2 && -(ORIGIN_MAX - 2) <= intersection_point.y && intersection_point.y
            <= ORIGIN_MAX - 2 && -(ORIGIN_MAX - 2) <= intersection_point.z && intersection_point.z
            <= ORIGIN_MAX - 2;
        if !in_world {
            return background_color();
        }
        let local: Color = self.get_color(intersection_point, normal, &material, ray);
        if object.reflection > 0 && nonce < MIRROR_RECURSION_LIMIT {
            let reflected: Ray = ray.reflect_from_normal(intersection_point, normal);
            proof {
                assert(reflected == reflected_ray_spec(*ray, intersection_point, normal));
            }
            let bounced: Color = self.get_color_for_ray(&reflected, nonce + 1);
            proof {
                let m = PIXEL_MAX as int + 2 * (MIRROR_RECURSION_LIMIT - nonce - 1);
                lemma_blend_bound(local.r.val as int, bounced.r.val as int, object.reflection as int, m);
                lemma_blend_bound(local.g.val as int, bounced.g.val as int, object.reflection as int, m);
                lemma_blend_bound(local.b.val as int, bounced.b.val as int, object.reflection as int, m);
            }
            let blended: Color = local.scaled(SCALE - object.reflection).add(
                bounced.scaled(object.reflection),
            );
            proof {
                assert(blended == blend_spec(local, bounced, object.reflection as int));
            }
            blended
        } else {
            local
        }
    }

    /// Sum the contributions of every light at a surface point; each light's
    /// term is exactly [`light_contribution_spec`] for the shadow outcome its
    /// shadow ray produced.
    #[verifier::rlimit(100)]
    pub fn get_color(&self, intersection_point: Point, normal: Normal, material: &Material, ray:
        &Ray) -> (c: Color)
        requires
            self.scene.wf(),
            normal.wf(),
            material.wf(),
            ray.direction.wf(),
            ninf(pv(intersection_point)) <= ORIGIN_MAX as int - 2,
        ensures
            c == shading_sum(
                self.scene.objects,
                self.scene.lights@,
                intersection_point,
                normal,
                *material,
                ray.direction,
                self.scene.lights@.len() as int,
            ),
            iabs(c.r.val as int) <= PIXEL_MAX as int,
            iabs(c.g.val as int) <= PIXEL_MAX as int,
            iabs(c.b.val as int) <= PIXEL_MAX as int,
    {
        let mut acc: Color = Color::black();
        let mut i: usize = 0;
        let count: usize = self.scene.lights.len();
        while i < count
            invariant
                self.scene.wf(),
                normal.wf(),
                material.wf(),
                ray.direction.wf(),
                ninf(pv(intersection_point)) <= ORIGIN_MAX as int - 2,
                0 <= i <= count,
                count == self.scene.lights@.len() <= MAX_LIGHTS,
                acc == shading_sum(
                    self.scene.objects,
                    self.scene.lights@,
                    intersection_point,
                    normal,
                    *material,
                    ray.direction,
                    i as int,
                ),
                iabs(acc.r.val as int) <= i * CONTRIBUTION_MAX as int,
                iabs(acc.g.val as int) <= i * CONTRIBUTION_MAX as int,
                iabs(acc.b.val as int) <= i * CONTRIBUTION_MAX as int,
            decreases count - i,
        {
            proof {
                assert(self.scene.lights@[i as int].wf());
            }
            let light: Light = *light_at(&self.scene.lights, i);
            let shadowed: bool = match light {
                Light::Environment(_, _) => false,
                Light::Point(p, _, _) => {
                    let dir: Normal = p.to_vector().sub(
                        intersection_point.to_vector(),
                    ).normalize();
                    self.is_shadowed(intersection_point, dir)
                },
                Light::Directed(d, _, _) => self.is_shadowed(intersection_point, d.neg()),
            };
            proof {
                assert(shadowed == light_shadowed_spec(
                    self.scene.objects,
                    self.scene.lights@[i as int],
                    intersection_point,
                ));
            }
            let contribution: Color = light_contribution(
                &light,
                intersection_point,
                normal,
                material,
                ray,
                shadowed,
            );
            proof {
                assert((i + 1) * CONTRIBUTION_MAX as int == i * CONTRIBUTION_MAX as int
                    + CONTRIBUTION_MAX as int) by (nonlinear_arith);
                assert(MAX_LIGHTS * CONTRIBUTION_MAX as int <= PIXEL_MAX as int);
                crate::vector::lemma_prod_le(
                    i + 1,
                    CONTRIBUTION_MAX as int,
                    MAX_LIGHTS as int,
                    CONTRIBUTION_MAX as int,
                );
            }
            acc = acc.add(contribution);
            i += 1;
        }
        proof {
            crate::vector::lemma_prod_le(
                i as int,
                CONTRIBUTION_MAX as int,
                MAX_LIGHTS as int,
                CONTRIBUTION_MAX as int,
            );
        }
        acc
    }

    /// Whether anything blocks the path from the point towards the light: the
    /// shadow ray starts one epsilon step out and any hit the scene's tracer
    /// records shadows the point. Over the linear tracer that means exactly:
    /// some object intersects the shadow ray.
    pub fn is_shadowed(&self, intersection_point: Point, dir_to_light: Normal) -> (r: bool)
        requires
            self.scene.wf(),
            dir_to_light.wf(),
            ninf(pv(intersection_point)) <= ORIGIN_MAX as int - 2,
        ensures
            r <==> tracer_trace_spec(
                self.scene.objects,
                shadow_ray_spec(intersection_point, dir_to_light),
            ) is Some,
            self.scene.objects matches Tracer::Linear(_) ==> (r <==> exists|j: int|
                0 <= j < tracer_objects(self.scene.objects).len() && (#[trigger] shape_intersect_spec(
                    tracer_objects(self.scene.objects)[j].shape,
                    shadow_ray_spec(intersection_point, dir_to_light),
                )) is Some),
    {
        let ray: Ray = Ray::new(intersection_point, dir_to_light);
        let ray: Ray = Ray::new(ray.at(RAY_EPSILON), dir_to_light);
        let result: Option<(usize, Intersection)> = self.scene.objects().trace(&ray);
        proof {
            assert(ray == shadow_ray_spec(intersection_point, dir_to_light));
        }
        result.is_some()
    }
}

/// One light's contribution; see [`light_contribution_spec`].
pub fn light_contribution(
    light: &Light,
    point: Point,
    normal: Normal,
    material: &Material,
    ray: &Ray,
    shadowed: bool,
) -> (c: Color)
    requires
        light.wf(),
        normal.wf(),
        material.wf(),
        ray.direction.wf(),
        ninf(pv(point)) <= ORIGIN_MAX as int,
    ensures
        c == light_contribution_spec(*light, point, normal, *material, ray.direction, shadowed),
        iabs(c.r.val as int) <= CONTRIBUTION_MAX as int,
        iabs(c.g.val as int) <= CONTRIBUTION_MAX as int,
        iabs(c.b.val as int) <= CONTRIBUTION_MAX as int,
{
    match light {
        Light::Environment(color, k) => {
            proof {
                lemma_intensity_bounds(*color, *k as int, *material);
            }
            color.scaled(*k).mul(material.ambient)
        },
        Light::Point(p, color, k) => {
            if shadowed {
                Color::black()
            } else {
                proof {
                    lemma_intensity_bounds(*color, *k as int, *material);
                }
                let light_dir: Normal = point.to_vector().sub(p.to_vector()).normalize();
                phong_color(color.scaled(*k), light_dir, normal, ray, material)
            }
        },
        Light::Directed(d, color, k) => {
            if shadowed {
                Color::black()
            } else {
                proof {
                    lemma_intensity_bounds(*color, *k as int, *material);
                }
                phong_color(color.scaled(*k), *d, normal, ray, material)
            }
        },
    }
}

/// The Phong term; see [`phong_color_spec`].
pub fn phong_color(
    intensity: Color,
    light_dir: Normal,
    normal: Normal,
    ray: &Ray,
    material: &Material,
) -> (c: Color)
    requires
        iabs(intensity.r.val as int) <= 20_000_000_000,
        iabs(intensity.g.val as int) <= 20_000_000_000,
        iabs(intensity.b.val as int) <= 20_000_000_000,
        light_dir.wf(),
        normal.wf(),
        ray.direction.wf(),
        material.wf(),
    ensures
        c == phong_color_spec(intensity, light_dir, normal, ray.direction, *material),
        iabs(c.r.val as int) <= CONTRIBUTION_MAX as int,
        iabs(c.g.val as int) <= CONTRIBUTION_MAX as int,
        iabs(c.b.val as int) <= CONTRIBUTION_MAX as int,
{
    proof {
        lemma_dot_bound(nv(normal), nv(light_dir.neg_spec()), SCALE as int, SCALE as int);
        lemma_dot_bound(
            nv(reflect_spec(normal, light_dir)),
            nv(ray.direction.neg_spec()),
            SCALE as int,
            SCALE as int,
        );
    }
    let minus_light: Normal = light_dir.neg();
    let d: i64 = normal.dot(minus_light);
    let dk: i64 = crate::fixed::max_fx(d, 0);
    let reflection_light: Normal = Normal::reflect(normal, light_dir);
    let minus_ray: Normal = ray.direction.neg();
    let sdot: i64 = reflection_light.dot(minus_ray);
    let clamped: i64 = crate::fixed::clamp_fx(sdot, -SCALE, SCALE);
    let magnitude: i64 = crate::fixed::pow_fx(
        if clamped < 0 {
            -clamped
        } else {
            clamped
        },
        material.shininess,
    );
    let spow: i64 = if clamped < 0 && material.shininess % 2 == 1 {
        -magnitude
    } else {
        magnitude
    };
    proof {
        lemma_phong_term_bounds(
            intensity.r.val as int,
            dk as int,
            spow as int,
            material.diffuse.r.val as int,
            material.specular.r.val as int,
        );
        lemma_phong_term_bounds(
            intensity.g.val as int,
            dk as int,
            spow as int,
            material.diffuse.g.val as int,
            material.specular.g.val as int,
        );
        lemma_phong_term_bounds(
            intensity.b.val as int,
            dk as int,
            spow as int,
            material.diffuse.b.val as int,
            material.specular.b.val as int,
        );
    }
    let diffuse: Color = intensity.scaled(dk).mul(material.diffuse);
    let specular: Color = intensity.scaled(spow).mul(material.specular);
    diffuse.add(specular)
}

/// Read one light out of the list.
fn light_at(lights: &Vec<Light>, i: usize) -> (r: &Light)
    requires
        i < lights@.len(),
    ensures
        *r == lights@[i as int],
{
    &lights[i]
}

/// Bounds for the products of one Phong term: `ch` is one intensity channel,
/// `dch` and `sch` are the material's diffuse and specular channels.
proof fn lemma_phong_term_bounds(ch: int, dk: int, spow: int, dch: int, sch: int)
    requires
        iabs(ch) <= 20_000_000_000,
        0 <= dk <= 3 * (SCALE as int) + 3,
        iabs(spow) <= SCALE as int,
        iabs(dch) <= CHANNEL_MAX as int,
        iabs(sch) <= CHANNEL_MAX as int,
    ensures
        iabs(fmul(ch, dk)) <= 90_000_000_000,
        iabs(fmul(ch, spow)) <= 30_000_000_000,
        iabs(fmul(fmul(ch, dk), dch)) <= 910_000_000_000_000,
        iabs(fmul(fmul(ch, spow), sch)) <= 310_000_000_000_000,
        iabs(fmul(fmul(ch, dk), dch) + fmul(fmul(ch, spow), sch)) <= CONTRIBUTION_MAX as int,
{
    lemma_abs_mul(ch, dk, 20_000_000_000, 4 * (SCALE as int));
    lemma_fmul_bound(ch, dk, 20_000_000_000 * 4 * (SCALE as int));
    lemma_abs_mul(ch, spow, 20_000_000_000, SCALE as int);
    lemma_fmul_bound(ch, spow, 20_000_000_000 * (SCALE as int));
    lemma_abs_mul(fmul(ch, dk), dch, 90_000_000_000, CHANNEL_MAX as int);
    lemma_fmul_bound(fmul(ch, dk), dch, 90_000_000_000 * (CHANNEL_MAX as int));
    lemma_abs_mul(fmul(ch, spow), sch, 30_000_000_000, CHANNEL_MAX as int);
    lemma_fmul_bound(fmul(ch, spow), sch, 30_000_000_000 * (CHANNEL_MAX as int));
}

/// Bounds for a light color scaled by its intensity factor.
proof fn lemma_intensity_bounds(color: Color, k: int, material: Material)
    requires
        color.wf(),
        0 <= k <= INTENSITY_MAX as int,
        material.wf(),
    ensures
        iabs(fmul(color.r.val as int, k)) <= 20_000_000_000,
        iabs(fmul(color.g.val as int, k)) <= 20_000_000_000,
        iabs(fmul(color.b.val as int, k)) <= 20_000_000_000,
        iabs(fmul(fmul(color.r.val as int, k), material.ambient.r.val as int))
            <= CONTRIBUTION_MAX as int,
        iabs(fmul(fmul(color.g.val as int, k), material.ambient.g.val as int))
            <= CONTRIBUTION_MAX as int,
        iabs(fmul(fmul(color.b.val as int, k), material.ambient.b.val as int))
            <= CONTRIBUTION_MAX as int,
{
    lemma_abs_mul(color.r.val as int, k, CHANNEL_MAX as int, INTENSITY_MAX as int);
    lemma_abs_mul(color.g.val as int, k, CHANNEL_MAX as int, INTENSITY_MAX as int);
    lemma_abs_mul(color.b.val as int, k, CHANNEL_MAX as int, INTENSITY_MAX as int);
    lemma_fmul_bound(color.r.val as int, k, (CHANNEL_MAX as int) * (INTENSITY_MAX as int));
    lemma_fmul_bound(color.g.val as int, k, (CHANNEL_MAX as int) * (INTENSITY_MAX as int));
    lemma_fmul_bound(color.b.val as int, k, (CHANNEL_MAX as int) * (INTENSITY_MAX as int));
    lemma_abs_mul(
        fmul(color.r.val as int, k),
        material.ambient.r.val as int,
        20_000_000_000,
        CHANNEL_MAX as int,
    );
    lemma_abs_mul(
        fmul(color.g.val as int, k),
        material.ambient.g.val as int,
        20_000_000_000,
        CHANNEL_MAX as int,
    );
    lemma_abs_mul(
        fmul(color.b.val as int, k),
        material.ambient.b.val as int,
        20_000_000_000,
        CHANNEL_MAX as int,
    );
    lemma_fmul_bound(
        fmul(color.r.val as int, k),
        material.ambient.r.val as int,
        20_000_000_000 * (CHANNEL_MAX as int),
    );
    lemma_fmul_bound(
        fmul(color.g.val as int, k),
        material.ambient.g.val as int,
        20_000_000_000 * (CHANNEL_MAX as int),
    );
    lemma_fmul_bound(
        fmul(color.b.val as int, k),
        material.ambient.b.val as int,
        20_000_000_000 * (CHANNEL_MAX as int),
    );
}

/// Pixel counting for the render loops.
proof fn lemma_render_counts(width: int, y: int)
    ensures
        (y + 1) * width == y * width + width,
{
    assert((y + 1) * width == y * width + width) by (nonlinear_arith);
}

/// Row-major indexing: positions within one row stay within the row.
proof fn lemma_row_indices(width: int, y: int, x: int)
    requires
        0 <= y,
        0 <= x < width,
    ensures
        0 <= y * width + x < (y + 1) * width,
        forall|y2: int, x2: int|
            0 <= y2 && 0 <= x2 < width && #[trigger] (y2 * width + x2) == y * width + x ==> y2 == y
                && x2 == x,
{
    assert(0 <= y * width + x < (y + 1) * width) by (nonlinear_arith)
        requires
            0 <= y,
            0 <= x < width,
    ;
    assert forall|y2: int, x2: int|
        0 <= y2 && 0 <= x2 < width && #[trigger] (y2 * width + x2) == y * width + x implies y2 == y
        && x2 == x by {
        assert(y2 == y && x2 == x) by (nonlinear_arith)
            requires
                0 <= y,
                0 <= x < width,
                0 <= y2,
                0 <= x2 < width,
                y2 * width + x2 == y * width + x,
        ;
    }
}

} // verus!
