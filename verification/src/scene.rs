//! The scene: a tracer over its objects, the material table and the lights.
//!
//! `LinearTracer` scans every object and carries the full nearest-hit
//! contract; the BVH tracer returns the same kind of sound hit through its
//! tree (see `bvh`).

use vstd::prelude::*;

use crate::bvh::BVHTree;
use crate::geometry::Intersection;
use crate::light::Light;
use crate::material::Material;
use crate::object::Object;
use crate::object::shape_intersect_spec;
use crate::ray::Ray;

verus! {

/// Largest number of lights the shading arithmetic is specified for.
pub const MAX_LIGHTS: usize = 1000;

pub open spec fn all_objects_wf(objects: Seq<Object>) -> bool {
    forall|i: int| 0 <= i < objects.len() ==> #[trigger] objects[i].wf()
}

/// The hit `trace` reports is a real hit of the reported object.
pub open spec fn hit_sound(objects: Seq<Object>, r: Ray, res: Option<(usize, Intersection)>) -> bool {
    res matches Some((i, inter)) ==> 0 <= i < objects.len() && shape_intersect_spec(
        objects[i as int].shape,
        r,
    ) == Some(inter)
}

/// The hit is the nearest one: no object hits strictly closer, and every
/// earlier object hits strictly farther or not at all.
pub open spec fn hit_nearest(objects: Seq<Object>, r: Ray, res: Option<(usize, Intersection)>) -> bool {
    match res {
        None => forall|j: int|
            0 <= j < objects.len() ==> #[trigger] shape_intersect_spec(objects[j].shape, r)
                is None,
        Some((i, inter)) => (forall|j: int|
            0 <= j < objects.len() ==> match #[trigger] shape_intersect_spec(
                objects[j].shape,
                r,
            ) {
                Some(x) => x.distance_spec() >= inter.distance_spec(),
                None => true,
            }) && (forall|j: int|
            0 <= j < i ==> match #[trigger] shape_intersect_spec(objects[j].shape, r) {
                Some(x) => x.distance_spec() > inter.distance_spec(),
                None => true,
            }),
    }
}

/// The nearest hit over the first `n` objects, scanned in order with strict
/// improvement, so ties keep the earliest object.
pub open spec fn linear_trace_prefix(objects: Seq<Object>, r: Ray, n: int) -> Option<
    (usize, Intersection),
>
    decreases n,
{
    if n <= 0 {
        None
    } else {
        let prev = linear_trace_prefix(objects, r, n - 1);
        match shape_intersect_spec(objects[n - 1].shape, r) {
            Some(inter) => match prev {
                None => Some(((n - 1) as usize, inter)),
                Some((bi, binter)) => if inter.distance_spec() < binter.distance_spec() {
                    Some(((n - 1) as usize, inter))
                } else {
                    Some((bi, binter))
                },
            },
            None => prev,
        }
    }
}

/// What the linear tracer returns: the nearest hit over all objects.
pub open spec fn linear_trace_spec(objects: Seq<Object>, r: Ray) -> Option<(usize, Intersection)> {
    linear_trace_prefix(objects, r, objects.len() as int)
}

/// A tracer that tests every object against the ray.
pub struct LinearTracer {
    pub objects: Vec<Object>,
}

impl LinearTracer {
    pub open spec fn wf(self) -> bool {
        all_objects_wf(self.objects@)
    }

    pub fn new(objects: Vec<Object>) -> (r: LinearTracer)
        ensures
            r.objects == objects,
    {
        LinearTracer { objects }
    }

    /// The nearest hit over all objects; ties go to the earliest object.
    pub fn trace(&self, ray: &Ray) -> (res: Option<(usize, Intersection)>)
        requires
            self.wf(),
            ray.wf(),
        ensures
            res == linear_trace_spec(self.objects@, *ray),
            hit_sound(self.objects@, *ray, res),
            hit_nearest(self.objects@, *ray, res),
    {
        let mut best: Option<(usize, Intersection)> = None;
        let mut i: usize = 0;
        while i < self.objects.len()
            invariant
                0 <= i <= self.objects@.len(),
                self.wf(),
                ray.wf(),
                best == linear_trace_prefix(self.objects@, *ray, i as int),
                hit_sound(self.objects@, *ray, best),
                match best {
                    None => forall|j: int|
                        0 <= j < i ==> #[trigger] shape_intersect_spec(self.objects@[j].shape, *ray)
                            is None,
                    Some((b, inter)) => b < i && (forall|j: int|
                        0 <= j < i ==> match #[trigger] shape_intersect_spec(
                            self.objects@[j].shape,
                            *ray,
                        ) {
                            Some(x) => x.distance_spec() >= inter.distance_spec(),
                            None => true,
                        }) && (forall|j: int|
                        0 <= j < b ==> match #[trigger] shape_intersect_spec(
                            self.objects@[j].shape,
                            *ray,
                        ) {
                            Some(x) => x.distance_spec() > inter.distance_spec(),
                            None => true,
                        }),
                },
            decreases self.objects@.len() - i,
        {
            let hit: Option<Intersection> = self.objects[i].intersect(ray);
            if let Some(inter) = hit {
                match best {
                    None => {
                        best = Some((i, inter));
                    },
                    Some((_, prev)) => {
                        if inter.distance() < prev.distance() {
                            best = Some((i, inter));
                        }
                    },
                }
            }
            i += 1;
        }
        best
    }

    pub fn object_by_index(&self, index: usize) -> (r: &Object)
        requires
            index < self.objects@.len(),
        ensures
            *r == self.objects@[index as int],
    {
        &self.objects[index]
    }
}

/// The scene's acceleration structure: a plain scan or the BVH.
pub enum Tracer {
    Linear(LinearTracer),
    Bvh(BVHTree),
}

pub open spec fn tracer_objects(t: Tracer) -> Seq<Object> {
    match t {
        Tracer::Linear(l) => l.objects@,
        Tracer::Bvh(b) => b.data@,
    }
}

/// What either tracer returns for a ray: the linear scan's nearest hit, or
/// the tree traversal's best recorded hit.
pub open spec fn tracer_trace_spec(t: Tracer, r: Ray) -> Option<(usize, Intersection)> {
    match t {
        Tracer::Linear(l) => linear_trace_spec(l.objects@, r),
        Tracer::Bvh(b) => crate::bvh::bvh_trace_spec(b, r),
    }
}

impl Tracer {
    pub open spec fn wf(self) -> bool {
        match self {
            Tracer::Linear(l) => l.wf(),
            Tracer::Bvh(b) => b.wf(),
        }
    }

    /// Exactly [`tracer_trace_spec`]: a sound hit of one of the objects; the
    /// linear tracer's is additionally the nearest one.
    pub fn trace(&self, ray: &Ray) -> (res: Option<(usize, Intersection)>)
        requires
            self.wf(),
            ray.wf(),
        ensures
            res == tracer_trace_spec(*self, *ray),
            hit_sound(tracer_objects(*self), *ray, res),
            self matches Tracer::Linear(_) ==> hit_nearest(tracer_objects(*self), *ray, res),
    {
        match self {
            Tracer::Linear(l) => l.trace(ray),
            Tracer::Bvh(b) => b.trace(ray),
        }
    }

    pub fn object_by_index(&self, index: usize) -> (r: &Object)
        requires
            index < tracer_objects(*self).len(),
        ensures
            *r == tracer_objects(*self)[index as int],
    {
        match self {
            Tracer::Linear(l) => l.object_by_index(index),
            Tracer::Bvh(b) => b.object_by_index(index),
        }
    }

    pub fn len(&self) -> (r: usize)
        ensures
            r == tracer_objects(*self).len(),
    {
        match self {
            Tracer::Linear(l) => l.objects.len(),
            Tracer::Bvh(b) => b.data.len(),
        }
    }
}

pub struct Scene {
    pub objects: Tracer,
    pub materials: Vec<Material>,
    pub lights: Vec<Light>,
}

impl Scene {
    pub open spec fn wf(self) -> bool {
        &&& self.objects.wf()
        &&& forall|i: int| 0 <= i < self.materials@.len() ==> #[trigger] self.materials@[i].wf()
        &&& forall|i: int| 0 <= i < self.lights@.len() ==> #[trigger] self.lights@[i].wf()
        &&& self.lights@.len() <= MAX_LIGHTS
        &&& forall|i: int|
            0 <= i < tracer_objects(self.objects).len()
                ==> #[trigger] tracer_objects(self.objects)[i].material_id
                < self.materials@.len()
    }

    pub fn new(objects: Tracer, materials: Vec<Material>) -> (r: Scene)
        ensures
            r.objects == objects,
            r.materials == materials,
            r.lights@.len() == 0,
    {
        Scene { objects, materials, lights: Vec::new() }
    }

    pub fn add_light(&mut self, light: Light)
        requires
            old(self).lights@.len() < MAX_LIGHTS,
        ensures
            final(self).lights@ == old(self).lights@.push(light),
            final(self).objects == old(self).objects,
            final(self).materials == old(self).materials,
    {
        self.lights.push(light);
    }

    pub fn lights(&self) -> (r: &Vec<Light>)
        ensures
            r == &self.lights,
    {
        &self.lights
    }

    pub fn objects(&self) -> (r: &Tracer)
        ensures
            r == &self.objects,
    {
        &self.objects
    }

    pub fn materials(&self, id: usize) -> (r: &Material)
        requires
            id < self.materials@.len(),
        ensures
            *r == self.materials@[id as int],
    {
        &self.materials[id]
    }
}

} // verus!
