//! The tracers and the shading pipeline end to end, plus the byte-level
//! output helpers.

use ray_tracer::bvh::BVHTree;
use ray_tracer::camera::Camera;
use ray_tracer::color::Color;
use ray_tracer::geometry::Intersection;
use ray_tracer::light::Light;
use ray_tracer::material::Material;
use ray_tracer::normal::Normal;
use ray_tracer::obj_file::ObjectFile;
use ray_tracer::object::Object;
use ray_tracer::object::Shape;
use ray_tracer::point::Point;
use ray_tracer::ppm::PPMImage;
use ray_tracer::ray::Ray;
use ray_tracer::scene::LinearTracer;
use ray_tracer::scene::Scene;
use ray_tracer::scene::Tracer;
use ray_tracer::sphere::Sphere;
use ray_tracer::texture_loader::TextureLoader;
use ray_tracer::tracer::RayTracer;
use ray_tracer::triangle::Triangle;
use ray_tracer::viewframe::ViewFrame;

fn mixed_scene() -> Vec<Object> {
    vec![
        Object::new(Shape::Sphere(Sphere::new(Point::new(0, 50000, 0), 10000)), 0),
        Object::new(Shape::Sphere(Sphere::new(Point::new(30000, 0, 0), 5000)), 0),
        Object::new(
            Shape::Triangle(Triangle::new(
                Point::new(-20000, -10000, 10000),
                Point::new(20000, -10000, 10000),
                Point::new(0, 30000, 10000),
            )),
            0,
        ),
        Object::new(
            Shape::AlighnedBox(ray_tracer::alighned_box::AlighnedBox::new(
                Point::new(-40000, -40000, -40000),
                Point::new(-20000, -20000, -20000),
            )),
            0,
        ),
        Object::new(Shape::Sphere(Sphere::new(Point::new(0, 0, -60000), 15000)), 0),
    ]
}

fn test_rays() -> Vec<Ray> {
    vec![
        Ray::new(Point::new(0, 0, 0), Normal::new(0, 10000, 0)),
        Ray::new(Point::new(0, 0, 0), Normal::new(10000, 0, 0)),
        Ray::new(Point::new(0, 0, 100000), Normal::new(0, 0, -10000)),
        Ray::new(Point::new(-30000, -30000, 50000), Normal::new(0, 0, -10000)),
        Ray::new(Point::new(0, -100000, 0), Normal::new(0, 10000, 0)),
        Ray::new(Point::new(100000, 100000, 100000), Normal::new(10000, 0, 0)),
    ]
}

#[test]
fn bvh_matches_linear_tracer() {
    let bvh = BVHTree::new(mixed_scene(), 2);
    let linear = LinearTracer::new(mixed_scene());
    for ray in test_rays() {
        let from_bvh = bvh.trace(&ray);
        let from_linear = linear.trace(&ray);
        match (from_bvh, from_linear) {
            (None, None) => {}
            (Some((_, a)), Some((_, b))) => assert_eq!(a, b),
            other => panic!("tracers disagree: {:?}", other),
        }
    }
}

#[test]
fn bvh_single_leaf_matches_linear() {
    let bvh = BVHTree::new(mixed_scene(), 100);
    let linear = LinearTracer::new(mixed_scene());
    for ray in test_rays() {
        let from_bvh = bvh.trace(&ray);
        let from_linear = linear.trace(&ray);
        match (from_bvh, from_linear) {
            (None, None) => {}
            (Some((_, a)), Some((_, b))) => assert_eq!(a, b),
            other => panic!("tracers disagree: {:?}", other),
        }
    }
}

#[test]
fn linear_tracer_picks_nearest() {
    let objects = vec![
        Object::new(Shape::Sphere(Sphere::new(Point::new(0, 80000, 0), 10000)), 0),
        Object::new(Shape::Sphere(Sphere::new(Point::new(0, 50000, 0), 10000)), 1),
    ];
    let tracer = LinearTracer::new(objects);
    let ray = Ray::new(Point::new(0, 0, 0), Normal::new(0, 10000, 0));
    let hit = tracer.trace(&ray);
    assert_eq!(hit, Some((1, Intersection::Intersect(40000))));
    assert_eq!(tracer.object_by_index(1).material_id, 1);
}

#[test]
fn occluded_point_light_leaves_only_ambient() {
    // An opaque sphere sits between the lit point and the point light; the
    // ambient environment light still contributes its term.
    let occluder = Object::new(Shape::Sphere(Sphere::new(Point::new(0, 50000, 0), 10000)), 0);
    let mut scene = Scene::new(
        Tracer::Linear(LinearTracer::new(vec![occluder])),
        vec![Material::lambert()],
    );
    scene.add_light(Light::Point(Point::new(0, 100000, 0), Color::white(), 7000));
    scene.add_light(Light::Environment(Color::red(), 1500));
    let frame = ViewFrame::new(Point::new(0, 0, 250000), 250000, 250000);
    let camera = Camera::new(Point::new(0, 0, 275000), frame);
    let tracer = RayTracer::new(scene, camera, 1, 1);

    let surface = Point::new(0, 0, 0);
    let up = Normal::new(0, 10000, 0);
    assert!(tracer.is_shadowed(surface, up));

    let ray = Ray::new(Point::new(0, 0, 100000), Normal::new(0, 0, -10000));
    let color = tracer.get_color(surface, up, &Material::lambert(), &ray);
    // Only the ambient term remains: red * 0.15 * ambient 0.2 = 0.03.
    assert_eq!(color.r.val, 300);
    assert_eq!(color.g.val, 0);
    assert_eq!(color.b.val, 0);
}

#[test]
fn unoccluded_point_light_adds_diffuse() {
    let far_object = Object::new(Shape::Sphere(Sphere::new(Point::new(0, -80000, 0), 10000)), 0);
    let mut scene = Scene::new(
        Tracer::Linear(LinearTracer::new(vec![far_object])),
        vec![Material::lambert()],
    );
    scene.add_light(Light::Point(Point::new(0, 100000, 0), Color::white(), 7000));
    let frame = ViewFrame::new(Point::new(0, 0, 250000), 250000, 250000);
    let camera = Camera::new(Point::new(0, 0, 275000), frame);
    let tracer = RayTracer::new(scene, camera, 1, 1);

    let surface = Point::new(0, 0, 0);
    let up = Normal::new(0, 10000, 0);
    assert!(!tracer.is_shadowed(surface, up));

    let ray = Ray::new(Point::new(0, 0, 100000), Normal::new(0, 0, -10000));
    let color = tracer.get_color(surface, up, &Material::lambert(), &ray);
    // Diffuse only (specular is zero for the matte preset):
    // white * 0.7 * (N . L = 1) * diffuse 0.8 = 0.56 per channel.
    assert_eq!(color.r.val, 5600);
    assert_eq!(color.g.val, 5600);
    assert_eq!(color.b.val, 5600);
}

#[test]
fn render_fills_background_for_empty_scene() {
    let scene = Scene::new(Tracer::Linear(LinearTracer::new(Vec::new())), vec![Material::lambert()]);
    let frame = ViewFrame::new(Point::new(0, 0, 250000), 250000, 250000);
    let camera = Camera::new(Point::new(0, 0, 275000), frame);
    let tracer = RayTracer::new(scene, camera, 2, 2);
    let buff = tracer.render();
    assert_eq!(buff.len(), 4);
    for pixel in buff {
        assert_eq!(pixel.r.val, 1800);
        assert_eq!(pixel.g.val, 3900);
        assert_eq!(pixel.b.val, 0);
    }
}

#[test]
fn ppm_header_and_pixels() {
    let header = PPMImage::header_bytes(3, 2);
    assert_eq!(header, b"P6\n3 2\n255\n".to_vec());
    let image = PPMImage::new(String::from("out.ppm"));
    assert_eq!(image.file_path, "out.ppm");
    let pixels = PPMImage::pixel_bytes(&vec![Color::white(), Color::black(), Color::new(5000, 20000, -300)]);
    assert_eq!(pixels, vec![255, 255, 255, 0, 0, 0, 127, 255, 0]);
}

#[test]
fn color_bytes_saturate() {
    let c = Color::new(20000, -5, 10000);
    assert_eq!(c.rgb(), [255, 0, 255]);
}

#[test]
fn bounded_saturation() {
    let b = ray_tracer::bounded::Bounded::new(15000);
    assert_eq!(b.get_saturated(0, 10000), 10000);
    assert_eq!(ray_tracer::bounded::Bounded::saturate(-3, 0, 10000), 0);
    assert_eq!(ray_tracer::bounded::Bounded::saturate(42, 0, 10000), 42);
    assert_eq!(b.add(ray_tracer::bounded::Bounded::new(1)).val, 15001);
    assert_eq!(b.sub(ray_tracer::bounded::Bounded::new(1)).val, 14999);
    assert_eq!(b.mul(ray_tracer::bounded::Bounded::new(10000)).val, 15000);
}

#[test]
fn build_objects_from_mesh_arrays() {
    let positions: Vec<i64> = vec![0, 0, 0, 10000, 0, 0, 0, 10000, 0];
    let normals: Vec<i64> = Vec::new();
    let indices: Vec<usize> = vec![0, 1, 2];
    let objects = ObjectFile::build_objects(&positions, &normals, &indices, 7).unwrap();
    assert_eq!(objects.len(), 1);
    assert_eq!(objects[0].material_id, 7);

    let bad_indices: Vec<usize> = vec![0, 1, 9];
    assert!(ObjectFile::build_objects(&positions, &normals, &bad_indices, 7).is_none());

    let loader = ObjectFile::new(String::from("model.obj"));
    assert_eq!(loader.path, "model.obj");
}

#[test]
fn texture_loader_caches_one_byte() {
    let mut loader = TextureLoader::new();
    loader.load_texture(3, &Material::lambert());
    loader.load_texture(3, &Material::reflective());
    assert_eq!(loader.textures.len(), 1);
    assert_eq!(loader.textures.get(&3), Some(&0));
}

#[test]
fn specular_highlight_full_reflection() {
    // Light straight above, camera looking straight down: the reflected light
    // direction meets the view direction exactly, so the specular term is the
    // full specular color times the intensity.
    let scene = Scene::new(
        Tracer::Linear(LinearTracer::new(Vec::new())),
        vec![Material::reflective()],
    );
    let frame = ViewFrame::new(Point::new(0, 0, 250000), 250000, 250000);
    let camera = Camera::new(Point::new(0, 0, 275000), frame);
    let mut scene = scene;
    scene.add_light(Light::Point(Point::new(0, 100000, 0), Color::white(), 7000));
    let tracer = RayTracer::new(scene, camera, 1, 1);
    let ray = Ray::new(Point::new(0, 100000, 0), Normal::new(0, -10000, 0));
    let color = tracer.get_color(
        Point::new(0, 0, 0),
        Normal::new(0, 10000, 0),
        &Material::reflective(),
        &ray,
    );
    // diffuse 0.7 * 0.8 = 0.56 plus specular 0.7 * 1^10 * 0.5 = 0.35.
    assert_eq!(color.r.val, 5600 + 3500);
    assert_eq!(color.g.val, 5600 + 3500);
    assert_eq!(color.b.val, 5600 + 3500);
}

#[test]
fn fixed_point_power() {
    assert_eq!(ray_tracer::fixed::pow_fx(5000, 0), 10000);
    assert_eq!(ray_tracer::fixed::pow_fx(5000, 2), 2500);
    assert_eq!(ray_tracer::fixed::pow_fx(10000, 10), 10000);
    assert_eq!(ray_tracer::fixed::pow_fx(0, 3), 0);
}

#[test]
fn ppm_header_with_wide_dimensions() {
    assert_eq!(PPMImage::header_bytes(1234, 567), b"P6
1234 567
255
".to_vec());
}

#[test]
fn mirror_recursion_blends_background() {
    // A lone reflective sphere: the bounced ray escapes to the background,
    // so the pixel blends local shading with the background color.
    let mirror = Object::reflective(
        Shape::Sphere(Sphere::new(Point::new(0, 0, -50000), 10000)),
        0,
        5000,
    );
    let mut scene = Scene::new(
        Tracer::Linear(LinearTracer::new(vec![mirror])),
        vec![Material::lambert()],
    );
    scene.add_light(Light::Environment(Color::white(), 10000));
    let frame = ViewFrame::new(Point::new(0, 0, 250000), 250000, 250000);
    let camera = Camera::new(Point::new(0, 0, 275000), frame);
    let tracer = RayTracer::new(scene, camera, 1, 1);
    let ray = Ray::new(Point::new(0, 0, 0), Normal::new(0, 0, -10000));
    let color = tracer.get_color_for_ray(&ray, 0);
    // Local: white * 1.0 * ambient 0.2 = 0.2; blended half and half with the
    // background (0.18, 0.39, 0).
    assert_eq!(color.r.val, 1000 + 900);
    assert_eq!(color.g.val, 1000 + 1950);
    assert_eq!(color.b.val, 1000 + 0);
}

#[test]
fn specular_term_keeps_its_sign() {
    // A light shining up through the surface reflects away from the viewer:
    // the specular dot is -1 and an odd shininess keeps the negative sign.
    let material = Material {
        ambient: Color::black(),
        diffuse: Color::new(8000, 8000, 8000),
        specular: Color::new(5000, 5000, 5000),
        shininess: 1,
        illumination: 2,
        optical_density: 10000,
        dissolve: 10000,
    };
    let intensity = Color::new(7000, 7000, 7000);
    let ray = Ray::new(Point::new(0, 0, 0), Normal::new(0, -10000, 0));
    let c = ray_tracer::tracer::phong_color(
        intensity,
        Normal::new(0, 10000, 0),
        Normal::new(0, 10000, 0),
        &ray,
        &material,
    );
    assert_eq!(c.r.val, -3500);
    assert_eq!(c.g.val, -3500);
    assert_eq!(c.b.val, -3500);
}
