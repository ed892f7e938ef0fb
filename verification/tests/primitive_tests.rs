//! Intersection tests for the primitives, on fixed-point scalars.

use ray_tracer::alighned_box::AlighnedBox;
use ray_tracer::disk::Disk;
use ray_tracer::geometry::Intersection;
use ray_tracer::geometry::Transformation;
use ray_tracer::normal::Normal;
use ray_tracer::plane::Plane;
use ray_tracer::point::Point;
use ray_tracer::ray::Ray;
use ray_tracer::sphere::Sphere;
use ray_tracer::triangle::Triangle;
use ray_tracer::vector::Vector;

#[test]
fn sphere_intersection_test() {
    let ray = Ray::new(Point::new(0, 0, 0), Normal::new(0, 10000, 0));
    let sphere = Sphere::new(Point::new(0, 50000, 0), 10000);
    assert_eq!(sphere.intersect(&ray), Some(Intersection::Intersect(40000)));
}

#[test]
fn intersection_fail_test() {
    let ray = Ray::new(Point::new(0, 0, 0), Normal::new(10000, 0, 0));
    let sphere = Sphere::new(Point::new(0, 50000, 0), 5000);
    assert_eq!(sphere.intersect(&ray), None);
}

#[test]
fn intersection_behind_test() {
    let ray = Ray::new(Point::new(0, 0, 0), Normal::new(0, -10000, 0));
    let sphere = Sphere::new(Point::new(0, 50000, 0), 10000);
    assert_eq!(sphere.intersect(&ray), None);
}

#[test]
fn plane_intersection_test() {
    let ray = Ray::new(Point::new(0, 0, 0), Normal::new(0, 10000, 0));
    let plane = Plane::new(Normal::new(0, -10000, 0), Point::new(0, 500000, 0));
    assert_eq!(plane.intersect(&ray), Some(Intersection::Intersect(500000)));
}

#[test]
fn plane_intersection_failure_test() {
    let ray = Ray::new(Point::new(0, 0, 0), Normal::new(10000, 0, 0));
    let plane = Plane::new(Normal::new(0, -10000, 0), Point::new(0, 500000, 0));
    assert_eq!(plane.intersect(&ray), None);
}

#[test]
fn ray_intersect_behind() {
    let ray = Ray::new(Point::new(0, 0, 0), Normal::new(0, -10000, 0));
    let plane = Plane::new(Normal::new(0, -10000, 0), Point::new(0, 500000, 0));
    assert_eq!(plane.intersect(&ray), None);
}

#[test]
fn intersection_shift_ok() {
    let ray = Ray::new(Point::new(20000, 0, 0), Normal::new(0, 10000, 0));
    let plane = Plane::new(Normal::new(0, 10000, 0), Point::new(0, 100000, 0));
    assert_eq!(plane.intersect(&ray), Some(Intersection::Intersect(100000)));
}

#[test]
fn paralel_ray_to_plane() {
    let ray = Ray::new(Point::new(10000, 0, 0), Normal::new(10000, 0, 0));
    let plane = Plane::new(Normal::new(0, 10000, 0), Point::new(20000, 0, 0));
    assert_eq!(plane.intersect(&ray), None);
}

#[test]
fn disk_intersection_test() {
    let ray = Ray::new(Point::new(0, 0, 0), Normal::new(0, 10000, 0));
    let disk = Disk::new(Point::new(0, 100000, 0), 10000, Normal::new(0, 10000, 0));
    assert_eq!(disk.intersect(&ray), Some(Intersection::Intersect(100000)));
}

#[test]
fn disk_intersection_failure_test() {
    let ray = Ray::new(Point::new(0, 0, 0), Normal::new(10000, 0, 0));
    let disk = Disk::new(Point::new(0, 100000, 0), 10000, Normal::new(0, 10000, 0));
    assert_eq!(disk.intersect(&ray), None);
}

#[test]
fn intersection_behind() {
    let ray = Ray::new(Point::new(0, 0, 0), Normal::new(0, -10000, 0));
    let disk = Disk::new(Point::new(0, 100000, 0), 10000, Normal::new(0, 10000, 0));
    assert_eq!(disk.intersect(&ray), None);
}

#[test]
fn insersection_corner_failure() {
    let ray = Ray::new(Point::new(20000, 0, 0), Normal::new(0, 10000, 0));
    let disk = Disk::new(Point::new(0, 100000, 0), 10000, Normal::new(0, 10000, 0));
    assert_eq!(disk.intersect(&ray), None);
}

#[test]
fn test_intersection() {
    let triangle = Triangle::new(
        Point::new(0, 0, 0),
        Point::new(10000, 0, 0),
        Point::new(0, 10000, 0),
    );
    let ray = Ray::new(Point::new(5000, 5000, 20000), Normal::new(0, 0, -5000));
    assert_eq!(
        triangle.intersect(&ray),
        Some(Intersection::TriangleIntersect(40000, 5000, 5000))
    );
}

#[test]
fn no_intersection() {
    let triangle = Triangle::new(
        Point::new(0, 0, 0),
        Point::new(10000, 0, 0),
        Point::new(0, 10000, 0),
    );
    let ray = Ray::new(Point::new(11000, 5000, 20000), Normal::new(0, 0, -5000));
    assert_eq!(triangle.intersect(&ray), None);
}

#[test]
fn alighned_box_intersection_test() {
    let box_ = AlighnedBox::from_dimensions(Point::new(0, 0, 0), 100000, 100000, 100000);
    let ray = Ray::new(Point::new(0, -200000, 0), Normal::new(0, 10000, 0));
    let t = box_.intersect(&ray);
    assert_eq!(t, Some(Intersection::Intersect(100000)));
}

#[test]
fn box_union_absorbs_default() {
    let b = AlighnedBox::new(Point::new(-10000, -20000, -30000), Point::new(10000, 20000, 30000));
    let d = AlighnedBox::default();
    assert_eq!(b.union(&d), b);
    assert_eq!(d.union(&b), b);
}

#[test]
fn box_union_commutes_and_associates() {
    let a = AlighnedBox::new(Point::new(-10000, 0, 0), Point::new(10000, 5000, 5000));
    let b = AlighnedBox::new(Point::new(-5000, -20000, 0), Point::new(20000, 0, 5000));
    let c = AlighnedBox::new(Point::new(0, 0, -10000), Point::new(5000, 30000, 10000));
    assert_eq!(a.union(&b), b.union(&a));
    assert_eq!(a.union(&b).union(&c), a.union(&b.union(&c)));
}

#[test]
fn translation_round_trip_restores_bounding_box() {
    let v = Vector::new(12340, -5550, 70000);
    let back = Vector::new(-12340, 5550, -70000);

    let mut sphere = Sphere::new(Point::new(10000, 20000, 30000), 10000);
    let original_box = sphere.bounding_box();
    sphere.transform(Transformation::Translation(v));
    sphere.transform(Transformation::Translation(back));
    assert_eq!(sphere.bounding_box(), original_box);

    let mut triangle = Triangle::new(
        Point::new(0, 0, 0),
        Point::new(10000, 0, 0),
        Point::new(0, 10000, 0),
    );
    let original_box = triangle.bounding_box();
    triangle.transform(Transformation::Translation(v));
    triangle.transform(Transformation::Translation(back));
    assert_eq!(triangle.bounding_box(), original_box);

    let mut box_ = AlighnedBox::new(Point::new(-10000, -10000, -10000), Point::new(10000, 20000, 30000));
    let original = box_;
    box_.transform(Transformation::Translation(v));
    box_.transform(Transformation::Translation(back));
    assert_eq!(box_, original);
}

#[test]
fn sphere_normal_points_outward() {
    let sphere = Sphere::new(Point::new(0, 0, 0), 10000);
    let n = sphere.normal_at_point(&Point::new(10000, 0, 0), Intersection::Intersect(10000));
    assert_eq!(n, Normal::new(10000, 0, 0));
}

#[test]
fn box_face_normal_lookup() {
    let box_ = AlighnedBox::from_dimensions(Point::new(0, 0, 0), 10000, 10000, 10000);
    let n = box_.normal_at_point(&Point::new(-10000, 0, 0), Intersection::Intersect(0));
    assert_eq!(n, Normal::new(-10000, 0, 0));
    assert_eq!(box_.try_face_normal(&Point::new(0, 0, 0)), None);
}

#[test]
fn ray_inside_box_is_a_miss_but_overlaps() {
    // The intersection protocol accepts only hits in front of the origin, so
    // a box around the ray origin is a miss; the pruning overlap test still
    // sees it.
    let box_ = AlighnedBox::from_dimensions(Point::new(0, 0, 0), 10000, 10000, 10000);
    let ray = Ray::new(Point::new(0, 0, 0), Normal::new(0, 10000, 0));
    assert_eq!(box_.intersect(&ray), None);
    assert!(box_.ray_overlaps(&ray));
}

#[test]
fn vertex_normals_interpolate_by_barycentric_weights() {
    // u weighs the second vertex's normal, v the third's, the rest the first's.
    let triangle = Triangle::with_normals(
        Point::new(0, 0, 0),
        Normal::new(10000, 0, 0),
        Point::new(10000, 0, 0),
        Normal::new(0, 10000, 0),
        Point::new(0, 10000, 0),
        Normal::new(0, 0, 10000),
    );
    let at_b = triangle.normal_at_point(
        &Point::new(10000, 0, 0),
        Intersection::TriangleIntersect(10000, 10000, 0),
    );
    assert_eq!(at_b, Normal::new(0, 10000, 0));
    let at_c = triangle.normal_at_point(
        &Point::new(0, 10000, 0),
        Intersection::TriangleIntersect(10000, 0, 10000),
    );
    assert_eq!(at_c, Normal::new(0, 0, 10000));
    let at_a = triangle.normal_at_point(
        &Point::new(0, 0, 0),
        Intersection::TriangleIntersect(10000, 0, 0),
    );
    assert_eq!(at_a, Normal::new(10000, 0, 0));
}
