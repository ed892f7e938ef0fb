//! Vector, point, normal and matrix arithmetic, on fixed-point scalars
//! (10_000 steps per unit).

use ray_tracer::camera::Camera;
use ray_tracer::geometry::Angle;
use ray_tracer::geometry::Axis;
use ray_tracer::geometry::Transformation;
use ray_tracer::matrix::Matrix;
use ray_tracer::viewframe::ViewFrame;
use ray_tracer::normal::Normal;
use ray_tracer::point::Point;
use ray_tracer::vector::Vector;

#[test]
fn vector_test_new() {
    let vector = Vector::new(5000, 5000, 5000);
    assert_eq!(vector.x, 5000);
    assert_eq!(vector.y, 5000);
    assert_eq!(vector.z, 5000);
}

#[test]
fn vector_test_dot() {
    let vector1 = Vector::new(5000, 5000, 5000);
    let vector2 = Vector::new(5000, 5000, 5000);
    assert_eq!(vector1.dot(vector2), 7500);
}

#[test]
fn test_vector_length() {
    let vector = Vector::new(30000, 40000, 0);
    assert_eq!(vector.length(), 50000);
}

#[test]
fn test_vector_normalization() {
    let vector = Vector::new(30000, 40000, 0);
    let normal = vector.normalize();
    assert_eq!(normal.x, 6000);
    assert_eq!(normal.y, 8000);
    assert_eq!(normal.z, 0);
}

#[test]
fn test_vector_add() {
    let vector1 = Vector::new(10000, 20000, 30000);
    let vector2 = Vector::new(40000, 50000, 60000);
    let vector3 = vector1.add(vector2);
    assert_eq!(vector3.x, 50000);
    assert_eq!(vector3.y, 70000);
    assert_eq!(vector3.z, 90000);
}

#[test]
fn vector_sub() {
    let vector1 = Vector::new(10000, 20000, 30000);
    let vector2 = Vector::new(40000, 50000, 60000);
    let vector3 = vector1.sub(vector2);
    assert_eq!(vector3.x, -30000);
    assert_eq!(vector3.y, -30000);
    assert_eq!(vector3.z, -30000);
}

#[test]
fn vector_neg() {
    let vector = Vector::new(10000, 20000, 30000);
    let vector2 = vector.neg();
    assert_eq!(vector2.x, -10000);
    assert_eq!(vector2.y, -20000);
    assert_eq!(vector2.z, -30000);
}

#[test]
fn vector_div_by_value() {
    let vector = Vector::new(10000, 20000, 30000);
    let vector2 = vector.div(20000);
    assert_eq!(vector2.x, 5000);
    assert_eq!(vector2.y, 10000);
    assert_eq!(vector2.z, 15000);
}

#[test]
fn cross_product_test() {
    let vector1 = Vector::new(30000, -50000, 40000);
    let vector2 = Vector::new(20000, 60000, 50000);
    let vector3 = vector1.cross(vector2);
    assert_eq!(vector3.x, -490000);
    assert_eq!(vector3.y, -70000);
    assert_eq!(vector3.z, 280000);
}

#[test]
fn cross_product_2() {
    let vector1 = Vector::new(30000, 50000, 40000);
    let vector2 = Vector::new(20000, 70000, 50000);
    let vector3 = vector1.cross(vector2);
    assert_eq!(vector3.x, -30000);
    assert_eq!(vector3.y, -70000);
    assert_eq!(vector3.z, 110000);
}

#[test]
fn normal_test_new() {
    let normal = Normal::new(5000, 5000, 5000);
    assert_eq!(normal.x, 5000);
    assert_eq!(normal.y, 5000);
    assert_eq!(normal.z, 5000);
}

#[test]
fn normal_test_dot() {
    let normal1 = Normal::new(5000, 5000, 5000);
    let normal2 = Normal::new(5000, 5000, 5000);
    assert_eq!(normal1.dot(normal2), 7500);
}

#[test]
fn test_to_vector() {
    let normal = Normal::new(5000, 5000, 5000);
    let vector: Vector = normal.to_vector();
    assert_eq!(vector.x, 5000);
    assert_eq!(vector.y, 5000);
    assert_eq!(vector.z, 5000);
}

#[test]
fn vector_from_substraction() {
    let vector = Point::new(40000, 50000, 60000).sub(Point::new(10000, 20000, 30000));
    assert_eq!(vector.x, 30000);
    assert_eq!(vector.y, 30000);
    assert_eq!(vector.z, 30000);
}

#[test]
fn test_translation() {
    let t = Matrix::translation(Vector::new(10000, 20000, 30000));
    let matrix = Matrix::with_data([
        [10000, 0, 0, 10000],
        [0, 10000, 0, 20000],
        [0, 0, 10000, 30000],
        [0, 0, 0, 10000],
    ]);
    assert_eq!(t, matrix);
    let p = Point::new(40000, 50000, 60000);
    let expected = Point::new(50000, 70000, 90000);
    assert_eq!(t.apply_point(p), expected);
}

#[test]
fn camera_rotation_turns_rays() {
    // A quarter turn about Y maps the forward direction onto negative X.
    let frame = ViewFrame::new(Point::new(0, 0, 250000), 250000, 250000);
    let mut camera = Camera::new(Point::new(0, 0, 275000), frame);
    camera.transform(Transformation::Rotation(Axis::Y, Angle::new(900000, 10000, 0)));
    let ray = camera.rotate_ray(Point::new(0, 0, 275000), Vector::new(0, 0, -10000));
    assert_eq!(ray.direction, Normal::new(-10000, 0, 0));
}

#[test]
fn camera_angles_accumulate_by_angle_addition() {
    // Two quarter turns make a half turn: sine 0, cosine -1, exactly.
    let frame = ViewFrame::new(Point::new(0, 0, 250000), 250000, 250000);
    let mut camera = Camera::new(Point::new(0, 0, 275000), frame);
    let quarter = Angle::new(900000, 10000, 0);
    camera.transform(Transformation::Rotation(Axis::Y, quarter));
    camera.transform(Transformation::Rotation(Axis::Y, quarter));
    assert_eq!(camera.rot_y.degrees, 1800000);
    assert_eq!(camera.rot_y.sin, 0);
    assert_eq!(camera.rot_y.cos, -10000);
}

#[test]
fn normal_reflection_mirrors_direction() {
    let n = Normal::new(0, 10000, 0);
    let down = Normal::new(0, -10000, 0);
    assert_eq!(Normal::reflect(n, down), Normal::new(0, 10000, 0));
}

#[test]
fn matrix_mul_of_diagonals() {
    let identity = Matrix::with_data([
        [10000, 0, 0, 0],
        [0, 10000, 0, 0],
        [0, 0, 10000, 0],
        [0, 0, 0, 10000],
    ]);
    let t = Matrix::translation(Vector::new(10000, 20000, 30000));
    assert_eq!(identity.mul(&t), t);
    assert_eq!(t.mul(&identity), t);
    let double = Matrix::scale(Vector::new(20000, 20000, 20000));
    let triple = Matrix::scale(Vector::new(30000, 30000, 30000));
    assert_eq!(double.mul(&triple), Matrix::scale(Vector::new(60000, 60000, 60000)));
}
