use ray_tracing::{
    adjust_view, calc_pixel_direction, calc_pixel_point, rotate, rotation_matrix, CameraOrbit,
    Vector,
};

#[test]
fn basis_recomputation() {
    // The reference view: eye behind the origin, world up. Plane normal
    // +z, right vector -x (the intentional axis flip), up vector +y.
    let (vpn, vrv, vuv) = adjust_view(
        Vector::new(0, 0, -1000),
        Vector::new(0, 0, 0),
        Vector::new(0, 1000, 0),
    );
    assert_eq!(vpn, Vector::new(0, 0, 1000));
    assert_eq!(vrv, Vector::new(-1000, 0, 0));
    assert_eq!(vuv, Vector::new(0, 1000, 0));
}

#[test]
fn rotation_matrix_identity_at_zero() {
    let m = rotation_matrix(0, 1000, 0, 1000);
    assert_eq!(m[0], Vector::new(1000, 0, 0));
    assert_eq!(m[1], Vector::new(0, 1000, 0));
    assert_eq!(m[2], Vector::new(0, 0, 1000));
    assert_eq!(rotate(&m, &Vector::new(0, 0, -1000)), Vector::new(0, 0, -1000));
}

#[test]
fn horizontal_rotation() {
    // Sine and cosine of ten degrees, in thousandths: a horizontal orbit
    // keeps the eye level.
    let m = rotation_matrix(174, 985, 0, 1000);
    let vrp = rotate(&m, &Vector::new(0, 0, -1000));
    assert_eq!(0, vrp.y);
}

#[test]
fn quarter_turn_moves_the_eye() {
    let m = rotation_matrix(1000, 0, 0, 1000);
    assert_eq!(rotate(&m, &Vector::new(0, 0, -1000)), Vector::new(-1000, 0, 0));
}

#[test]
fn pixel_geometry() {
    // A 4x4 screen one unit per pixel, centred at the origin: the top-left
    // pixel sits two units right and two up, and its ray leaves the eye
    // near-unit length.
    let center = Vector::new(0, 0, 0);
    let point = calc_pixel_point(
        0,
        0,
        4,
        4,
        1000,
        center,
        Vector::new(1000, 0, 0),
        Vector::new(0, 1000, 0),
    );
    assert_eq!(point, Vector::new(2, 2, 0));

    let direction = calc_pixel_direction(&Vector::new(0, 0, -1000), &point);
    assert_eq!(direction, Vector::new(1, 1, 999));
    let norm_sq =
        direction.x * direction.x + direction.y * direction.y + direction.z * direction.z;
    assert!(994_000 <= norm_sq && norm_sq <= 1_002_001);
}

#[test]
fn new_orbit_state_is_zeroed() {
    let camera = CameraOrbit::new();
    assert_eq!(camera.h_rotation(), 0);
    assert_eq!(camera.v_rotation(), 0);
    assert_eq!(camera.ambient_coefficient(), 300);
}

#[test]
fn horizontal_orbit_accumulates() {
    let mut camera = CameraOrbit::new();
    camera.move_x(10);
    assert_eq!(camera.h_rotation(), 10);
    camera.move_x(45);
    assert_eq!(camera.h_rotation(), 55);
}

#[test]
fn horizontal_orbit_wraps() {
    let mut camera = CameraOrbit::new();
    camera.move_x(350);
    camera.move_x(20);
    assert_eq!(camera.h_rotation(), 10);
    camera.move_x(-30);
    assert_eq!(camera.h_rotation(), 340);
    camera.move_x(725);
    assert_eq!(camera.h_rotation(), 345);
}

#[test]
fn full_circle_orbit_is_identity() {
    let mut camera = CameraOrbit::new();
    camera.move_x(123);
    camera.move_x(360);
    assert_eq!(camera.h_rotation(), 123);
    camera.move_x(-360);
    assert_eq!(camera.h_rotation(), 123);
}

#[test]
fn vertical_orbit_clamps_at_poles() {
    let mut camera = CameraOrbit::new();
    camera.move_y(1000);
    assert_eq!(camera.v_rotation(), 90);
    camera.move_y(1000);
    assert_eq!(camera.v_rotation(), 90);
    camera.move_y(1000);
    assert_eq!(camera.v_rotation(), 90);
    camera.move_y(-1000);
    assert_eq!(camera.v_rotation(), -90);
    camera.move_y(-1);
    assert_eq!(camera.v_rotation(), -90);
}

#[test]
fn vertical_orbit_accumulates_within_range() {
    let mut camera = CameraOrbit::new();
    camera.move_y(30);
    assert_eq!(camera.v_rotation(), 30);
    camera.move_y(-50);
    assert_eq!(camera.v_rotation(), -20);
}

#[test]
fn resets_zero_the_right_angles() {
    let mut camera = CameraOrbit::new();
    camera.move_x(100);
    camera.move_y(45);
    camera.reset_x();
    assert_eq!(camera.h_rotation(), 0);
    assert_eq!(camera.v_rotation(), 45);
    camera.move_x(100);
    camera.reset_y();
    assert_eq!(camera.h_rotation(), 100);
    assert_eq!(camera.v_rotation(), 0);
    camera.move_y(-30);
    camera.reset_vrp();
    assert_eq!(camera.h_rotation(), 0);
    assert_eq!(camera.v_rotation(), 0);
}

#[test]
fn ambient_coefficient_clamps() {
    let mut camera = CameraOrbit::new();
    camera.set_ambient_coefficient(400);
    assert_eq!(camera.ambient_coefficient(), 400);
    camera.set_ambient_coefficient(1500);
    assert_eq!(camera.ambient_coefficient(), 1000);
    camera.set_ambient_coefficient(-5);
    assert_eq!(camera.ambient_coefficient(), 0);
}
