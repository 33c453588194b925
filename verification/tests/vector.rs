use ray_tracing::{id_matrix, matrix_mul, matrix_vec_mul, ColourChannel, PixelColour, Vector};

#[test]
fn cross_product() {
    let v1: Vector<i64> = Vector::new(3, 5, 2);
    let v2: Vector<i64> = Vector::new(2, 4, 6);
    assert_eq!(v1.cross(&v2), Vector::new(22, -14, 2));
}

#[test]
fn scalar_mul() {
    let v1: Vector<i64> = Vector::new(3, 5, 2);
    assert_eq!(v1.scale(2), Vector::new(6, 10, 4));
}

#[test]
fn vector_addition() {
    let v1: Vector<i64> = Vector::new(3, 5, 2);
    let v2: Vector<i64> = Vector::new(2, 4, 6);
    assert_eq!(v1.add(&v2), Vector::new(5, 9, 8));
}

#[test]
fn vector_subtraction() {
    let v1: Vector<i64> = Vector::new(3, 5, 2);
    let v2: Vector<i64> = Vector::new(2, 4, 6);
    assert_eq!(v1.sub(&v2), Vector::new(1, 1, -4));
}

#[test]
fn vector_not_consumed_after_magnitude() {
    let v: Vector<i64> = Vector::new(1, 3, 2);
    let _ = v.magnitude();
    let _ = v.cross(&v);
}

#[test]
fn magnitude_works() {
    let v: Vector<i64> = Vector::new(0, 0, 3);
    assert_eq!(v.magnitude(), 3);
}

#[test]
fn dot_product() {
    let v1: Vector<i64> = Vector::new(1, 2, 3);
    let v2: Vector<i64> = Vector::new(1, 5, 7);
    assert_eq!(v1.dot(&v2), 32);
}

#[test]
fn matrix_vec_multiplication() {
    let matrix: [Vector<i64>; 3] = [
        Vector::new(1, 0, 2),
        Vector::new(2, 1, 3),
        Vector::new(1, 0, 4),
    ];

    let v: Vector<i64> = Vector::new(3, 6, 1);

    assert_eq!(matrix_vec_mul(&matrix, &v), Vector::new(16, 6, 28));
    assert_eq!(matrix_vec_mul(&id_matrix(), &v), v);
}

#[test]
fn matrix_multiplication() {
    let matrix1: [Vector<i64>; 3] = [
        Vector::new(1, 0, 2),
        Vector::new(2, 1, 3),
        Vector::new(1, 0, 4),
    ];
    let matrix2: [Vector<i64>; 3] = [
        Vector::new(9, 6, 5),
        Vector::new(5, 7, 8),
        Vector::new(7, 8, 6),
    ];
    let result = matrix_mul(matrix1, matrix2);
    let expected_result: [Vector<i64>; 3] = [
        Vector::new(26, 6, 56),
        Vector::new(27, 7, 63),
        Vector::new(29, 8, 62),
    ];

    assert_eq!(expected_result, result);
    assert_eq!(matrix_mul(id_matrix(), matrix2), matrix2);
    assert_eq!(matrix_mul(matrix2, id_matrix()), matrix2);
}

#[test]
fn magnitude_rounds_down() {
    let v: Vector<i64> = Vector::new(3, 4, 0);
    assert_eq!(v.magnitude(), 5);
    let w: Vector<i64> = Vector::new(1, 1, 1);
    assert_eq!(w.magnitude(), 1);
}

#[test]
fn normalise_axis_vector() {
    let mut v: Vector<i64> = Vector::new(0, 0, 17);
    v.normalise();
    assert_eq!(v, Vector::new(0, 0, 1000));

    let mut w: Vector<i64> = Vector::new(0, -8, 0);
    w.normalise();
    assert_eq!(w, Vector::new(0, -1000, 0));
}

#[test]
fn normalise_keeps_direction() {
    // A 3-4-5 triangle: the direction survives, rescaled to the model's
    // unit length.
    let mut v: Vector<i64> = Vector::new(3, 4, 0);
    v.normalise();
    assert_eq!(v, Vector::new(600, 800, 0));
    assert_eq!(v.magnitude(), 1000);
}

#[test]
fn normalise_magnitude_near_unit() {
    // Magnitudes land within the tolerance the library proves, whatever the
    // direction and however short the vector.
    let vectors: Vec<(i64, i64, i64)> = vec![
        (1, 1, 1),
        (1, 7, 7),
        (120, 35, 991),
        (-250, 301, 77),
        (5000, -1234, 987),
        (101, 0, -100),
    ];
    for (x, y, z) in vectors {
        let mut v: Vector<i64> = Vector::new(x, y, z);
        v.normalise();
        let norm_sq = v.x * v.x + v.y * v.y + v.z * v.z;
        assert!(994_000 <= norm_sq && norm_sq <= 1_002_001);
    }
}

#[test]
fn normalise_zero_vector_unchanged() {
    let mut v: Vector<i64> = Vector::new(0, 0, 0);
    v.normalise();
    assert_eq!(v, Vector::new(0, 0, 0));
}

#[test]
fn component_wise_mul() {
    let v1: Vector<i64> = Vector::new(2, 3, 4);
    let v2: Vector<i64> = Vector::new(5, 6, 7);
    assert_eq!(v1.mul(&v2), Vector::new(10, 18, 28));
}

#[test]
fn square_and_vec_sum() {
    let v: Vector<i64> = Vector::new(-2, 3, 4);
    assert_eq!(v.square(), Vector::new(4, 9, 16));
    assert_eq!(v.square().vec_sum(), 29);
}

#[test]
fn colour_channel_selection() {
    let c: PixelColour = Vector::new(10, 20, 30);
    assert_eq!(c.colour(&ColourChannel::Red), 10);
    assert_eq!(c.colour(&ColourChannel::Green), 20);
    assert_eq!(c.colour(&ColourChannel::Blue), 30);
}

#[test]
fn array_round_trip() {
    let v: Vector<i64> = Vector::from_array([7, -8, 9]);
    assert_eq!(v, Vector::new(7, -8, 9));
    assert_eq!(v.to_array(), [7, -8, 9]);
}

#[test]
fn cross_product_is_orthogonal() {
    let v1: Vector<i64> = Vector::new(3, -5, 11);
    let v2: Vector<i64> = Vector::new(2, 4, -6);
    let c = v1.cross(&v2);
    assert_eq!(c.dot(&v1), 0);
    assert_eq!(c.dot(&v2), 0);
}

#[test]
fn scalar_division_rounds_down() {
    let c: PixelColour = Vector::new(255, 100, 1);
    assert_eq!(c.div_scalar(2), Vector::new(127, 50, 0));
}

#[test]
fn saturating_pixel_addition() {
    let a: PixelColour = Vector::new(200, 200, 200);
    let b: PixelColour = Vector::new(100, 1, 55);
    assert_eq!(a.saturating_add(&b), Vector::new(255, 201, 255));
}

#[test]
fn light_colour_round_trip_within_one() {
    for c in 0..=255u8 {
        let p: PixelColour = Vector::new(c, c, c);
        let back = PixelColour::from_light_colour(&p.to_light_colour());
        assert!(back.x <= c && c - back.x <= 1);
        assert!(back.y <= c && c - back.y <= 1);
        assert!(back.z <= c && c - back.z <= 1);
    }
}

#[test]
fn light_colour_values() {
    let p: PixelColour = Vector::new(255, 0, 51);
    let l = p.to_light_colour();
    assert_eq!(l, Vector::new(1000, 0, 200));
    assert_eq!(PixelColour::from_light_colour(&l), Vector::new(255, 0, 51));
}

#[test]
fn from_light_colour_saturates() {
    let over: ray_tracing::LightColour = Vector::new(2000, 1000, 0);
    assert_eq!(PixelColour::from_light_colour(&over), Vector::new(255, 255, 0));
}
