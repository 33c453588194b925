use ray_tracing::{
    phong, phong_ambient, phong_diffuse, phong_specular, Material, Vector,
};

fn white() -> ray_tracing::LightColour {
    Vector::new(1000, 1000, 1000)
}

#[test]
fn diffuse_at_full_incidence_reproduces_the_colour() {
    // A pure red material under full white light, lit head on, comes back
    // as pure red.
    let material = Material::new(Vector::new(255, 0, 0), 10);
    assert_eq!(phong_diffuse(&material, &white(), 1000), Vector::new(255, 0, 0));
}

#[test]
fn diffuse_clamps_the_incidence() {
    let material = Material::new(Vector::new(255, 128, 64), 10);
    // A light behind the surface contributes zero, never negative colour.
    assert_eq!(phong_diffuse(&material, &white(), -500), Vector::new(0, 0, 0));
    // Incidence past one is treated as one.
    assert_eq!(
        phong_diffuse(&material, &white(), 5000),
        phong_diffuse(&material, &white(), 1000)
    );
    // Half incidence halves each channel.
    assert_eq!(phong_diffuse(&material, &white(), 500), Vector::new(127, 64, 32));
}

#[test]
fn diffuse_scales_with_the_light() {
    let material = Material::new(Vector::new(200, 100, 50), 10);
    let dim: ray_tracing::LightColour = Vector::new(500, 1000, 0);
    assert_eq!(phong_diffuse(&material, &dim, 1000), Vector::new(100, 100, 0));
}

#[test]
fn ambient_scales_and_halves_inside() {
    let material = Material::new(Vector::new(255, 0, 32), 10);
    // Coefficient 0.3: red 300 thousandths of 255, blue 37 thousandths of
    // 255, truncated.
    assert_eq!(phong_ambient(&material, &white(), 300, false), Vector::new(76, 0, 9));
    assert_eq!(phong_ambient(&material, &white(), 300, true), Vector::new(38, 0, 4));
    assert_eq!(phong_ambient(&material, &white(), 0, false), Vector::new(0, 0, 0));
    assert_eq!(phong_ambient(&material, &white(), 1000, false), Vector::new(255, 0, 31));
}

#[test]
fn specular_guards_give_black() {
    let material = Material::new(Vector::new(255, 255, 255), 10);
    assert_eq!(phong_specular(&material, &white(), -1, 1000), Vector::new(0, 0, 0));
    assert_eq!(phong_specular(&material, &white(), 1000, -1), Vector::new(0, 0, 0));
}

#[test]
fn specular_uses_the_base_colour() {
    let material = Material::new(Vector::new(255, 0, 32), 10);
    assert_eq!(phong_specular(&material, &white(), 1000, 1000), Vector::new(255, 0, 32));
    assert_eq!(phong_specular(&material, &white(), 1000, 500), Vector::new(127, 0, 16));
}

#[test]
fn phong_red_at_full_incidence() {
    // A (255, 0, 0) material, the light placed for full incidence, ambient
    // and specular silenced: the centre pixel is pure red.
    let material = Material::new(Vector::new(255, 0, 0), 10);
    let colour = phong(&material, &white(), 0, 1000, -1, false);
    assert_eq!(colour, Vector::new(255, 0, 0));
}

#[test]
fn phong_saturates_at_full_white() {
    let material = Material::new(Vector::new(255, 255, 255), 10);
    let colour = phong(&material, &white(), 1000, 1000, 1000, false);
    assert_eq!(colour, Vector::new(255, 255, 255));
}

#[test]
fn phong_sums_the_three_terms() {
    let material = Material::new(Vector::new(100, 0, 32), 10);
    let diffuse = phong_diffuse(&material, &white(), 500);
    let ambient = phong_ambient(&material, &white(), 300, false);
    let specular = phong_specular(&material, &white(), 500, 200);
    let expected = diffuse.saturating_add(&ambient).saturating_add(&specular);
    assert_eq!(phong(&material, &white(), 300, 500, 200, false), expected);
}
