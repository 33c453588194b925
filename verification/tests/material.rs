use ray_tracing::{burgundy, burnt_orange, zima_blue, ColourChannel, LightSource, Material, Vector};

#[test]
fn named_colours() {
    assert_eq!(zima_blue(), Vector::new(26, 179, 249));
    assert_eq!(burgundy(), Vector::new(128, 0, 32));
    assert_eq!(burnt_orange(), Vector::new(204, 85, 0));
}

#[test]
fn default_material_is_burgundy() {
    let material = Material::default();
    assert_eq!(material.colour(), burgundy());
    assert_eq!(material.specular_coefficient(), 10);
}

#[test]
fn default_with_colour_keeps_colour() {
    let material = Material::default_with_colour(zima_blue());
    assert_eq!(material.colour(), zima_blue());
    assert_eq!(material.specular_coefficient(), 10);
}

#[test]
fn specular_k_is_the_base_colour() {
    let material = Material::new(Vector::new(10, 20, 30), 50);
    assert_eq!(material.specular_k(), Vector::new(10, 20, 30));
    assert_eq!(material.specular_coefficient(), 50);
}

#[test]
fn ambient_k_scales_each_channel() {
    let material = Material::new(Vector::new(255, 0, 32), 10);
    let ambient = material.ambient_k(300);
    assert_eq!(ambient, Vector::new(300, 0, 37));
    assert_eq!(material.ambient_k(0), Vector::new(0, 0, 0));
    assert_eq!(material.ambient_k(1000), Vector::new(1000, 0, 125));
}

#[test]
fn set_colour_channel_leaves_others_alone() {
    let mut material = Material::new(Vector::new(10, 20, 30), 10);
    material.set_colour_channel(&ColourChannel::Red, 255);
    assert_eq!(material.colour(), Vector::new(255, 20, 30));
    material.set_colour_channel(&ColourChannel::Green, 0);
    assert_eq!(material.colour(), Vector::new(255, 0, 30));
    material.set_colour_channel(&ColourChannel::Blue, 7);
    assert_eq!(material.colour(), Vector::new(255, 0, 7));
    assert_eq!(material.specular_coefficient(), 10);
}

#[test]
fn set_colour_replaces_all_channels() {
    let mut material = Material::default();
    material.set_colour(&Vector::new(1, 2, 3));
    assert_eq!(material.colour(), Vector::new(1, 2, 3));
    material.set_specular_coefficient(99);
    assert_eq!(material.specular_coefficient(), 99);
    assert_eq!(material.colour(), Vector::new(1, 2, 3));
}

#[test]
fn default_light_source() {
    let light = LightSource::default();
    assert_eq!(light.position, Vector::new(-500, -350, -350));
    assert_eq!(light.colour, Vector::new(1000, 1000, 1000));
}
