use ray_tracing::{
    closest_hit, closest_intersect, solve_t, Intersection, LightSource, Ray, Sphere, Vector,
};

#[test]
fn no_solution_when_disc_is_negative() {
    assert!(solve_t(2, 2, 2).is_none());
}

#[test]
fn solution_is_correct_when_disc_is_zero() {
    assert_eq!(solve_t(1, 2, 1), Some((-1, false)));
}

#[test]
fn nearest_root_when_both_ahead() {
    // t^2 - 300t + 20000 = 0 has roots 100 and 200.
    assert_eq!(solve_t(1, -300, 20000), Some((100, false)));
}

#[test]
fn inside_hit_when_one_root_ahead() {
    // t^2 - 100t - 20000 = 0 has roots 200 and -100.
    assert_eq!(solve_t(1, -100, -20000), Some((200, true)));
}

#[test]
fn no_solution_when_sphere_behind() {
    // t^2 + 300t + 20000 = 0 has roots -100 and -200.
    assert!(solve_t(1, 300, 20000).is_none());
}

// Directions are given in the model's thousandths: (0, 0, 1000) is the unit
// vector along +z.
fn test_ray(origin: (i64, i64, i64), direction: (i64, i64, i64)) -> Ray {
    Ray {
        origin: Vector::new(origin.0, origin.1, origin.2),
        direction: Vector::new(direction.0, direction.1, direction.2),
    }
}

#[test]
fn ray_hits_sphere() {
    let sphere = Sphere::default(); // radius 100 at the origin
    let ray = test_ray((0, 0, -200), (0, 0, 1000));
    let light = LightSource::default();

    let intersection = sphere.intersection(&ray, &light).expect("head-on ray must hit");
    assert_eq!(intersection.t(), 100);
    assert!(!intersection.is_inside);
    assert_eq!(intersection.point(), Vector::new(0, 0, -100));
}

#[test]
fn ray_misses_sphere() {
    let sphere = Sphere::default();
    let ray = test_ray((0, 300, -200), (0, 0, 1000));
    let light = LightSource::default();

    assert!(sphere.intersection(&ray, &light).is_none());
}

#[test]
fn ray_from_inside_sphere() {
    let sphere = Sphere::default();
    let ray = test_ray((0, 0, 0), (0, 0, 1000));
    let light = LightSource::default();

    let intersection = sphere.intersection(&ray, &light).expect("interior ray must exit");
    assert_eq!(intersection.t(), 100);
    assert!(intersection.is_inside);
}

#[test]
fn ray_from_just_inside_the_surface() {
    // The origin sits less than half a unit from the surface of a radius-10
    // sphere; the exit is still reported, as an inside hit.
    let sphere = Sphere::new(Vector::new(0, 0, 0), 10, ray_tracing::Material::default());
    let ray = test_ray((1, 7, 7), (1000, 0, 0));
    let light = LightSource::default();

    let intersection = sphere.intersection(&ray, &light).expect("interior ray must exit");
    assert!(intersection.is_inside);
    assert_eq!(intersection.t(), 0);
}

#[test]
fn surface_normal_points_outward() {
    let sphere = Sphere::default_with_pos(Vector::new(0, 0, 100));
    let normal = sphere.surface_normal(&Vector::new(0, 0, 200));
    assert_eq!(normal, Vector::new(0, 0, 1000));
    let normal_back = sphere.surface_normal(&Vector::new(0, 0, 0));
    assert_eq!(normal_back, Vector::new(0, 0, -1000));
}

#[test]
fn surface_normal_off_axis() {
    // A 3-4-5 offset from the center: the normal keeps the direction and
    // has the model's unit length.
    let sphere = Sphere::default();
    let normal = sphere.surface_normal(&Vector::new(60, 80, 0));
    assert_eq!(normal, Vector::new(600, 800, 0));
}

#[test]
fn surface_normal_at_short_offsets() {
    // Hit points close to a small sphere's centre still get a near-unit
    // normal.
    let sphere = Sphere::new(Vector::new(0, 0, 0), 10, ray_tracing::Material::default());
    let normal = sphere.surface_normal(&Vector::new(1, 7, 7));
    let norm_sq = normal.x * normal.x + normal.y * normal.y + normal.z * normal.z;
    assert!(994_000 <= norm_sq && norm_sq <= 1_002_001);
    assert_eq!(normal, Vector::new(100, 703, 703));
}

#[test]
fn sphere_mutators() {
    let mut sphere = Sphere::default();
    sphere.set_position(Vector::new(1, 2, 3));
    assert_eq!(sphere.center, Vector::new(1, 2, 3));
    sphere.set_x(-4);
    sphere.set_y(5);
    sphere.set_z(-6);
    assert_eq!(sphere.center, Vector::new(-4, 5, -6));
    sphere.adjust_radius(10);
    assert_eq!(sphere.radius, 110);
    sphere.adjust_radius(-200);
    assert_eq!(sphere.radius, -90);
    sphere.set_colour(&Vector::new(1, 2, 3));
    assert_eq!(sphere.material.colour, Vector::new(1, 2, 3));
}

#[test]
fn non_positive_radius_never_hits() {
    // A sphere shrunk to zero or below silently yields no visible
    // intersections.
    let mut sphere = Sphere::default();
    sphere.adjust_radius(-200); // radius -100
    let ray = test_ray((0, 0, -200), (0, 0, 1000));
    let light = LightSource::default();
    assert!(sphere.intersection(&ray, &light).is_none());
    sphere.adjust_radius(100); // radius 0
    assert!(sphere.intersection(&ray, &light).is_none());
}

fn intersection_at(t: i64) -> Intersection {
    let sphere = Sphere::default();
    let ray = test_ray((0, 0, -200), (0, 0, 1000));
    Intersection::new(
        t,
        Vector::new(0, 0, -200 + t),
        sphere,
        ray,
        LightSource::default(),
        false,
    )
}

#[test]
fn closest_intersect_picks_smallest_t() {
    let intersections = vec![
        Some(intersection_at(120)),
        None,
        Some(intersection_at(80)),
        Some(intersection_at(150)),
    ];
    let closest = closest_intersect(intersections).expect("one hit must win");
    assert_eq!(closest.t(), 80);
}

#[test]
fn closest_intersect_first_wins_ties() {
    let first = intersection_at(80);
    let second = Intersection::new(
        80,
        Vector::new(0, 0, -120),
        Sphere::default_with_pos(Vector::new(50, 0, 0)),
        test_ray((0, 0, -200), (0, 0, 1000)),
        LightSource::default(),
        true,
    );
    let closest =
        closest_intersect(vec![Some(first), Some(second)]).expect("one hit must win");
    assert!(!closest.is_inside);
    assert_eq!(closest.point(), first.point());
}

#[test]
fn closest_intersect_of_nothing() {
    assert!(closest_intersect(vec![]).is_none());
    assert!(closest_intersect(vec![None, None]).is_none());
}

#[test]
fn scene_hit_at_center_and_miss_off_axis() {
    // One sphere of radius 100 at the origin, viewed down the axis from
    // -1000: the axial ray strikes the near surface, a parallel ray offset
    // beyond the radius passes by.
    let shapes = vec![Sphere::default()];
    let light = LightSource::default();

    let center_ray = test_ray((0, 0, -1000), (0, 0, 1000));
    let hit = closest_hit(&shapes, &center_ray, &light).expect("axial ray must hit");
    assert_eq!(hit.t(), 900);
    assert!(!hit.is_inside);

    let off_axis_ray = test_ray((300, 300, -1000), (0, 0, 1000));
    assert!(closest_hit(&shapes, &off_axis_ray, &light).is_none());
}

#[test]
fn scene_nearest_sphere_wins() {
    let shapes = vec![
        Sphere::default_with_pos(Vector::new(0, 0, 500)),
        Sphere::default(),
    ];
    let light = LightSource::default();
    let ray = test_ray((0, 0, -1000), (0, 0, 1000));

    let hit = closest_hit(&shapes, &ray, &light).expect("both spheres lie ahead");
    assert_eq!(hit.t(), 900);
    assert_eq!(hit.object().center, Vector::new(0, 0, 0));
}

#[test]
fn scene_with_no_shapes_has_no_hit() {
    let light = LightSource::default();
    let ray = test_ray((0, 0, -1000), (0, 0, 1000));
    assert!(closest_hit(&vec![], &ray, &light).is_none());
}

#[test]
fn intersection_accessors() {
    let i = intersection_at(42);
    assert_eq!(i.t(), 42);
    assert_eq!(i.point(), Vector::new(0, 0, -158));
    assert_eq!(i.object().radius, 100);
    assert_eq!(i.ray().origin, Vector::new(0, 0, -200));
    assert_eq!(i.light_source().position, Vector::new(-500, -350, -350));
}
