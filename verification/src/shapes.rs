use vstd::prelude::*;

verus! {

use crate::arith::div_trunc;
use crate::arith::isqrt;
use crate::arith::lemma_div_trunc_bound;
use crate::arith::lemma_div_trunc_exact;
use crate::arith::lemma_sqrt_floor;
use crate::arith::sqrt_floor;
use crate::lighting::COORD_LIMIT;
use crate::lighting::Intersection;
use crate::lighting::LightSource;
use crate::lighting::Ray;
use crate::lighting::in_coord_bounds;
use crate::material::Material;
use crate::vector::ColourChannel;
use crate::vector::PixelColour;
use crate::vector::Point;
use crate::vector::Vec3;
use crate::vector::Vector;
use crate::vector::Vector3D;
use crate::vector::fits;
use crate::vector::lemma_direction_components;
use crate::vector::normalised;

/// Bound on the quadratic coefficients that `solve_t` accepts; it keeps every
/// intermediate value of the computation exactly representable.
pub const SOLVE_COEFF_LIMIT: i64 = 200_000_000_000_000_000;

/// A sphere: the one geometric primitive of the scene.
#[derive(Copy, Clone)]
pub struct Sphere {
    pub center: Point,
    pub radius: i64,
    pub material: Material,
}

impl Sphere {
    /// Whether the sphere lies within the scene coordinate bound.
    pub open spec fn in_scene_bounds(self) -> bool {
        &&& in_coord_bounds(self.center@)
        &&& -COORD_LIMIT <= self.radius <= COORD_LIMIT
    }

    pub fn new(c: Point, r: i64, material: Material) -> (s: Self)
        ensures
            s.center == c,
            s.radius == r,
            s.material == material,
    {
        Sphere { center: c, radius: r, material }
    }

    pub fn new_with_colour(c: Point, r: i64, colour: PixelColour) -> (s: Self)
        ensures
            s.center == c,
            s.radius == r,
            s.material.colour == colour,
            s.material.specular_coefficient == crate::material::DEFAULT_SPECULAR_COEFFICIENT,
    {
        let material = Material::default_with_colour(colour);
        Sphere { center: c, radius: r, material }
    }

    pub fn default_with_pos(c: Point) -> (s: Self)
        ensures
            s.center == c,
            s.radius == 100,
            s.material.colour@ == (Vec3 { x: 128, y: 0, z: 32 }),
            s.material.specular_coefficient == crate::material::DEFAULT_SPECULAR_COEFFICIENT,
    {
        let mut sphere = Self::default();
        sphere.center = c;
        sphere
    }

    /// Grow or shrink the radius by `delta`. The result may become
    /// non-positive; such a sphere is simply never visibly hit.
    pub fn adjust_radius(&mut self, delta: i64)
        requires
            i64::MIN <= old(self).radius + delta <= i64::MAX,
        ensures
            final(self).radius == old(self).radius + delta,
            final(self).center == old(self).center,
            final(self).material == old(self).material,
    {
        self.radius = self.radius + delta;
    }

    pub fn set_position(&mut self, new_position: Point)
        ensures
            final(self).center == new_position,
            final(self).radius == old(self).radius,
            final(self).material == old(self).material,
    {
        self.center = new_position;
    }

    pub fn set_x(&mut self, new_x: i64)
        ensures
            final(self).center.x == new_x,
            final(self).center.y == old(self).center.y,
            final(self).center.z == old(self).center.z,
            final(self).radius == old(self).radius,
            final(self).material == old(self).material,
    {
        self.center.x = new_x;
    }

    pub fn set_y(&mut self, new_y: i64)
        ensures
            final(self).center.y == new_y,
            final(self).center.x == old(self).center.x,
            final(self).center.z == old(self).center.z,
            final(self).radius == old(self).radius,
            final(self).material == old(self).material,
    {
        self.center.y = new_y;
    }

    pub fn set_z(&mut self, new_z: i64)
        ensures
            final(self).center.z == new_z,
            final(self).center.x == old(self).center.x,
            final(self).center.y == old(self).center.y,
            final(self).radius == old(self).radius,
            final(self).material == old(self).material,
    {
        self.center.z = new_z;
    }

    pub fn set_colour(&mut self, new_colour: &PixelColour)
        ensures
            final(self).material.colour == *new_colour,
            final(self).material.specular_coefficient == old(self).material.specular_coefficient,
            final(self).center == old(self).center,
            final(self).radius == old(self).radius,
    {
        self.material.set_colour(&new_colour);
    }

    pub fn set_colour_channel(&mut self, channel: &ColourChannel, value: u8)
        ensures
            final(self).material.colour == old(self).material.colour.spec_with_channel(
                *channel,
                value,
            ),
            final(self).material.specular_coefficient == old(self).material.specular_coefficient,
            final(self).center == old(self).center,
            final(self).radius == old(self).radius,
    {
        self.material.set_colour_channel(channel, value);
    }
}

impl Default for Sphere {
    /// The default sphere: centered at the origin with radius 100 and the
    /// default material.
    fn default() -> (s: Self)
        ensures
            s.center@ == (Vec3 { x: 0, y: 0, z: 0 }),
            s.radius == 100,
            s.material.colour@ == (Vec3 { x: 128, y: 0, z: 32 }),
            s.material.specular_coefficient == crate::material::DEFAULT_SPECULAR_COEFFICIENT,
    {
        Self {
            center: Vector::new(0, 0, 0),
            radius: 100,
            material: Material::default(),
        }
    }
}

/// Discriminant of the quadratic `a*t^2 + b*t + c`.
pub open spec fn discriminant(a: int, b: int, c: int) -> int {
    b * b - 4 * a * c
}

/// The hit, if any, that the quadratic `a*t^2 + b*t + c` with `a > 0` yields.
///
/// A negative discriminant is a miss. A zero discriminant is the tangent
/// case: the single root, an outside hit, whatever its sign. Otherwise the
/// root signs are read off the numerators `-b - s` and `-b + s`, with `s` the
/// floor square root of the discriminant: both positive takes the nearer
/// root as an outside hit; only the larger positive means the origin is
/// inside the sphere; neither positive leaves the sphere behind the ray.
/// Returned parameters are quotients truncated toward zero.
pub open spec fn solve_t_spec(a: int, b: int, c: int) -> Option<(int, bool)> {
    let disc = discriminant(a, b, c);
    if disc < 0 {
        None
    } else if disc == 0 {
        Some((div_trunc(-b, 2 * a), false))
    } else {
        let s = sqrt_floor(disc);
        if -b - s > 0 {
            Some((div_trunc(-b - s, 2 * a), false))
        } else if -b + s > 0 {
            Some((div_trunc(-b + s, 2 * a), true))
        } else {
            None
        }
    }
}

/// Solve `a*t^2 + b*t + c = 0` for the nearest relevant root, and report
/// whether the ray origin lies inside the surface.
pub fn solve_t(a: i64, b: i64, c: i64) -> (r: Option<(i64, bool)>)
    requires
        0 < a <= SOLVE_COEFF_LIMIT,
        -SOLVE_COEFF_LIMIT <= b <= SOLVE_COEFF_LIMIT,
        -SOLVE_COEFF_LIMIT <= c <= SOLVE_COEFF_LIMIT,
    ensures
        (r is None) <==> (solve_t_spec(a as int, b as int, c as int) is None),
        r matches Some(p) ==> solve_t_spec(a as int, b as int, c as int) == Some((
            p.0 as int,
            p.1,
        )),
        r matches Some(p) ==> -4 * SOLVE_COEFF_LIMIT <= p.0 <= 4 * SOLVE_COEFF_LIMIT,
{
    let aw = a as i128;
    let bw = b as i128;
    let cw = c as i128;
    proof {
        assert(0 <= bw * bw <= 40_000_000_000_000_000_000_000_000_000_000_000int)
            by (nonlinear_arith)
            requires
                -200_000_000_000_000_000 <= bw <= 200_000_000_000_000_000,
        ;
        assert(-40_000_000_000_000_000_000_000_000_000_000_000int <= aw * cw
            <= 40_000_000_000_000_000_000_000_000_000_000_000int) by (nonlinear_arith)
            requires
                0 < aw <= 200_000_000_000_000_000,
                -200_000_000_000_000_000 <= cw <= 200_000_000_000_000_000,
        ;
        assert((4 * (aw as int)) * (cw as int) == 4 * ((aw as int) * (cw as int)))
            by (nonlinear_arith);
    }
    let disc: i128 = bw * bw - 4 * (aw * cw);
    if disc < 0 {
        None
    } else if disc == 0 {
        proof {
            lemma_div_trunc_bound(-(bw as int), 2 * (aw as int));
        }
        let t = (-bw) / (2 * aw);
        Some((t as i64, false))
    } else {
        let su = isqrt(disc as u128);
        proof {
            assert(su as int <= 600_000_000_000_000_000int) by (nonlinear_arith)
                requires
                    su as int >= 0,
                    (su as int) * (su as int)
                        <= 200_000_000_000_000_000_000_000_000_000_000_000int,
            ;
            lemma_div_trunc_bound(-(bw as int) - (su as int), 2 * (aw as int));
            lemma_div_trunc_bound(-(bw as int) + (su as int), 2 * (aw as int));
        }
        let s = su as i128;
        let minus_num = -bw - s;
        let plus_num = -bw + s;
        if minus_num > 0 {
            Some(((minus_num / (2 * aw)) as i64, false))
        } else if plus_num > 0 {
            Some(((plus_num / (2 * aw)) as i64, true))
        } else {
            None
        }
    }
}

impl Sphere {
    /// Quadratic coefficient `b` of this sphere against `ray`: twice the
    /// projection of the origin offset onto the direction, scaled for the
    /// direction's thousandths.
    pub open spec fn coeff_b(self, ray: Ray) -> int {
        2000 * ray.origin@.minus(self.center@).dot(ray.direction@)
    }

    /// Quadratic coefficient `c` of this sphere against `ray`: the squared
    /// origin offset less the squared radius, scaled for the direction's
    /// thousandths.
    pub open spec fn coeff_c(self, ray: Ray) -> int {
        1_000_000 * (ray.origin@.minus(self.center@).norm_sq() - self.radius * self.radius)
    }

    /// The hit this sphere yields against `ray`. A sphere whose radius has
    /// shrunk to zero or below is never visibly hit; otherwise the quadratic
    /// decides on the ray's coefficients.
    pub open spec fn spec_hit(self, ray: Ray) -> Option<(int, bool)> {
        if self.radius <= 0 {
            None
        } else {
            solve_t_spec(ray.direction@.norm_sq(), self.coeff_b(ray), self.coeff_c(ray))
        }
    }

    /// The nearest intersection of `ray` with this sphere's surface, if one
    /// lies ahead of the ray origin. The returned parameter is a distance in
    /// world units, truncated: an exit less than one unit ahead comes back
    /// as parameter zero, still flagged as the hit it is.
    pub fn intersection(&self, ray: &Ray, light_source: &LightSource) -> (r: Option<Intersection>)
        requires
            self.in_scene_bounds(),
            ray.castable(),
        ensures
            (r is None) <==> (self.spec_hit(*ray) is None),
            r matches Some(i) ==> {
                &&& self.spec_hit(*ray) == Some((
                    i.t as int,
                    i.is_inside,
                ))
                &&& i.point@.x == ray.origin@.x + div_trunc(ray.direction@.x * i.t, 1000)
                &&& i.point@.y == ray.origin@.y + div_trunc(ray.direction@.y * i.t, 1000)
                &&& i.point@.z == ray.origin@.z + div_trunc(ray.direction@.z * i.t, 1000)
                &&& i.object == *self
                &&& i.ray == *ray
                &&& i.light_source == *light_source
            },
    {
        if self.radius <= 0 {
            return None;
        }
        proof {
            lemma_direction_components(ray.direction@);
            lemma_coeff_bounds(ray.origin@, self.center@, ray.direction@, self.radius as int);
        }
        let v = ray.origin.sub(&self.center);
        let a = ray.direction.dot(&ray.direction);
        let b = 2000 * (v.dot(&ray.direction));
        let c = 1_000_000 * (v.dot(&v) - self.radius * self.radius);
        if let Some((t, is_inside)) = solve_t(a, b, c) {
            proof {
                lemma_hit_parameter_bound(
                    a as int,
                    b as int,
                    c as int,
                    t as int,
                    is_inside,
                );
                lemma_scaled_products(ray.direction@, t as int);
                lemma_div_trunc_bound(ray.direction@.x * t, 1000);
                lemma_div_trunc_bound(ray.direction@.y * t, 1000);
                lemma_div_trunc_bound(ray.direction@.z * t, 1000);
            }
            Some(Intersection::new(
                t,
                ray.point(t),
                *self,
                *ray,
                *light_source,
                is_inside,
            ))
        } else {
            None
        }
    }

    /// The surface normal at a point of the sphere: the unit direction from
    /// the center out through the point.
    pub fn surface_normal(&self, point: &Point) -> (r: Vector3D)
        requires
            fits::<i64>(point@.x - self.center@.x),
            fits::<i64>(point@.y - self.center@.y),
            fits::<i64>(point@.z - self.center@.z),
            point@.minus(self.center@).norm_sq() <= u64::MAX,
        ensures
            r@ == normalised(point@.minus(self.center@)),
    {
        let mut surface_normal = point.sub(&self.center);
        surface_normal.normalise();

        surface_normal
    }

    pub fn material(&self) -> (r: Material)
        ensures
            r == self.material,
    {
        self.material
    }
}

/// Scaling a banded direction by a bounded hit parameter keeps every product
/// representable.
proof fn lemma_scaled_products(d: Vec3, t: int)
    requires
        990_000 <= d.norm_sq() <= 1_030_000,
        -3_000_000_000_000 <= t <= 3_000_000_000_000,
    ensures
        -3_045_000_000_000_000 <= d.x * t <= 3_045_000_000_000_000,
        -3_045_000_000_000_000 <= d.y * t <= 3_045_000_000_000_000,
        -3_045_000_000_000_000 <= d.z * t <= 3_045_000_000_000_000,
{
    lemma_direction_components(d);
    assert(-3_045_000_000_000_000 <= d.x * t <= 3_045_000_000_000_000) by (nonlinear_arith)
        requires
            -1015 <= d.x <= 1015,
            -3_000_000_000_000 <= t <= 3_000_000_000_000,
    ;
    assert(-3_045_000_000_000_000 <= d.y * t <= 3_045_000_000_000_000) by (nonlinear_arith)
        requires
            -1015 <= d.y <= 1015,
            -3_000_000_000_000 <= t <= 3_000_000_000_000,
    ;
    assert(-3_045_000_000_000_000 <= d.z * t <= 3_045_000_000_000_000) by (nonlinear_arith)
        requires
            -1015 <= d.z <= 1015,
            -3_000_000_000_000 <= t <= 3_000_000_000_000,
    ;
}

/// The quadratic coefficients of a bounded sphere against a castable ray are
/// small enough for `solve_t`, and every intermediate product is
/// representable.
proof fn lemma_coeff_bounds(o: Vec3, c: Vec3, u: Vec3, radius: int)
    requires
        in_coord_bounds(o),
        in_coord_bounds(c),
        -COORD_LIMIT <= radius <= COORD_LIMIT,
        990_000 <= u.norm_sq() <= 1_030_000,
    ensures
        -203_000_000 <= o.minus(c).x * u.x <= 203_000_000,
        -203_000_000 <= o.minus(c).y * u.y <= 203_000_000,
        -203_000_000 <= o.minus(c).z * u.z <= 203_000_000,
        0 <= o.minus(c).x * o.minus(c).x <= 40_000_000_000,
        0 <= o.minus(c).y * o.minus(c).y <= 40_000_000_000,
        0 <= o.minus(c).z * o.minus(c).z <= 40_000_000_000,
        0 <= radius * radius <= 10_000_000_000,
{
    let v = o.minus(c);
    lemma_direction_components(u);
    assert(-203_000_000 <= v.x * u.x <= 203_000_000) by (nonlinear_arith)
        requires
            -200_000 <= v.x <= 200_000,
            -1015 <= u.x <= 1015,
    ;
    assert(-203_000_000 <= v.y * u.y <= 203_000_000) by (nonlinear_arith)
        requires
            -200_000 <= v.y <= 200_000,
            -1015 <= u.y <= 1015,
    ;
    assert(-203_000_000 <= v.z * u.z <= 203_000_000) by (nonlinear_arith)
        requires
            -200_000 <= v.z <= 200_000,
            -1015 <= u.z <= 1015,
    ;
    assert(0 <= v.x * v.x <= 40_000_000_000) by (nonlinear_arith)
        requires
            -200_000 <= v.x <= 200_000,
    ;
    assert(0 <= v.y * v.y <= 40_000_000_000) by (nonlinear_arith)
        requires
            -200_000 <= v.y <= 200_000,
    ;
    assert(0 <= v.z * v.z <= 40_000_000_000) by (nonlinear_arith)
        requires
            -200_000 <= v.z <= 200_000,
    ;
    assert(0 <= radius * radius <= 10_000_000_000) by (nonlinear_arith)
        requires
            -100_000 <= radius <= 100_000,
    ;
}

/// A hit parameter returned for scene-bounded coefficients is itself
/// bounded: at most the worst numerator of the root quotients.
proof fn lemma_hit_parameter_bound(a: int, b: int, c: int, t: int, inside: bool)
    requires
        990_000 <= a <= 1_030_000,
        -1_300_000_000_000 <= b <= 1_300_000_000_000,
        -130_000_000_000_000_000 <= c <= 130_000_000_000_000_000,
        solve_t_spec(a, b, c) == Some((t, inside)),
    ensures
        -3_000_000_000_000 <= t <= 3_000_000_000_000,
{
    let disc = discriminant(a, b, c);
    assert(0 <= b * b <= 1_690_000_000_000_000_000_000_000int) by (nonlinear_arith)
        requires
            -1_300_000_000_000 <= b <= 1_300_000_000_000,
    ;
    assert(-134_000_000_000_000_000_000_000int <= a * c <= 134_000_000_000_000_000_000_000int)
        by (nonlinear_arith)
        requires
            990_000 <= a <= 1_030_000,
            -130_000_000_000_000_000 <= c <= 130_000_000_000_000_000,
    ;
    assert((4 * a) * c == 4 * (a * c)) by (nonlinear_arith);
    assert(disc <= 2_250_000_000_000_000_000_000_000int);
    if disc == 0 {
        lemma_div_trunc_bound(-b, 2 * a);
    } else if disc > 0 {
        crate::arith::lemma_sqrt_floor_exists(disc);
        let s = sqrt_floor(disc);
        assert(s <= 1_500_000_000_000int) by (nonlinear_arith)
            requires
                s >= 0,
                s * s <= 2_250_000_000_000_000_000_000_000int,
        ;
        lemma_div_trunc_bound(-b - s, 2 * a);
        lemma_div_trunc_bound(-b + s, 2 * a);
    }
}

/// One component of the residual of a vector against its projection,
/// expanded.
proof fn lemma_residual_expansion(x: int, y: int, aa: int, pp: int)
    ensures
        (x * aa - y * pp) * (x * aa - y * pp) == (x * x) * (aa * aa) - 2 * ((x * y) * (aa * pp)) + (
        y * y) * (pp * pp),
{
    let s = x * aa;
    let t = y * pp;
    assert((s - t) * (s - t) == s * s - 2 * (s * t) + t * t) by (nonlinear_arith);
    assert(s * s == (x * x) * (aa * aa)) by (nonlinear_arith)
        requires
            s == x * aa,
    ;
    assert(t * t == (y * y) * (pp * pp)) by (nonlinear_arith)
        requires
            t == y * pp,
    ;
    assert(s * t == (x * y) * (aa * pp)) by (nonlinear_arith)
        requires
            s == x * aa,
            t == y * pp,
    ;
}

/// Dot products never exceed the product of magnitudes: the residual of one
/// vector against its projection onto the other has a non-negative squared
/// magnitude, which is exactly the difference.
pub proof fn lemma_cauchy_schwarz(v: Vec3, d: Vec3)
    ensures
        v.dot(d) * v.dot(d) <= v.norm_sq() * d.norm_sq(),
{
    let p = v.dot(d);
    let q = v.norm_sq();
    let big_a = d.norm_sq();
    assert(d.x * d.x >= 0) by (nonlinear_arith);
    assert(d.y * d.y >= 0) by (nonlinear_arith);
    assert(d.z * d.z >= 0) by (nonlinear_arith);
    if big_a == 0 {
        assert(d.x == 0 && d.y == 0 && d.z == 0) by (nonlinear_arith)
            requires
                d.x * d.x <= 0,
                d.y * d.y <= 0,
                d.z * d.z <= 0,
        ;
        assert(v.x * d.x == 0 && v.y * d.y == 0 && v.z * d.z == 0) by (nonlinear_arith)
            requires
                d.x == 0 && d.y == 0 && d.z == 0,
        ;
        assert(p * p == 0) by (nonlinear_arith)
            requires
                p == 0,
        ;
        assert(q * big_a == 0) by (nonlinear_arith)
            requires
                big_a == 0,
        ;
    } else {
        lemma_residual_expansion(v.x, d.x, big_a, p);
        lemma_residual_expansion(v.y, d.y, big_a, p);
        lemma_residual_expansion(v.z, d.z, big_a, p);
        assert((v.x * v.x) * (big_a * big_a) + (v.y * v.y) * (big_a * big_a) + (v.z * v.z) * (big_a
            * big_a) == (v.x * v.x + v.y * v.y + v.z * v.z) * (big_a * big_a))
            by (nonlinear_arith);
        assert((v.x * d.x) * (big_a * p) + (v.y * d.y) * (big_a * p) + (v.z * d.z) * (big_a * p)
            == (v.x * d.x + v.y * d.y + v.z * d.z) * (big_a * p)) by (nonlinear_arith);
        assert((d.x * d.x) * (p * p) + (d.y * d.y) * (p * p) + (d.z * d.z) * (p * p) == (d.x * d.x
            + d.y * d.y + d.z * d.z) * (p * p)) by (nonlinear_arith);
        assert((v.x * d.x + v.y * d.y + v.z * d.z) * (big_a * p) == big_a * (p * p))
            by (nonlinear_arith)
            requires
                p == v.x * d.x + v.y * d.y + v.z * d.z,
        ;
        assert((v.x * v.x + v.y * v.y + v.z * v.z) * (big_a * big_a) == q * (big_a * big_a))
            by (nonlinear_arith)
            requires
                q == v.x * v.x + v.y * v.y + v.z * v.z,
        ;
        assert((d.x * d.x + d.y * d.y + d.z * d.z) * (p * p) == big_a * (p * p))
            by (nonlinear_arith)
            requires
                big_a == d.x * d.x + d.y * d.y + d.z * d.z,
        ;
        assert((v.x * big_a - d.x * p) * (v.x * big_a - d.x * p) >= 0) by (nonlinear_arith);
        assert((v.y * big_a - d.y * p) * (v.y * big_a - d.y * p) >= 0) by (nonlinear_arith);
        assert((v.z * big_a - d.z * p) * (v.z * big_a - d.z * p) >= 0) by (nonlinear_arith);
        assert(q * (big_a * big_a) - big_a * (p * p) >= 0);
        assert(q * (big_a * big_a) - big_a * (p * p) == big_a * (q * big_a - p * p))
            by (nonlinear_arith);
        assert(q * big_a - p * p >= 0) by (nonlinear_arith)
            requires
                big_a * (q * big_a - p * p) >= 0,
                big_a > 0,
        ;
    }
}

/// A ray cast from outside a sphere, straight at its center along a
/// direction of the model's exact unit length, hits the near surface at
/// exactly the center distance less the radius, an outside hit.
pub proof fn lemma_ray_hits_sphere_head_on(o: Vec3, u: Vec3, k: int, r: int)
    requires
        u.norm_sq() == 1_000_000,
        k >= 1,
        0 < r < 1000 * k,
    ensures
        ({
            let center = o.plus(u.scaled(k));
            let v = o.minus(center);
            solve_t_spec(1_000_000, 2000 * v.dot(u), 1_000_000 * (v.norm_sq() - r * r))
                == Some((1000 * k - r, false))
        }),
{
    let center = o.plus(u.scaled(k));
    let v = o.minus(center);
    assert(v.x == -(u.x * k) && v.y == -(u.y * k) && v.z == -(u.z * k));
    assert(v.dot(u) == -(1_000_000 * k)) by {
        assert((-(u.x * k)) * u.x + (-(u.y * k)) * u.y + (-(u.z * k)) * u.z == -(k * (u.x * u.x
            + u.y * u.y + u.z * u.z))) by (nonlinear_arith);
        assert(k * (u.x * u.x + u.y * u.y + u.z * u.z) == 1_000_000 * k) by (nonlinear_arith)
            requires
                u.x * u.x + u.y * u.y + u.z * u.z == 1_000_000,
        ;
    }
    assert(v.norm_sq() == 1_000_000 * (k * k)) by {
        assert((-(u.x * k)) * (-(u.x * k)) == (u.x * u.x) * (k * k)) by (nonlinear_arith);
        assert((-(u.y * k)) * (-(u.y * k)) == (u.y * u.y) * (k * k)) by (nonlinear_arith);
        assert((-(u.z * k)) * (-(u.z * k)) == (u.z * u.z) * (k * k)) by (nonlinear_arith);
        assert((u.x * u.x) * (k * k) + (u.y * u.y) * (k * k) + (u.z * u.z) * (k * k) == (u.x * u.x
            + u.y * u.y + u.z * u.z) * (k * k)) by (nonlinear_arith);
        assert((u.x * u.x + u.y * u.y + u.z * u.z) * (k * k) == 1_000_000 * (k * k))
            by (nonlinear_arith)
            requires
                u.x * u.x + u.y * u.y + u.z * u.z == 1_000_000,
        ;
    }
    let b = 2000 * v.dot(u);
    let cc = 1_000_000 * (v.norm_sq() - r * r);
    assert(b == -(2_000_000_000 * k));
    assert(b * b == 4_000_000_000_000_000_000 * (k * k)) by (nonlinear_arith)
        requires
            b == -(2_000_000_000 * k),
    ;
    assert(cc == 1_000_000_000_000 * (k * k) - 1_000_000 * (r * r));
    assert(discriminant(1_000_000, b, cc) == 4_000_000_000_000 * (r * r));
    assert(r * r >= 1) by (nonlinear_arith)
        requires
            r >= 1,
    ;
    assert((2_000_000 * r) * (2_000_000 * r) == 4_000_000_000_000 * (r * r)) by (nonlinear_arith);
    assert(4_000_000_000_000 * (r * r) < (2_000_000 * r + 1) * (2_000_000 * r + 1))
        by (nonlinear_arith)
        requires
            r >= 1,
    ;
    lemma_sqrt_floor(4_000_000_000_000 * (r * r), 2_000_000 * r);
    assert(-b - sqrt_floor(discriminant(1_000_000, b, cc)) == 2_000_000_000 * k - 2_000_000 * r);
    lemma_div_trunc_exact(1000 * k - r, 2_000_000);
    assert((1000 * k - r) * 2_000_000 == 2_000_000_000 * k - 2_000_000 * r);
}

/// A ray that starts strictly inside a sphere exits through its surface: the
/// intersection is reported, with the inside flag set.
pub proof fn lemma_ray_inside_sphere(o: Vec3, c: Vec3, u: Vec3, r: int)
    requires
        990_000 <= u.norm_sq() <= 1_030_000,
        0 < r <= COORD_LIMIT,
        o.minus(c).norm_sq() < r * r,
    ensures
        ({
            let v = o.minus(c);
            solve_t_spec(u.norm_sq(), 2000 * v.dot(u), 1_000_000 * (v.norm_sq() - r * r))
                matches Some(p) && p.1 == true
        }),
{
    let v = o.minus(c);
    let p = v.dot(u);
    let q = v.norm_sq();
    let big_a = u.norm_sq();
    let b = 2000 * p;
    let cc = 1_000_000 * (q - r * r);
    lemma_cauchy_schwarz(v, u);
    assert(v.x * v.x >= 0) by (nonlinear_arith);
    assert(v.y * v.y >= 0) by (nonlinear_arith);
    assert(v.z * v.z >= 0) by (nonlinear_arith);
    assert(0 < r * r <= 10_000_000_000int) by (nonlinear_arith)
        requires
            0 < r <= 100_000,
    ;
    assert(p * p <= 10_300_000_000_000_000int) by (nonlinear_arith)
        requires
            p * p <= q * big_a,
            0 <= q <= 10_000_000_000,
            0 < big_a <= 1_030_000,
    ;
    assert(-102_000_000 <= p <= 102_000_000) by (nonlinear_arith)
        requires
            p * p <= 10_300_000_000_000_000int,
    ;
    let disc = discriminant(big_a, b, cc);
    assert(b * b == 4_000_000 * (p * p)) by (nonlinear_arith)
        requires
            b == 2000 * p,
    ;
    assert(cc <= -1_000_000);
    assert(big_a * cc <= -(990_000 * 1_000_000int)) by (nonlinear_arith)
        requires
            big_a >= 990_000,
            cc <= -1_000_000,
    ;
    assert((4 * big_a) * cc == 4 * (big_a * cc)) by (nonlinear_arith);
    assert(disc >= b * b + 3_960_000_000_000int);
    assert(0 <= b * b) by (nonlinear_arith);
    let ab = if b >= 0 { b } else { -b };
    assert(ab * ab == b * b) by (nonlinear_arith)
        requires
            ab == b || ab == -b,
    ;
    assert((ab + 1) * (ab + 1) == ab * ab + 2 * ab + 1) by (nonlinear_arith);
    assert(ab <= 204_000_000_000int);
    assert((ab + 1) * (ab + 1) <= disc);
    assert(disc > 0);
    crate::arith::lemma_sqrt_floor_exists(disc);
    let s = sqrt_floor(disc);
    if s <= ab {
        assert((s + 1) * (s + 1) <= (ab + 1) * (ab + 1)) by (nonlinear_arith)
            requires
                0 <= s + 1 <= ab + 1,
        ;
    }
    assert(s >= ab + 1);
    assert(-b - s < 0);
    assert(-b + s > 0);
}

/// A ray whose perpendicular offset from a sphere's center exceeds the
/// radius misses the sphere entirely.
pub proof fn lemma_ray_misses_sphere(o: Vec3, c: Vec3, u: Vec3, r: int)
    requires
        u.norm_sq() > 0,
        u.norm_sq() * o.minus(c).norm_sq() - o.minus(c).dot(u) * o.minus(c).dot(u) > u.norm_sq()
            * (r * r),
    ensures
        solve_t_spec(
            u.norm_sq(),
            2000 * o.minus(c).dot(u),
            1_000_000 * (o.minus(c).norm_sq() - r * r),
        ) is None,
{
    let v = o.minus(c);
    let p = v.dot(u);
    let q = v.norm_sq();
    let big_a = u.norm_sq();
    let b = 2000 * p;
    let cc = 1_000_000 * (q - r * r);
    assert(b * b == 4_000_000 * (p * p)) by (nonlinear_arith)
        requires
            b == 2000 * p,
    ;
    assert((4 * big_a) * cc == 4_000_000 * (big_a * (q - r * r))) by (nonlinear_arith)
        requires
            cc == 1_000_000 * (q - r * r),
    ;
    assert(big_a * (q - r * r) == big_a * q - big_a * (r * r)) by (nonlinear_arith);
    assert(discriminant(big_a, b, cc) == 4_000_000 * (p * p) - 4_000_000 * (big_a * q - big_a * (r
        * r)));
    assert(discriminant(big_a, b, cc) < 0);
}

} // verus!
