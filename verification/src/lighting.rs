use vstd::prelude::*;

verus! {

use crate::arith::div_trunc;
use crate::arith::lemma_div_trunc_bound;
use crate::material::Material;
use crate::shapes::Sphere;
use crate::vector::LightColour;
use crate::vector::PixelColour;
use crate::vector::Point;
use crate::vector::Vec3;
use crate::vector::Vector;
use crate::vector::Vector3D;
use crate::vector::fits;

/// Half the side length of the world cube that scene coordinates stay in;
/// the bound keeps every intersection computation exact.
pub const COORD_LIMIT: i64 = 100_000;

/// Whether every component of `v` lies within the scene coordinate bound.
pub open spec fn in_coord_bounds(v: Vec3) -> bool {
    &&& -COORD_LIMIT <= v.x <= COORD_LIMIT
    &&& -COORD_LIMIT <= v.y <= COORD_LIMIT
    &&& -COORD_LIMIT <= v.z <= COORD_LIMIT
}

/// The single point light that every intersection consults.
#[derive(Copy, Clone, Debug)]
pub struct LightSource {
    pub position: Point,
    pub colour: LightColour,
}

impl Default for LightSource {
    /// The default light: up, left and behind the reference view, at full
    /// white intensity.
    fn default() -> (r: Self)
        ensures
            r.position@ == (Vec3 { x: -500, y: -350, z: -350 }),
            r.colour@ == (Vec3 { x: 1000, y: 1000, z: 1000 }),
    {
        Self {
            position: Vector::new(-500, -350, -350),
            colour: Vector::new(1000, 1000, 1000),
        }
    }
}

/// A ray cast from an origin point along a direction.
#[derive(Copy, Clone, Debug)]
pub struct Ray {
    pub origin: Point,
    pub direction: Vector3D,
}

impl Ray {
    /// Whether this ray may be cast into a scene: the origin is in bounds
    /// and the direction has the model's unit length — magnitude 1000, to
    /// the tolerance that normalisation guarantees.
    pub open spec fn castable(self) -> bool {
        &&& in_coord_bounds(self.origin@)
        &&& 990_000 <= self.direction@.norm_sq() <= 1_030_000
    }

    /// The point the parameter `t` reaches along the ray: one step of `t`
    /// advances by the direction scaled down from thousandths, so `t` is a
    /// distance in world units.
    pub fn point(&self, t: i64) -> (r: Point)
        requires
            fits::<i64>(self.direction@.x * t),
            fits::<i64>(self.direction@.y * t),
            fits::<i64>(self.direction@.z * t),
            fits::<i64>(self.origin@.x + div_trunc(self.direction@.x * t, 1000)),
            fits::<i64>(self.origin@.y + div_trunc(self.direction@.y * t, 1000)),
            fits::<i64>(self.origin@.z + div_trunc(self.direction@.z * t, 1000)),
        ensures
            r@.x == self.origin@.x + div_trunc(self.direction@.x * t, 1000),
            r@.y == self.origin@.y + div_trunc(self.direction@.y * t, 1000),
            r@.z == self.origin@.z + div_trunc(self.direction@.z * t, 1000),
    {
        proof {
            lemma_div_trunc_bound(self.direction@.x * t, 1000);
            lemma_div_trunc_bound(self.direction@.y * t, 1000);
            lemma_div_trunc_bound(self.direction@.z * t, 1000);
        }
        Vector::new(
            self.origin.x + self.direction.x * t / 1000,
            self.origin.y + self.direction.y * t / 1000,
            self.origin.z + self.direction.z * t / 1000,
        )
    }
}

/// One ray-shape hit: everything the Phong evaluation needs. It lives only
/// for the duration of one pixel's shading and is never stored.
#[derive(Copy, Clone)]
pub struct Intersection {
    /// Distance parameter along the ray at which the hit lies.
    pub t: i64,
    /// The hit point itself.
    pub point: Point,
    /// The shape that was hit.
    pub object: Sphere,
    /// The ray that hit it.
    pub ray: Ray,
    /// The scene's light source.
    pub light_source: LightSource,
    /// Whether the ray origin lies inside the shape's volume.
    pub is_inside: bool,
}

impl Intersection {
    pub fn new(
        t: i64,
        point: Point,
        object: Sphere,
        ray: Ray,
        light_source: LightSource,
        is_inside: bool,
    ) -> (r: Self)
        ensures
            r.t == t,
            r.point == point,
            r.object == object,
            r.ray == ray,
            r.light_source == light_source,
            r.is_inside == is_inside,
    {
        Self { t, point, object, ray, light_source, is_inside }
    }

    pub fn t(&self) -> (r: i64)
        ensures
            r == self.t,
    {
        self.t
    }

    pub fn point(&self) -> (r: Point)
        ensures
            r == self.point,
    {
        self.point
    }

    pub fn object(&self) -> (r: Sphere)
        ensures
            r == self.object,
    {
        self.object
    }

    pub fn ray(&self) -> (r: Ray)
        ensures
            r == self.ray,
    {
        self.ray
    }

    pub fn light_source(&self) -> (r: LightSource)
        ensures
            r == self.light_source,
    {
        self.light_source
    }
}

/// One channel of the ambient term: the material's ambient reflectance (base
/// channel scaled by the coefficient) lit by the light channel, as an 8-bit
/// value, halved on an inside-surface hit as a crude self-shadow.
pub open spec fn ambient_channel(c: int, l: int, k: int, inside: bool) -> int {
    let base = (c * k / 255) * l * 255 / 1_000_000;
    if inside {
        base / 2
    } else {
        base
    }
}

/// One channel of the diffuse term: light times base colour times the
/// incidence clamped into [0, 1000], as an 8-bit value. A light behind the
/// surface contributes zero, never negative colour.
pub open spec fn diffuse_channel(c: int, l: int, n_l_dot: int) -> int {
    c * l * (if n_l_dot < 0 {
        0int
    } else if n_l_dot > 1000 {
        1000int
    } else {
        n_l_dot
    }) / 1_000_000
}

/// One channel of the specular term: black when the light is behind the
/// surface or the reflection points away from the viewer; otherwise light
/// times the specular reflectance (the base colour) times the alignment
/// raised to the specular exponent, handed in thousandths.
pub open spec fn specular_channel(c: int, l: int, n_l_dot: int, alignment_pow: int) -> int {
    if n_l_dot < 0 || alignment_pow < 0 {
        0
    } else {
        c * l * alignment_pow / 1_000_000
    }
}

/// An 8-bit channel sum, saturating at 255.
pub open spec fn clamp255(v: int) -> int {
    if v > 255 {
        255
    } else {
        v
    }
}

/// Ambient term of the Phong evaluation, halved on an inside hit. The light
/// colour and the ambient coefficient are in thousandths.
pub fn phong_ambient(
    material: &Material,
    light: &LightColour,
    ambient_coefficient: u32,
    is_inside: bool,
) -> (r: PixelColour)
    requires
        ambient_coefficient <= 1000,
        light@.x <= 1000 && light@.y <= 1000 && light@.z <= 1000,
    ensures
        r@.x == ambient_channel(material.colour@.x, light@.x, ambient_coefficient as int, is_inside),
        r@.y == ambient_channel(material.colour@.y, light@.y, ambient_coefficient as int, is_inside),
        r@.z == ambient_channel(material.colour@.z, light@.z, ambient_coefficient as int, is_inside),
{
    let ambient_k = material.ambient_k(ambient_coefficient);
    proof {
        lemma_reflectance_in_range(material.colour@.x, ambient_coefficient as int);
        lemma_reflectance_in_range(material.colour@.y, ambient_coefficient as int);
        lemma_reflectance_in_range(material.colour@.z, ambient_coefficient as int);
    }
    let base = Vector::new(
        lit_channel(ambient_k.x, light.x),
        lit_channel(ambient_k.y, light.y),
        lit_channel(ambient_k.z, light.z),
    );
    if is_inside {
        base.div_scalar(2)
    } else {
        base
    }
}

/// Diffuse term of the Phong evaluation. The incidence `n_l_dot` comes in
/// thousandths and is clamped into [0, 1000].
pub fn phong_diffuse(material: &Material, light: &LightColour, n_l_dot: i64) -> (r: PixelColour)
    requires
        light@.x <= 1000 && light@.y <= 1000 && light@.z <= 1000,
    ensures
        r@.x == diffuse_channel(material.colour@.x, light@.x, n_l_dot as int),
        r@.y == diffuse_channel(material.colour@.y, light@.y, n_l_dot as int),
        r@.z == diffuse_channel(material.colour@.z, light@.z, n_l_dot as int),
{
    let clamped: u32 = if n_l_dot < 0 {
        0
    } else if n_l_dot > 1000 {
        1000
    } else {
        n_l_dot as u32
    };
    Vector::new(
        weighted_channel(material.colour.x, light.x, clamped),
        weighted_channel(material.colour.y, light.y, clamped),
        weighted_channel(material.colour.z, light.z, clamped),
    )
}

/// Specular term of the Phong evaluation. The caller hands the alignment
/// raised to the specular exponent in thousandths, or any negative value
/// when the reflection points away from the viewer.
pub fn phong_specular(
    material: &Material,
    light: &LightColour,
    n_l_dot: i64,
    alignment_pow: i64,
) -> (r: PixelColour)
    requires
        light@.x <= 1000 && light@.y <= 1000 && light@.z <= 1000,
        alignment_pow <= 1000,
    ensures
        r@.x == specular_channel(material.colour@.x, light@.x, n_l_dot as int, alignment_pow as int),
        r@.y == specular_channel(material.colour@.y, light@.y, n_l_dot as int, alignment_pow as int),
        r@.z == specular_channel(material.colour@.z, light@.z, n_l_dot as int, alignment_pow as int),
{
    if n_l_dot < 0 || alignment_pow < 0 {
        Vector::new(0, 0, 0)
    } else {
        let specular_k = material.specular_k();
        Vector::new(
            weighted_channel(specular_k.x, light.x, alignment_pow as u32),
            weighted_channel(specular_k.y, light.y, alignment_pow as u32),
            weighted_channel(specular_k.z, light.z, alignment_pow as u32),
        )
    }
}

/// The full Phong evaluation: the saturating sum of the diffuse, ambient and
/// specular terms, channel by channel.
pub fn phong(
    material: &Material,
    light: &LightColour,
    ambient_coefficient: u32,
    n_l_dot: i64,
    alignment_pow: i64,
    is_inside: bool,
) -> (r: PixelColour)
    requires
        ambient_coefficient <= 1000,
        light@.x <= 1000 && light@.y <= 1000 && light@.z <= 1000,
        alignment_pow <= 1000,
    ensures
        r@.x == clamp255(
            clamp255(
                diffuse_channel(material.colour@.x, light@.x, n_l_dot as int) + ambient_channel(
                    material.colour@.x,
                    light@.x,
                    ambient_coefficient as int,
                    is_inside,
                ),
            ) + specular_channel(material.colour@.x, light@.x, n_l_dot as int, alignment_pow as int),
        ),
        r@.y == clamp255(
            clamp255(
                diffuse_channel(material.colour@.y, light@.y, n_l_dot as int) + ambient_channel(
                    material.colour@.y,
                    light@.y,
                    ambient_coefficient as int,
                    is_inside,
                ),
            ) + specular_channel(material.colour@.y, light@.y, n_l_dot as int, alignment_pow as int),
        ),
        r@.z == clamp255(
            clamp255(
                diffuse_channel(material.colour@.z, light@.z, n_l_dot as int) + ambient_channel(
                    material.colour@.z,
                    light@.z,
                    ambient_coefficient as int,
                    is_inside,
                ),
            ) + specular_channel(material.colour@.z, light@.z, n_l_dot as int, alignment_pow as int),
        ),
{
    phong_diffuse(material, light, n_l_dot).saturating_add(
        &phong_ambient(material, light, ambient_coefficient, is_inside),
    ).saturating_add(&phong_specular(material, light, n_l_dot, alignment_pow))
}

/// Under full white light at full incidence, the diffuse term reproduces the
/// material's base colour exactly, channel by channel.
pub proof fn lemma_full_light_diffuse(c: int)
    requires
        0 <= c <= 255,
    ensures
        diffuse_channel(c, 1000, 1000) == c,
{
    assert((c * 1000) * 1000 == c * 1_000_000);
    vstd::arithmetic::div_mod::lemma_div_by_multiple(c, 1_000_000);
}

/// An ambient reflectance channel derived from an 8-bit base channel and a
/// coefficient in thousandths stays within thousandths.
proof fn lemma_reflectance_in_range(c: int, k: int)
    requires
        0 <= c <= 255,
        0 <= k <= 1000,
    ensures
        0 <= c * k / 255 <= 1000,
{
    assert(0 <= c * k <= 255_000) by (nonlinear_arith)
        requires
            0 <= c <= 255,
            0 <= k <= 1000,
    ;
    vstd::arithmetic::div_mod::lemma_div_is_ordered(c * k, 255_000, 255);
    vstd::arithmetic::div_mod::lemma_div_pos_is_pos(c * k, 255);
}

/// A channel weight in thousandths applied to a reflectance in thousandths,
/// brought back to an 8-bit value.
fn lit_channel(reflectance: u32, l: u32) -> (r: u8)
    requires
        reflectance <= 1000,
        l <= 1000,
    ensures
        r as int == reflectance * l * 255 / 1_000_000,
{
    proof {
        assert(0 <= reflectance * l <= 1_000_000) by (nonlinear_arith)
            requires
                0 <= reflectance <= 1000,
                0 <= l <= 1000,
        ;
        vstd::arithmetic::div_mod::lemma_div_is_ordered(
            reflectance as int * l as int * 255,
            255_000_000,
            1_000_000,
        );
    }
    (reflectance * l * 255 / 1_000_000) as u8
}

/// An 8-bit channel lit by a weight in thousandths scaled by a second weight
/// in thousandths.
fn weighted_channel(c: u8, l: u32, w: u32) -> (r: u8)
    requires
        l <= 1000,
        w <= 1000,
    ensures
        r as int == c * l * w / 1_000_000,
{
    proof {
        assert(0 <= c * l <= 255_000) by (nonlinear_arith)
            requires
                0 <= c <= 255,
                0 <= l <= 1000,
        ;
        assert(0 <= (c * l) * w <= 255_000_000) by (nonlinear_arith)
            requires
                0 <= c * l <= 255_000,
                0 <= w <= 1000,
        ;
        vstd::arithmetic::div_mod::lemma_div_is_ordered(
            c as int * l as int * w as int,
            255_000_000,
            1_000_000,
        );
        vstd::arithmetic::div_mod::lemma_div_pos_is_pos(c as int * l as int * w as int, 1_000_000);
    }
    (c as u32 * l * w / 1_000_000) as u8
}

} // verus!
