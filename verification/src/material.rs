use vstd::prelude::*;

verus! {

use crate::vector::ColourChannel;
use crate::vector::LightColour;
use crate::vector::PixelColour;
use crate::vector::Vec3;
use crate::vector::Vector;

/// The colour Zima blue.
pub fn zima_blue() -> (c: PixelColour)
    ensures
        c@ == (Vec3 { x: 26, y: 179, z: 249 }),
{
    Vector::new(26, 179, 249)
}

/// The colour burgundy.
pub fn burgundy() -> (c: PixelColour)
    ensures
        c@ == (Vec3 { x: 128, y: 0, z: 32 }),
{
    Vector::new(128, 0, 32)
}

/// The colour burnt orange.
pub fn burnt_orange() -> (c: PixelColour)
    ensures
        c@ == (Vec3 { x: 204, y: 85, z: 0 }),
{
    Vector::new(204, 85, 0)
}

/// Default Phong specular exponent.
pub const DEFAULT_SPECULAR_COEFFICIENT: u32 = 10;

/// Surface colour and light response of a shape. The base colour is held as
/// 8-bit channels; the ambient and specular responses are derived from it
/// afresh at every use, never cached.
#[derive(Copy, Clone, Debug)]
pub struct Material {
    /// Phong specular exponent.
    pub specular_coefficient: u32,
    /// Base diffuse colour.
    pub colour: PixelColour,
}

impl Material {
    pub fn new(colour: PixelColour, specular_coefficient: u32) -> (r: Self)
        ensures
            r.colour == colour,
            r.specular_coefficient == specular_coefficient,
    {
        Self { specular_coefficient, colour }
    }

    pub fn default_with_colour(colour: PixelColour) -> (r: Self)
        ensures
            r.colour == colour,
            r.specular_coefficient == DEFAULT_SPECULAR_COEFFICIENT,
    {
        let mut material = Self::default();
        material.colour = colour;
        material
    }

    pub fn specular_coefficient(&self) -> (r: u32)
        ensures
            r == self.specular_coefficient,
    {
        self.specular_coefficient
    }

    /// The specular reflectance coefficient equals the base diffuse colour.
    pub fn specular_k(&self) -> (r: PixelColour)
        ensures
            r == self.colour,
    {
        self.colour
    }

    /// The ambient reflectance: the base colour scaled by the ambient
    /// coefficient, as a light colour in thousandths.
    pub fn ambient_k(&self, ambient_coefficient: u32) -> (r: LightColour)
        requires
            ambient_coefficient <= 1000,
        ensures
            r@.x == self.colour@.x * ambient_coefficient / 255,
            r@.y == self.colour@.y * ambient_coefficient / 255,
            r@.z == self.colour@.z * ambient_coefficient / 255,
    {
        proof {
            assert(0 <= self.colour@.x * ambient_coefficient <= 255_000) by (nonlinear_arith)
                requires
                    0 <= self.colour@.x <= 255,
                    0 <= ambient_coefficient <= 1000,
            ;
            assert(0 <= self.colour@.y * ambient_coefficient <= 255_000) by (nonlinear_arith)
                requires
                    0 <= self.colour@.y <= 255,
                    0 <= ambient_coefficient <= 1000,
            ;
            assert(0 <= self.colour@.z * ambient_coefficient <= 255_000) by (nonlinear_arith)
                requires
                    0 <= self.colour@.z <= 255,
                    0 <= ambient_coefficient <= 1000,
            ;
        }
        Vector::new(
            self.colour.x as u32 * ambient_coefficient / 255,
            self.colour.y as u32 * ambient_coefficient / 255,
            self.colour.z as u32 * ambient_coefficient / 255,
        )
    }

    pub fn colour(&self) -> (r: PixelColour)
        ensures
            r == self.colour,
    {
        self.colour
    }

    pub fn set_colour(&mut self, new_colour: &PixelColour)
        ensures
            final(self).colour == *new_colour,
            final(self).specular_coefficient == old(self).specular_coefficient,
    {
        self.colour = *new_colour;
    }

    pub fn set_specular_coefficient(&mut self, new_coefficient: u32)
        ensures
            final(self).specular_coefficient == new_coefficient,
            final(self).colour == old(self).colour,
    {
        self.specular_coefficient = new_coefficient;
    }

    /// Store `value` in the selected channel of the base colour. The other
    /// two channels and the specular exponent are not perturbed.
    pub fn set_colour_channel(&mut self, channel: &ColourChannel, value: u8)
        ensures
            final(self).colour == old(self).colour.spec_with_channel(*channel, value),
            final(self).specular_coefficient == old(self).specular_coefficient,
    {
        match channel {
            ColourChannel::Red => {
                self.colour.x = value;
            },
            ColourChannel::Green => {
                self.colour.y = value;
            },
            ColourChannel::Blue => {
                self.colour.z = value;
            },
        }
    }
}

impl Default for Material {
    /// The default material: burgundy, with the default specular exponent.
    fn default() -> (r: Self)
        ensures
            r.colour@ == (Vec3 { x: 128, y: 0, z: 32 }),
            r.specular_coefficient == DEFAULT_SPECULAR_COEFFICIENT,
    {
        Self { specular_coefficient: DEFAULT_SPECULAR_COEFFICIENT, colour: burgundy() }
    }
}

} // verus!
