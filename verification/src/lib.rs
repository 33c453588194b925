pub mod arith;
pub mod camera;
pub mod lighting;
pub mod material;
pub mod render;
pub mod shapes;
pub mod vector;

pub use camera::CameraOrbit;
pub use camera::adjust_view;
pub use camera::calc_pixel_direction;
pub use camera::calc_pixel_point;
pub use camera::rotate;
pub use camera::rotation_matrix;
pub use lighting::COORD_LIMIT;
pub use lighting::Intersection;
pub use lighting::LightSource;
pub use lighting::Ray;
pub use lighting::phong;
pub use lighting::phong_ambient;
pub use lighting::phong_diffuse;
pub use lighting::phong_specular;
pub use material::Material;
pub use material::burgundy;
pub use material::burnt_orange;
pub use material::zima_blue;
pub use render::background;
pub use render::closest_hit;
pub use render::closest_intersect;
pub use shapes::Sphere;
pub use shapes::solve_t;
pub use vector::ColourChannel;
pub use vector::LightColour;
pub use vector::Matrix3x3;
pub use vector::PixelColour;
pub use vector::Point;
pub use vector::Vector;
pub use vector::Vector3D;
pub use vector::VectorNum;
pub use vector::id_matrix;
pub use vector::matrix_mul;
pub use vector::matrix_vec_mul;

use vstd::prelude::*;

verus! {

/// Side length, in pixels, of the square output image.
pub const IMG_SIZE: u32 = 1000;

/// Height of the output image in pixels.
pub const IMG_HEIGHT: u32 = IMG_SIZE;

/// Width of the output image in pixels.
pub const IMG_WIDTH: u32 = IMG_SIZE;

/// Number of worker threads the render driver is configured with.
pub const NUM_THREADS: usize = 10;

} // verus!
