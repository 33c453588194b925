use vstd::prelude::*;

verus! {

use crate::arith::div_trunc;
use crate::arith::lemma_div_trunc_bound;
use crate::lighting::in_coord_bounds;
use crate::vector::Matrix3x3;
use crate::vector::Point;
use crate::vector::Vec3;
use crate::vector::Vector;
use crate::vector::Vector3D;
use crate::vector::col;
use crate::vector::lemma_direction_components;
use crate::vector::lemma_normalised_components;
use crate::vector::mat_vec;
use crate::vector::mat_vec_fits;
use crate::vector::matrix_mul;
use crate::vector::matrix_vec_mul;
use crate::vector::normalised;

/// Default ambient light coefficient, in thousandths of full intensity.
pub const DEFAULT_AMBIENT_COEFFICIENT: u32 = 300;

/// Horizontal angle after orbiting by `degrees`: the delta accumulates and
/// the result wraps into `[0, 360)`.
pub open spec fn wrapped_horizontal(h: int, degrees: int) -> int {
    (h + degrees) % 360
}

/// Vertical angle after orbiting by `degrees`: the delta accumulates and the
/// result clamps into `[-90, 90]`, so the view never flips through a pole.
pub open spec fn clamped_vertical(v: int, degrees: int) -> int {
    if v + degrees > 90 {
        90
    } else if v + degrees < -90 {
        -90
    } else {
        v + degrees
    }
}

/// Ambient coefficient after a user edit: clamped into `[0, 1000]`.
pub open spec fn clamped_ambient(value: int) -> int {
    if value > 1000 {
        1000
    } else if value < 0 {
        0
    } else {
        value
    }
}

/// Orbit state of the camera: the accumulated rotation angles, in whole
/// degrees, from which the rotation matrices and the effective eye position
/// are always rederived, and the ambient light coefficient in thousandths.
/// Angles are held as whole degrees, so a caller with fractional orbit
/// deltas quantises them at this boundary.
pub struct CameraOrbit {
    /// Rotation about the world Y axis, wrapped into `[0, 360)` degrees.
    pub h_rotation: i64,
    /// Rotation about the world X axis, clamped into `[-90, 90]` degrees.
    pub v_rotation: i64,
    /// Ambient light coefficient in thousandths, in `[0, 1000]`.
    pub ambient_coefficient: u32,
}

impl CameraOrbit {
    /// The horizontal angle is wrapped, the vertical angle clamped, and the
    /// ambient coefficient within range.
    pub open spec fn wf(self) -> bool {
        &&& 0 <= self.h_rotation < 360
        &&& -90 <= self.v_rotation <= 90
        &&& self.ambient_coefficient <= 1000
    }

    /// A fresh orbit state: no rotation and the default ambient coefficient.
    pub fn new() -> (r: Self)
        ensures
            r.wf(),
            r.h_rotation == 0,
            r.v_rotation == 0,
            r.ambient_coefficient == DEFAULT_AMBIENT_COEFFICIENT,
    {
        Self { h_rotation: 0, v_rotation: 0, ambient_coefficient: DEFAULT_AMBIENT_COEFFICIENT }
    }

    pub fn h_rotation(&self) -> (r: i64)
        ensures
            r == self.h_rotation,
    {
        self.h_rotation
    }

    pub fn v_rotation(&self) -> (r: i64)
        ensures
            r == self.v_rotation,
    {
        self.v_rotation
    }

    pub fn ambient_coefficient(&self) -> (r: u32)
        ensures
            r == self.ambient_coefficient,
    {
        self.ambient_coefficient
    }

    /// Orbit the camera about the world Y axis by `degrees`.
    pub fn move_x(&mut self, degrees: i64)
        requires
            old(self).wf(),
        ensures
            final(self).wf(),
            final(self).h_rotation == wrapped_horizontal(old(self).h_rotation as int, degrees as int),
            final(self).v_rotation == old(self).v_rotation,
            final(self).ambient_coefficient == old(self).ambient_coefficient,
    {
        let d = degrees % 360;
        let s = self.h_rotation + d;
        let wrapped = if s < 0 {
            s + 360
        } else if s >= 360 {
            s - 360
        } else {
            s
        };
        proof {
            let x = old(self).h_rotation as int + degrees as int;
            let k: int;
            if degrees >= 0 {
                vstd::arithmetic::div_mod::lemma_fundamental_div_mod(degrees as int, 360);
                vstd::arithmetic::div_mod::lemma_mod_bound(degrees as int, 360);
                k = degrees as int / 360 + if s >= 360 { 1int } else { 0int };
            } else {
                vstd::arithmetic::div_mod::lemma_fundamental_div_mod(-(degrees as int), 360);
                vstd::arithmetic::div_mod::lemma_mod_bound(-(degrees as int), 360);
                k = -((-(degrees as int)) / 360) + if s < 0 { -1int } else { 0int };
            }
            assert(x == 360 * k + wrapped as int);
            vstd::arithmetic::div_mod::lemma_mod_multiples_vanish(k, wrapped as int, 360);
            vstd::arithmetic::div_mod::lemma_small_mod(wrapped as nat, 360nat);
        }
        self.h_rotation = wrapped;
    }

    /// Orbit the camera about the world X axis by `degrees`.
    pub fn move_y(&mut self, degrees: i64)
        requires
            old(self).wf(),
        ensures
            final(self).wf(),
            final(self).v_rotation == clamped_vertical(old(self).v_rotation as int, degrees as int),
            final(self).h_rotation == old(self).h_rotation,
            final(self).ambient_coefficient == old(self).ambient_coefficient,
    {
        if degrees >= 180 {
            self.v_rotation = 90;
        } else if degrees <= -180 {
            self.v_rotation = -90;
        } else {
            let s = self.v_rotation + degrees;
            self.v_rotation = if s > 90 {
                90
            } else if s < -90 {
                -90
            } else {
                s
            };
        }
    }

    /// Zero the horizontal rotation.
    pub fn reset_x(&mut self)
        requires
            old(self).wf(),
        ensures
            final(self).wf(),
            final(self).h_rotation == 0,
            final(self).v_rotation == old(self).v_rotation,
            final(self).ambient_coefficient == old(self).ambient_coefficient,
    {
        self.h_rotation = 0;
    }

    /// Zero the vertical rotation.
    pub fn reset_y(&mut self)
        requires
            old(self).wf(),
        ensures
            final(self).wf(),
            final(self).v_rotation == 0,
            final(self).h_rotation == old(self).h_rotation,
            final(self).ambient_coefficient == old(self).ambient_coefficient,
    {
        self.v_rotation = 0;
    }

    /// Zero both rotations, returning the view to its reference position.
    pub fn reset_vrp(&mut self)
        requires
            old(self).wf(),
        ensures
            final(self).wf(),
            final(self).h_rotation == 0,
            final(self).v_rotation == 0,
            final(self).ambient_coefficient == old(self).ambient_coefficient,
    {
        self.h_rotation = 0;
        self.v_rotation = 0;
    }

    /// Set the ambient light coefficient, clamped into `[0, 1000]`.
    pub fn set_ambient_coefficient(&mut self, new_value: i64)
        requires
            old(self).wf(),
        ensures
            final(self).wf(),
            final(self).ambient_coefficient == clamped_ambient(new_value as int),
            final(self).h_rotation == old(self).h_rotation,
            final(self).v_rotation == old(self).v_rotation,
    {
        let v = if new_value > 1000 {
            1000
        } else if new_value < 0 {
            0
        } else {
            new_value
        };
        self.ambient_coefficient = v as u32;
    }
}

/// A full-circle horizontal orbit leaves the angle exactly where it started.
pub proof fn lemma_full_circle_orbit(h: int)
    requires
        0 <= h < 360,
    ensures
        wrapped_horizontal(h, 360) == h,
{
    vstd::arithmetic::div_mod::lemma_mod_add_multiples_vanish(h, 360);
    vstd::arithmetic::div_mod::lemma_small_mod(h as nat, 360nat);
}

/// A vertical orbit far past the pole stops exactly at 90 degrees, and
/// repeating it keeps the angle there, never beyond.
pub proof fn lemma_vertical_orbit_clamped(v: int)
    requires
        -90 <= v <= 90,
    ensures
        clamped_vertical(v, 1000) == 90,
        clamped_vertical(clamped_vertical(v, 1000), 1000) == 90,
{
}

/// Every component divided by a thousand, truncating toward zero: the image
/// of a thousandths matrix comes back to the scale of its argument.
pub open spec fn scaled_down(v: Vec3) -> Vec3 {
    Vec3 { x: div_trunc(v.x, 1000), y: div_trunc(v.y, 1000), z: div_trunc(v.z, 1000) }
}

fn scale_down_vec(v: &Vector<i64>) -> (r: Vector<i64>)
    ensures
        r@ == scaled_down(v@),
{
    proof {
        lemma_div_trunc_bound(v@.x, 1000);
        lemma_div_trunc_bound(v@.y, 1000);
        lemma_div_trunc_bound(v@.z, 1000);
    }
    Vector::new(v.x / 1000, v.y / 1000, v.z / 1000)
}

/// Crossing two vectors with components at most 1015 in magnitude keeps
/// every product and the result's squared magnitude representable.
proof fn lemma_cross_in_range(a: Vec3, b: Vec3)
    requires
        -1015 <= a.x <= 1015,
        -1015 <= a.y <= 1015,
        -1015 <= a.z <= 1015,
        -1015 <= b.x <= 1015,
        -1015 <= b.y <= 1015,
        -1015 <= b.z <= 1015,
    ensures
        -1_100_000 <= a.y * b.z <= 1_100_000,
        -1_100_000 <= a.z * b.y <= 1_100_000,
        -1_100_000 <= a.z * b.x <= 1_100_000,
        -1_100_000 <= a.x * b.z <= 1_100_000,
        -1_100_000 <= a.x * b.y <= 1_100_000,
        -1_100_000 <= a.y * b.x <= 1_100_000,
        0 <= a.cross(b).norm_sq() <= 15_000_000_000_000,
{
    assert(-1_100_000 <= a.y * b.z <= 1_100_000) by (nonlinear_arith)
        requires
            -1015 <= a.y <= 1015,
            -1015 <= b.z <= 1015,
    ;
    assert(-1_100_000 <= a.z * b.y <= 1_100_000) by (nonlinear_arith)
        requires
            -1015 <= a.z <= 1015,
            -1015 <= b.y <= 1015,
    ;
    assert(-1_100_000 <= a.z * b.x <= 1_100_000) by (nonlinear_arith)
        requires
            -1015 <= a.z <= 1015,
            -1015 <= b.x <= 1015,
    ;
    assert(-1_100_000 <= a.x * b.z <= 1_100_000) by (nonlinear_arith)
        requires
            -1015 <= a.x <= 1015,
            -1015 <= b.z <= 1015,
    ;
    assert(-1_100_000 <= a.x * b.y <= 1_100_000) by (nonlinear_arith)
        requires
            -1015 <= a.x <= 1015,
            -1015 <= b.y <= 1015,
    ;
    assert(-1_100_000 <= a.y * b.x <= 1_100_000) by (nonlinear_arith)
        requires
            -1015 <= a.y <= 1015,
            -1015 <= b.x <= 1015,
    ;
    let w = a.cross(b);
    assert(0 <= w.x * w.x <= 5_000_000_000_000int) by (nonlinear_arith)
        requires
            -2_200_000 <= w.x <= 2_200_000,
    ;
    assert(0 <= w.y * w.y <= 5_000_000_000_000int) by (nonlinear_arith)
        requires
            -2_200_000 <= w.y <= 2_200_000,
    ;
    assert(0 <= w.z * w.z <= 5_000_000_000_000int) by (nonlinear_arith)
        requires
            -2_200_000 <= w.z <= 2_200_000,
    ;
}

/// Applying a matrix with small entries to a bounded vector keeps every
/// product and running sum representable.
proof fn lemma_mat_vec_in_range(c0: Vec3, c1: Vec3, c2: Vec3, v: Vec3)
    requires
        -10_000 <= c0.x <= 10_000,
        -10_000 <= c0.y <= 10_000,
        -10_000 <= c0.z <= 10_000,
        -10_000 <= c1.x <= 10_000,
        -10_000 <= c1.y <= 10_000,
        -10_000 <= c1.z <= 10_000,
        -10_000 <= c2.x <= 10_000,
        -10_000 <= c2.y <= 10_000,
        -10_000 <= c2.z <= 10_000,
        -2_000_000_000 <= v.x <= 2_000_000_000,
        -2_000_000_000 <= v.y <= 2_000_000_000,
        -2_000_000_000 <= v.z <= 2_000_000_000,
    ensures
        mat_vec_fits::<i64>(c0, c1, c2, v),
        -60_000_000_000_000 <= mat_vec(c0, c1, c2, v).x <= 60_000_000_000_000,
        -60_000_000_000_000 <= mat_vec(c0, c1, c2, v).y <= 60_000_000_000_000,
        -60_000_000_000_000 <= mat_vec(c0, c1, c2, v).z <= 60_000_000_000_000,
{
    assert(-20_000_000_000_000 <= c0.x * v.x <= 20_000_000_000_000int) by (nonlinear_arith)
        requires
            -10_000 <= c0.x <= 10_000,
            -2_000_000_000 <= v.x <= 2_000_000_000,
    ;
    assert(-20_000_000_000_000 <= c1.x * v.y <= 20_000_000_000_000int) by (nonlinear_arith)
        requires
            -10_000 <= c1.x <= 10_000,
            -2_000_000_000 <= v.y <= 2_000_000_000,
    ;
    assert(-20_000_000_000_000 <= c2.x * v.z <= 20_000_000_000_000int) by (nonlinear_arith)
        requires
            -10_000 <= c2.x <= 10_000,
            -2_000_000_000 <= v.z <= 2_000_000_000,
    ;
    assert(-20_000_000_000_000 <= c0.y * v.x <= 20_000_000_000_000int) by (nonlinear_arith)
        requires
            -10_000 <= c0.y <= 10_000,
            -2_000_000_000 <= v.x <= 2_000_000_000,
    ;
    assert(-20_000_000_000_000 <= c1.y * v.y <= 20_000_000_000_000int) by (nonlinear_arith)
        requires
            -10_000 <= c1.y <= 10_000,
            -2_000_000_000 <= v.y <= 2_000_000_000,
    ;
    assert(-20_000_000_000_000 <= c2.y * v.z <= 20_000_000_000_000int) by (nonlinear_arith)
        requires
            -10_000 <= c2.y <= 10_000,
            -2_000_000_000 <= v.z <= 2_000_000_000,
    ;
    assert(-20_000_000_000_000 <= c0.z * v.x <= 20_000_000_000_000int) by (nonlinear_arith)
        requires
            -10_000 <= c0.z <= 10_000,
            -2_000_000_000 <= v.x <= 2_000_000_000,
    ;
    assert(-20_000_000_000_000 <= c1.z * v.y <= 20_000_000_000_000int) by (nonlinear_arith)
        requires
            -10_000 <= c1.z <= 10_000,
            -2_000_000_000 <= v.y <= 2_000_000_000,
    ;
    assert(-20_000_000_000_000 <= c2.z * v.z <= 20_000_000_000_000int) by (nonlinear_arith)
        requires
            -10_000 <= c2.z <= 10_000,
            -2_000_000_000 <= v.z <= 2_000_000_000,
    ;
}

/// Recompute the camera's orthonormal basis from the effective eye position,
/// in the fixed order the up vector demands: plane normal from the eye
/// toward the look-at point, then right vector, then up vector last, each
/// normalised to the model's unit length.
pub fn adjust_view(eye: Point, look_at: Point, approx_up: Vector3D) -> (r: (
    Vector3D,
    Vector3D,
    Vector3D,
))
    requires
        in_coord_bounds(eye@),
        in_coord_bounds(look_at@),
        990_000 <= approx_up@.norm_sq() <= 1_030_000,
    ensures
        r.0@ == normalised(look_at@.minus(eye@)),
        r.1@ == normalised(r.0@.cross(approx_up@)),
        r.2@ == normalised(r.1@.cross(r.0@)),
{
    proof {
        let d = look_at@.minus(eye@);
        assert(0 <= d.x * d.x <= 40_000_000_000int) by (nonlinear_arith)
            requires
                -200_000 <= d.x <= 200_000,
        ;
        assert(0 <= d.y * d.y <= 40_000_000_000int) by (nonlinear_arith)
            requires
                -200_000 <= d.y <= 200_000,
        ;
        assert(0 <= d.z * d.z <= 40_000_000_000int) by (nonlinear_arith)
            requires
                -200_000 <= d.z <= 200_000,
        ;
        lemma_direction_components(approx_up@);
        lemma_normalised_components(d);
    }
    let mut view_plane_normal = look_at.sub(&eye);
    view_plane_normal.normalise();

    proof {
        lemma_cross_in_range(view_plane_normal@, approx_up@);
        lemma_normalised_components(view_plane_normal@.cross(approx_up@));
    }
    let mut view_right_vector = view_plane_normal.cross(&approx_up);
    view_right_vector.normalise();

    proof {
        lemma_cross_in_range(view_right_vector@, view_plane_normal@);
    }
    let mut view_up_vector = view_right_vector.cross(&view_plane_normal);
    view_up_vector.normalise();

    (view_plane_normal, view_right_vector, view_up_vector)
}

/// The composite rotation built from sine and cosine values handed in
/// thousandths: the rotation about the world Y axis by the horizontal angle,
/// composed with the rotation about the world X axis by the vertical angle,
/// every entry brought back to thousandths by truncating division.
pub fn rotation_matrix(sin_h: i64, cos_h: i64, sin_v: i64, cos_v: i64) -> (m: Matrix3x3<i64>)
    requires
        -1000 <= sin_h <= 1000,
        -1000 <= cos_h <= 1000,
        -1000 <= sin_v <= 1000,
        -1000 <= cos_v <= 1000,
    ensures
        ({
            let h0 = Vec3 { x: cos_h as int, y: 0, z: -(sin_h as int) };
            let h1 = Vec3 { x: 0, y: 1000, z: 0 };
            let h2 = Vec3 { x: sin_h as int, y: 0, z: cos_h as int };
            let v0 = Vec3 { x: 1000, y: 0, z: 0 };
            let v1 = Vec3 { x: 0, y: cos_v as int, z: sin_v as int };
            let v2 = Vec3 { x: 0, y: -(sin_v as int), z: cos_v as int };
            &&& col(m, 0) == scaled_down(mat_vec(h0, h1, h2, v0))
            &&& col(m, 1) == scaled_down(mat_vec(h0, h1, h2, v1))
            &&& col(m, 2) == scaled_down(mat_vec(h0, h1, h2, v2))
        }),
{
    let horizontal: Matrix3x3<i64> = [
        Vector::new(cos_h, 0, -sin_h),
        Vector::new(0, 1000, 0),
        Vector::new(sin_h, 0, cos_h),
    ];
    let vertical: Matrix3x3<i64> = [
        Vector::new(1000, 0, 0),
        Vector::new(0, cos_v, sin_v),
        Vector::new(0, -sin_v, cos_v),
    ];
    proof {
        lemma_mat_vec_in_range(col(horizontal, 0), col(horizontal, 1), col(horizontal, 2), col(vertical, 0));
        lemma_mat_vec_in_range(col(horizontal, 0), col(horizontal, 1), col(horizontal, 2), col(vertical, 1));
        lemma_mat_vec_in_range(col(horizontal, 0), col(horizontal, 1), col(horizontal, 2), col(vertical, 2));
    }
    let composite = matrix_mul(horizontal, vertical);
    [
        scale_down_vec(&composite[0]),
        scale_down_vec(&composite[1]),
        scale_down_vec(&composite[2]),
    ]
}

/// Apply a thousandths rotation matrix to a point or a direction: the matrix
/// image, scaled back down by the matrix's thousandths.
pub fn rotate(m: &Matrix3x3<i64>, v: &Vector<i64>) -> (r: Vector<i64>)
    requires
        -10_000 <= col(*m, 0).x <= 10_000,
        -10_000 <= col(*m, 0).y <= 10_000,
        -10_000 <= col(*m, 0).z <= 10_000,
        -10_000 <= col(*m, 1).x <= 10_000,
        -10_000 <= col(*m, 1).y <= 10_000,
        -10_000 <= col(*m, 1).z <= 10_000,
        -10_000 <= col(*m, 2).x <= 10_000,
        -10_000 <= col(*m, 2).y <= 10_000,
        -10_000 <= col(*m, 2).z <= 10_000,
        -2_000_000_000 <= v@.x <= 2_000_000_000,
        -2_000_000_000 <= v@.y <= 2_000_000_000,
        -2_000_000_000 <= v@.z <= 2_000_000_000,
    ensures
        r@ == scaled_down(mat_vec(col(*m, 0), col(*m, 1), col(*m, 2), v@)),
{
    proof {
        lemma_mat_vec_in_range(col(*m, 0), col(*m, 1), col(*m, 2), v@);
    }
    let image = matrix_vec_mul(m, v);
    scale_down_vec(&image)
}

/// The unrotated view-plane point of one pixel: the screen centre, displaced
/// along the right and up vectors by the pixel's offsets from the image
/// centre. Offsets are measured from the far edge, so +x reads as right and
/// +y as up in final image space. The pixel size comes in world milliunits
/// per pixel and already carries the scale factor.
pub fn calc_pixel_point(
    i: usize,
    j: usize,
    img_width: usize,
    img_height: usize,
    pixel_size_milli: i64,
    screen_center: Point,
    vrv: Vector3D,
    vuv: Vector3D,
) -> (r: Point)
    requires
        i < img_width <= 1_000_000,
        j < img_height <= 1_000_000,
        0 <= pixel_size_milli <= 1_000_000,
        in_coord_bounds(screen_center@),
        -1015 <= vrv@.x <= 1015,
        -1015 <= vrv@.y <= 1015,
        -1015 <= vrv@.z <= 1015,
        -1015 <= vuv@.x <= 1015,
        -1015 <= vuv@.y <= 1015,
        -1015 <= vuv@.z <= 1015,
    ensures
        ({
            let um = (img_width - i - img_width / 2) * pixel_size_milli;
            let vm = (img_height - j - img_height / 2) * pixel_size_milli;
            &&& r@.x == screen_center@.x + div_trunc(vrv@.x * um + vuv@.x * vm, 1_000_000)
            &&& r@.y == screen_center@.y + div_trunc(vrv@.y * um + vuv@.y * vm, 1_000_000)
            &&& r@.z == screen_center@.z + div_trunc(vrv@.z * um + vuv@.z * vm, 1_000_000)
        }),
{
    let u_off = img_width as i64 - i as i64 - (img_width as i64) / 2;
    let v_off = img_height as i64 - j as i64 - (img_height as i64) / 2;
    proof {
        assert(-1_000_000_000_000 <= (u_off as int) * (pixel_size_milli as int)
            <= 1_000_000_000_000int) by (nonlinear_arith)
            requires
                -1_000_000 <= u_off as int <= 1_000_000,
                0 <= pixel_size_milli <= 1_000_000,
        ;
        assert(-1_000_000_000_000 <= (v_off as int) * (pixel_size_milli as int)
            <= 1_000_000_000_000int) by (nonlinear_arith)
            requires
                -1_000_000 <= v_off as int <= 1_000_000,
                0 <= pixel_size_milli <= 1_000_000,
        ;
    }
    let u_milli = u_off * pixel_size_milli;
    let v_milli = v_off * pixel_size_milli;
    proof {
        lemma_pixel_products(vrv@, u_milli as int);
        lemma_pixel_products(vuv@, v_milli as int);
        lemma_div_trunc_bound(vrv@.x * u_milli + vuv@.x * v_milli, 1_000_000);
        lemma_div_trunc_bound(vrv@.y * u_milli + vuv@.y * v_milli, 1_000_000);
        lemma_div_trunc_bound(vrv@.z * u_milli + vuv@.z * v_milli, 1_000_000);
    }
    Vector::new(
        screen_center.x + (vrv.x * u_milli + vuv.x * v_milli) / 1_000_000,
        screen_center.y + (vrv.y * u_milli + vuv.y * v_milli) / 1_000_000,
        screen_center.z + (vrv.z * u_milli + vuv.z * v_milli) / 1_000_000,
    )
}

/// Products of a bounded direction with a pixel offset in milliunits stay
/// representable.
proof fn lemma_pixel_products(d: Vec3, milli: int)
    requires
        -1015 <= d.x <= 1015,
        -1015 <= d.y <= 1015,
        -1015 <= d.z <= 1015,
        -1_000_000_000_000 <= milli <= 1_000_000_000_000,
    ensures
        -1_015_000_000_000_000_000 <= d.x * milli <= 1_015_000_000_000_000_000,
        -1_015_000_000_000_000_000 <= d.y * milli <= 1_015_000_000_000_000_000,
        -1_015_000_000_000_000_000 <= d.z * milli <= 1_015_000_000_000_000_000,
{
    assert(-1_015_000_000_000_000_000 <= d.x * milli <= 1_015_000_000_000_000_000int)
        by (nonlinear_arith)
        requires
            -1015 <= d.x <= 1015,
            -1_000_000_000_000 <= milli <= 1_000_000_000_000,
    ;
    assert(-1_015_000_000_000_000_000 <= d.y * milli <= 1_015_000_000_000_000_000int)
        by (nonlinear_arith)
        requires
            -1015 <= d.y <= 1015,
            -1_000_000_000_000 <= milli <= 1_000_000_000_000,
    ;
    assert(-1_015_000_000_000_000_000 <= d.z * milli <= 1_015_000_000_000_000_000int)
        by (nonlinear_arith)
        requires
            -1015 <= d.z <= 1015,
            -1_000_000_000_000 <= milli <= 1_000_000_000_000,
    ;
}

/// The unrotated ray direction of one pixel: from the view reference point
/// out through the pixel's view-plane point, at the model's unit length.
pub fn calc_pixel_direction(view_reference_point: &Point, pixel_point: &Point) -> (r: Vector3D)
    requires
        -1_000_000_000 <= view_reference_point@.x <= 1_000_000_000,
        -1_000_000_000 <= view_reference_point@.y <= 1_000_000_000,
        -1_000_000_000 <= view_reference_point@.z <= 1_000_000_000,
        -1_000_000_000 <= pixel_point@.x <= 1_000_000_000,
        -1_000_000_000 <= pixel_point@.y <= 1_000_000_000,
        -1_000_000_000 <= pixel_point@.z <= 1_000_000_000,
    ensures
        r@ == normalised(pixel_point@.minus(view_reference_point@)),
{
    proof {
        let d = pixel_point@.minus(view_reference_point@);
        assert(0 <= d.x * d.x <= 4_000_000_000_000_000_000int) by (nonlinear_arith)
            requires
                -2_000_000_000 <= d.x <= 2_000_000_000,
        ;
        assert(0 <= d.y * d.y <= 4_000_000_000_000_000_000int) by (nonlinear_arith)
            requires
                -2_000_000_000 <= d.y <= 2_000_000_000,
        ;
        assert(0 <= d.z * d.z <= 4_000_000_000_000_000_000int) by (nonlinear_arith)
            requires
                -2_000_000_000 <= d.z <= 2_000_000_000,
        ;
    }
    let mut direction = pixel_point.sub(&view_reference_point);
    direction.normalise();
    direction
}

} // verus!

