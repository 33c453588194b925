use vstd::prelude::*;

verus! {

use crate::arith::div_trunc;
use crate::arith::isqrt;
use crate::arith::lemma_div_trunc_bound;
use crate::arith::lemma_div_trunc_exact;
use crate::arith::lemma_sqrt_floor;
use crate::arith::sqrt_floor;

/// Mathematical image of a three-component vector: unbounded integers, used
/// only in specifications.
pub struct Vec3 {
    pub x: int,
    pub y: int,
    pub z: int,
}

impl Vec3 {
    /// Component-wise sum.
    pub open spec fn plus(self, o: Vec3) -> Vec3 {
        Vec3 { x: self.x + o.x, y: self.y + o.y, z: self.z + o.z }
    }

    /// Component-wise difference.
    pub open spec fn minus(self, o: Vec3) -> Vec3 {
        Vec3 { x: self.x - o.x, y: self.y - o.y, z: self.z - o.z }
    }

    /// Component-wise product.
    pub open spec fn times(self, o: Vec3) -> Vec3 {
        Vec3 { x: self.x * o.x, y: self.y * o.y, z: self.z * o.z }
    }

    /// Every component multiplied by the scalar `k`.
    pub open spec fn scaled(self, k: int) -> Vec3 {
        Vec3 { x: self.x * k, y: self.y * k, z: self.z * k }
    }

    /// Component-wise square.
    pub open spec fn sq(self) -> Vec3 {
        Vec3 { x: self.x * self.x, y: self.y * self.y, z: self.z * self.z }
    }

    /// Sum of the three components.
    pub open spec fn sum(self) -> int {
        self.x + self.y + self.z
    }

    /// Dot product.
    pub open spec fn dot(self, o: Vec3) -> int {
        self.x * o.x + self.y * o.y + self.z * o.z
    }

    /// Cross product, by the standard determinant formula.
    pub open spec fn cross(self, o: Vec3) -> Vec3 {
        Vec3 {
            x: self.y * o.z - self.z * o.y,
            y: self.z * o.x - self.x * o.z,
            z: self.x * o.y - self.y * o.x,
        }
    }

    /// Squared magnitude.
    pub open spec fn norm_sq(self) -> int {
        self.dot(self)
    }
}

/// Scalar types a `Vector` can carry: each value has an exact mathematical
/// image, and arithmetic is exact wherever the result stays representable.
pub trait VectorNum: Copy {
    /// Mathematical value of this scalar.
    spec fn as_int(self) -> int;

    /// Smallest representable value.
    spec fn min_int() -> int;

    /// Largest representable value.
    spec fn max_int() -> int;

    /// Every value lies between `min_int` and `max_int`.
    proof fn lemma_in_range(self)
        ensures
            Self::min_int() <= self.as_int() <= Self::max_int(),
    ;

    /// Exact addition of two scalars.
    fn num_add(self, rhs: Self) -> (r: Self)
        requires
            Self::min_int() <= self.as_int() + rhs.as_int() <= Self::max_int(),
        ensures
            r.as_int() == self.as_int() + rhs.as_int(),
    ;

    /// Exact subtraction of two scalars.
    fn num_sub(self, rhs: Self) -> (r: Self)
        requires
            Self::min_int() <= self.as_int() - rhs.as_int() <= Self::max_int(),
        ensures
            r.as_int() == self.as_int() - rhs.as_int(),
    ;

    /// Exact multiplication of two scalars.
    fn num_mul(self, rhs: Self) -> (r: Self)
        requires
            Self::min_int() <= self.as_int() * rhs.as_int() <= Self::max_int(),
        ensures
            r.as_int() == self.as_int() * rhs.as_int(),
    ;

    /// The scalar zero.
    fn num_zero() -> (r: Self)
        ensures
            r.as_int() == 0,
    ;

    /// The scalar one.
    fn num_one() -> (r: Self)
        ensures
            r.as_int() == 1,
    ;
}

impl VectorNum for u8 {
    open spec fn as_int(self) -> int {
        self as int
    }

    open spec fn min_int() -> int {
        0
    }

    open spec fn max_int() -> int {
        255
    }

    proof fn lemma_in_range(self) {
    }

    fn num_add(self, rhs: Self) -> (r: Self) {
        self + rhs
    }

    fn num_sub(self, rhs: Self) -> (r: Self) {
        self - rhs
    }

    fn num_mul(self, rhs: Self) -> (r: Self) {
        self * rhs
    }

    fn num_zero() -> (r: Self) {
        0
    }

    fn num_one() -> (r: Self) {
        1
    }
}

impl VectorNum for u32 {
    open spec fn as_int(self) -> int {
        self as int
    }

    open spec fn min_int() -> int {
        0
    }

    open spec fn max_int() -> int {
        u32::MAX as int
    }

    proof fn lemma_in_range(self) {
    }

    fn num_add(self, rhs: Self) -> (r: Self) {
        self + rhs
    }

    fn num_sub(self, rhs: Self) -> (r: Self) {
        self - rhs
    }

    fn num_mul(self, rhs: Self) -> (r: Self) {
        self * rhs
    }

    fn num_zero() -> (r: Self) {
        0
    }

    fn num_one() -> (r: Self) {
        1
    }
}

impl VectorNum for i64 {
    open spec fn as_int(self) -> int {
        self as int
    }

    open spec fn min_int() -> int {
        i64::MIN as int
    }

    open spec fn max_int() -> int {
        i64::MAX as int
    }

    proof fn lemma_in_range(self) {
    }

    fn num_add(self, rhs: Self) -> (r: Self) {
        self + rhs
    }

    fn num_sub(self, rhs: Self) -> (r: Self) {
        self - rhs
    }

    fn num_mul(self, rhs: Self) -> (r: Self) {
        self * rhs
    }

    fn num_zero() -> (r: Self) {
        0
    }

    fn num_one() -> (r: Self) {
        1
    }
}

/// Whether the mathematical value `v` is representable in the scalar type `T`.
pub open spec fn fits<T: VectorNum>(v: int) -> bool {
    T::min_int() <= v <= T::max_int()
}

/// Represents a point in 3D space.
pub type Point = Vector<i64>;

/// Represents the RGB value of an output pixel, one byte per channel.
pub type PixelColour = Vector<u8>;

/// Usually represents a direction in 3D space; can be a regular vector or a
/// unit vector.
pub type Vector3D = Vector<i64>;

/// Represents the colour of a light source or ray, each channel a fraction of
/// full intensity in thousandths (0 to 1000).
pub type LightColour = Vector<u32>;

/// 3D matrix for rotation transformations, held as three column vectors.
pub type Matrix3x3<T> = [Vector<T>; 3];

/// One of the three colour channels of a colour vector.
#[derive(Clone, Copy, Debug)]
pub enum ColourChannel {
    Red,
    Green,
    Blue,
}

/// A three-component vector over a numeric scalar type, used for points,
/// directions and colours.
#[derive(Default, Debug, Copy, Clone, PartialEq)]
pub struct Vector<T: VectorNum> {
    pub x: T,
    pub y: T,
    pub z: T,
}

impl<T: VectorNum> View for Vector<T> {
    type V = Vec3;

    open spec fn view(&self) -> Vec3 {
        Vec3 { x: self.x.as_int(), y: self.y.as_int(), z: self.z.as_int() }
    }
}

impl<T: VectorNum> Vector<T> {
    pub fn new(x: T, y: T, z: T) -> (r: Self)
        ensures
            r.x == x && r.y == y && r.z == z,
    {
        Self { x, y, z }
    }

    pub fn from_array(a: [T; 3]) -> (r: Self)
        ensures
            r.x == a[0] && r.y == a[1] && r.z == a[2],
    {
        Self::new(a[0], a[1], a[2])
    }

    pub fn to_array(&self) -> (r: [T; 3])
        ensures
            r[0] == self.x && r[1] == self.y && r[2] == self.z,
    {
        [self.x, self.y, self.z]
    }

    /// Square the values inside a vector.
    pub fn square(&self) -> (r: Vector<T>)
        requires
            fits::<T>(self@.x * self@.x),
            fits::<T>(self@.y * self@.y),
            fits::<T>(self@.z * self@.z),
        ensures
            r@ == self@.sq(),
    {
        Vector::new(
            self.x.num_mul(self.x),
            self.y.num_mul(self.y),
            self.z.num_mul(self.z),
        )
    }

    /// Sum of a vector's components.
    pub fn vec_sum(&self) -> (r: T)
        requires
            fits::<T>(self@.x + self@.y),
            fits::<T>(self@.x + self@.y + self@.z),
        ensures
            r.as_int() == self@.sum(),
    {
        self.x.num_add(self.y).num_add(self.z)
    }

    /// Dot product of two vectors.
    pub fn dot(self, other: &Self) -> (r: T)
        requires
            fits::<T>(self@.x * other@.x),
            fits::<T>(self@.y * other@.y),
            fits::<T>(self@.z * other@.z),
            fits::<T>(self@.x * other@.x + self@.y * other@.y),
            fits::<T>(self@.dot(other@)),
        ensures
            r.as_int() == self@.dot(other@),
    {
        Vector::new(
            self.x.num_mul(other.x),
            self.y.num_mul(other.y),
            self.z.num_mul(other.z),
        ).vec_sum()
    }

    /// Multiply two vectors of the same type value by value.
    /// Note: this is not the cross product.
    pub fn mul(&self, rhs: &Self) -> (r: Vector<T>)
        requires
            fits::<T>(self@.x * rhs@.x),
            fits::<T>(self@.y * rhs@.y),
            fits::<T>(self@.z * rhs@.z),
        ensures
            r@ == self@.times(rhs@),
    {
        Vector::new(
            self.x.num_mul(rhs.x),
            self.y.num_mul(rhs.y),
            self.z.num_mul(rhs.z),
        )
    }

    /// The component selected by a colour channel.
    pub open spec fn spec_channel(self, c: ColourChannel) -> T {
        match c {
            ColourChannel::Red => self.x,
            ColourChannel::Green => self.y,
            ColourChannel::Blue => self.z,
        }
    }

    /// The vector with the selected channel replaced by `v` and the other two
    /// components unchanged.
    pub open spec fn spec_with_channel(self, c: ColourChannel, v: T) -> Vector<T> {
        match c {
            ColourChannel::Red => Vector { x: v, y: self.y, z: self.z },
            ColourChannel::Green => Vector { x: self.x, y: v, z: self.z },
            ColourChannel::Blue => Vector { x: self.x, y: self.y, z: v },
        }
    }

    pub fn colour(&self, colour_channel: &ColourChannel) -> (r: T)
        ensures
            r == self.spec_channel(*colour_channel),
    {
        match colour_channel {
            ColourChannel::Red => self.x,
            ColourChannel::Green => self.y,
            ColourChannel::Blue => self.z,
        }
    }

    /// Component-wise sum of two vectors.
    pub fn add(&self, rhs: &Self) -> (r: Vector<T>)
        requires
            fits::<T>(self@.x + rhs@.x),
            fits::<T>(self@.y + rhs@.y),
            fits::<T>(self@.z + rhs@.z),
        ensures
            r@ == self@.plus(rhs@),
    {
        Vector::new(
            self.x.num_add(rhs.x),
            self.y.num_add(rhs.y),
            self.z.num_add(rhs.z),
        )
    }

    /// Component-wise difference of two vectors.
    pub fn sub(&self, rhs: &Self) -> (r: Vector<T>)
        requires
            fits::<T>(self@.x - rhs@.x),
            fits::<T>(self@.y - rhs@.y),
            fits::<T>(self@.z - rhs@.z),
        ensures
            r@ == self@.minus(rhs@),
    {
        Vector::new(
            self.x.num_sub(rhs.x),
            self.y.num_sub(rhs.y),
            self.z.num_sub(rhs.z),
        )
    }

    /// Cross product of two vectors, by the standard determinant formula.
    pub fn cross(&self, rhs: &Self) -> (r: Vector<T>)
        requires
            fits::<T>(self@.y * rhs@.z),
            fits::<T>(self@.z * rhs@.y),
            fits::<T>(self@.z * rhs@.x),
            fits::<T>(self@.x * rhs@.z),
            fits::<T>(self@.x * rhs@.y),
            fits::<T>(self@.y * rhs@.x),
            fits::<T>(self@.y * rhs@.z - self@.z * rhs@.y),
            fits::<T>(self@.z * rhs@.x - self@.x * rhs@.z),
            fits::<T>(self@.x * rhs@.y - self@.y * rhs@.x),
        ensures
            r@ == self@.cross(rhs@),
    {
        Vector::new(
            self.y.num_mul(rhs.z).num_sub(self.z.num_mul(rhs.y)),
            self.z.num_mul(rhs.x).num_sub(self.x.num_mul(rhs.z)),
            self.x.num_mul(rhs.y).num_sub(self.y.num_mul(rhs.x)),
        )
    }

    /// Scalar multiplication of a vector.
    pub fn scale(&self, rhs: T) -> (r: Vector<T>)
        requires
            fits::<T>(self@.x * rhs.as_int()),
            fits::<T>(self@.y * rhs.as_int()),
            fits::<T>(self@.z * rhs.as_int()),
        ensures
            r@ == self@.scaled(rhs.as_int()),
    {
        Vector::new(
            self.x.num_mul(rhs),
            self.y.num_mul(rhs),
            self.z.num_mul(rhs),
        )
    }
}

/// The mathematical result of normalisation. The library carries unit
/// directions in thousandths, as it does light intensities: a normalised
/// vector has magnitude close to 1000, the model's length one. The zero
/// vector is left unchanged; every component of any other vector is scaled
/// by a million and divided, truncating toward zero, by the floor of the
/// scaled magnitude, which preserves the direction to the model's
/// resolution. Scaling under the square root keeps the divisor's lost
/// fraction below a thousandth for every input, short vectors included.
pub open spec fn normalised(v: Vec3) -> Vec3 {
    if v.norm_sq() == 0 {
        v
    } else {
        let m = sqrt_floor(1_000_000 * v.norm_sq());
        Vec3 {
            x: div_trunc(1_000_000 * v.x, m),
            y: div_trunc(1_000_000 * v.y, m),
            z: div_trunc(1_000_000 * v.z, m),
        }
    }
}

/// Components of a vector whose squared magnitude fits a `u64` are bounded by
/// `u32::MAX` in absolute value, and so are all partial sums of squares.
proof fn lemma_norm_sq_bounds(v: Vec3)
    requires
        v.norm_sq() <= u64::MAX,
    ensures
        0 <= v.x * v.x <= u64::MAX,
        0 <= v.y * v.y <= u64::MAX,
        0 <= v.z * v.z <= u64::MAX,
        v.x * v.x + v.y * v.y <= u64::MAX,
        v.norm_sq() >= 0,
        -0xFFFF_FFFF <= v.x <= 0xFFFF_FFFF,
        -0xFFFF_FFFF <= v.y <= 0xFFFF_FFFF,
        -0xFFFF_FFFF <= v.z <= 0xFFFF_FFFF,
{
    assert(v.x * v.x >= 0) by (nonlinear_arith);
    assert(v.y * v.y >= 0) by (nonlinear_arith);
    assert(v.z * v.z >= 0) by (nonlinear_arith);
    assert(-0xFFFF_FFFFint <= v.x <= 0xFFFF_FFFFint) by (nonlinear_arith)
        requires
            v.x * v.x <= 0xFFFF_FFFF_FFFF_FFFFint,
    ;
    assert(-0xFFFF_FFFFint <= v.y <= 0xFFFF_FFFFint) by (nonlinear_arith)
        requires
            v.y * v.y <= 0xFFFF_FFFF_FFFF_FFFFint,
    ;
    assert(-0xFFFF_FFFFint <= v.z <= 0xFFFF_FFFFint) by (nonlinear_arith)
        requires
            v.z * v.z <= 0xFFFF_FFFF_FFFF_FFFFint,
    ;
}

fn abs_i64(a: i64) -> (r: u64)
    requires
        -0xFFFF_FFFF <= a <= 0xFFFF_FFFF,
    ensures
        r as int == if a >= 0 { a as int } else { -(a as int) },
        r as int * r as int == (a as int) * (a as int),
{
    proof {
        assert((-(a as int)) * (-(a as int)) == (a as int) * (a as int)) by (nonlinear_arith);
    }
    if a >= 0 {
        a as u64
    } else {
        (-a) as u64
    }
}

impl Vector<i64> {
    /// Sum of squared components, exactly, as a machine integer.
    fn norm_sq_u64(&self) -> (r: u64)
        requires
            self@.norm_sq() <= u64::MAX,
        ensures
            r as int == self@.norm_sq(),
    {
        proof {
            lemma_norm_sq_bounds(self@);
        }
        let ax = abs_i64(self.x);
        let ay = abs_i64(self.y);
        let az = abs_i64(self.z);
        ax * ax + ay * ay + az * az
    }

    /// Magnitude of a vector, rounded down to the nearest integer.
    pub fn magnitude(&self) -> (r: i64)
        requires
            self@.norm_sq() <= u64::MAX,
        ensures
            r == sqrt_floor(self@.norm_sq()),
            r * r <= self@.norm_sq() < (r + 1) * (r + 1),
            r >= 0,
    {
        let sq = self.norm_sq_u64();
        let root = isqrt(sq as u128);
        proof {
            assert(root * root <= sq);
            assert(0 <= root <= 0xFFFF_FFFFint) by (nonlinear_arith)
                requires
                    root * root <= 0xFFFF_FFFF_FFFF_FFFFint,
                    root >= 0,
            ;
        }
        root as i64
    }

    /// Normalise a vector in relation to its magnitude: each component,
    /// scaled to millionths, is divided by the floor of the scaled
    /// magnitude; the zero vector stays unchanged.
    pub fn normalise(&mut self)
        requires
            old(self)@.norm_sq() <= u64::MAX,
        ensures
            final(self)@ == normalised(old(self)@),
    {
        let sq = self.norm_sq_u64();
        if sq != 0 {
            let mu = isqrt(sq as u128 * 1_000_000);
            proof {
                lemma_norm_sq_bounds(self@);
                assert(mu >= 1000 && mu as int <= 0x8000_0000_0000int) by (nonlinear_arith)
                    requires
                        (mu as int) * (mu as int) <= 1_000_000 * (sq as int),
                        1_000_000 * (sq as int) < (mu as int + 1) * (mu as int + 1),
                        1 <= sq as int <= 0xFFFF_FFFF_FFFF_FFFFint,
                        mu as int >= 0,
                ;
                lemma_div_trunc_bound(1_000_000 * self@.x, mu as int);
                lemma_div_trunc_bound(1_000_000 * self@.y, mu as int);
                lemma_div_trunc_bound(1_000_000 * self@.z, mu as int);
            }
            let m = mu as i64;
            self.x = 1_000_000 * self.x / m;
            self.y = 1_000_000 * self.y / m;
            self.z = 1_000_000 * self.z / m;
        }
    }
}

/// The zero vector is the only vector of magnitude zero, and normalising
/// leaves it unchanged.
pub proof fn lemma_normalise_zero(v: Vec3)
    requires
        v.norm_sq() == 0,
    ensures
        normalised(v) == v,
        v == (Vec3 { x: 0, y: 0, z: 0 }),
{
    assert(v.x * v.x >= 0) by (nonlinear_arith);
    assert(v.y * v.y >= 0) by (nonlinear_arith);
    assert(v.z * v.z >= 0) by (nonlinear_arith);
    assert(v.x == 0) by (nonlinear_arith)
        requires
            v.x * v.x <= 0,
    ;
    assert(v.y == 0) by (nonlinear_arith)
        requires
            v.y * v.y <= 0,
    ;
    assert(v.z == 0) by (nonlinear_arith)
        requires
            v.z * v.z <= 0,
    ;
}

/// Normalising any positive multiple of a vector of the model's unit length
/// (squared magnitude one million) yields exactly that vector back:
/// direction preserved, magnitude exactly one.
pub proof fn lemma_normalise_unit_multiple(u: Vec3, k: int)
    requires
        u.norm_sq() == 1_000_000,
        k > 0,
    ensures
        normalised(u.scaled(k)) == u,
        normalised(u.scaled(k)).norm_sq() == 1_000_000,
{
    let v = u.scaled(k);
    assert((u.x * k) * (u.x * k) == (u.x * u.x) * (k * k)) by (nonlinear_arith);
    assert((u.y * k) * (u.y * k) == (u.y * u.y) * (k * k)) by (nonlinear_arith);
    assert((u.z * k) * (u.z * k) == (u.z * u.z) * (k * k)) by (nonlinear_arith);
    assert((u.x * u.x) * (k * k) + (u.y * u.y) * (k * k) + (u.z * u.z) * (k * k) == (u.x * u.x
        + u.y * u.y + u.z * u.z) * (k * k)) by (nonlinear_arith);
    assert((u.x * u.x + u.y * u.y + u.z * u.z) * (k * k) == 1_000_000 * (k * k))
        by (nonlinear_arith)
        requires
            u.x * u.x + u.y * u.y + u.z * u.z == 1_000_000,
    ;
    assert(v.norm_sq() == 1_000_000 * (k * k));
    let m = 1_000_000 * k;
    assert(m * m == 1_000_000 * (1_000_000 * (k * k))) by (nonlinear_arith)
        requires
            m == 1_000_000 * k,
    ;
    assert(m * m > 0) by (nonlinear_arith)
        requires
            m > 0,
    ;
    assert(m * m < (m + 1) * (m + 1)) by (nonlinear_arith)
        requires
            m > 0,
    ;
    lemma_sqrt_floor(1_000_000 * (1_000_000 * (k * k)), m);
    lemma_div_trunc_exact(u.x, m);
    lemma_div_trunc_exact(u.y, m);
    lemma_div_trunc_exact(u.z, m);
    assert(1_000_000 * (u.x * k) == u.x * m) by (nonlinear_arith)
        requires
            m == 1_000_000 * k,
    ;
    assert(1_000_000 * (u.y * k) == u.y * m) by (nonlinear_arith)
        requires
            m == 1_000_000 * k,
    ;
    assert(1_000_000 * (u.z * k) == u.z * m) by (nonlinear_arith)
        requires
            m == 1_000_000 * k,
    ;
}

/// Bounds on one rescaled component of a normalised vector: against the
/// scaled floor magnitude `m`, the quotient's square recovers the
/// component's share of the squared magnitude to within one division step.
proof fn lemma_normalise_component(v: int, m: int)
    requires
        m >= 1,
    ensures
        ({
            let q = div_trunc(1_000_000 * v, m);
            let w = if v >= 0 { v } else { -v };
            &&& q * q * (m * m) <= 1_000_000_000_000 * (v * v)
            &&& q * q * (m * m) >= 1_000_000_000_000 * (v * v) - 2_000_000 * (w * m)
        }),
{
    let q = div_trunc(1_000_000 * v, m);
    let w = if v >= 0 { v } else { -v };
    let qa = (1_000_000 * w) / m;
    assert(w * w == v * v) by (nonlinear_arith)
        requires
            w == v || w == -v,
    ;
    if v >= 0 {
        assert(q == qa);
    } else {
        assert(1_000_000 * v < 0) by (nonlinear_arith)
            requires
                v < 0,
        ;
        assert(q == -qa);
    }
    assert(q * q == qa * qa) by (nonlinear_arith)
        requires
            q == qa || q == -qa,
    ;
    vstd::arithmetic::div_mod::lemma_fundamental_div_mod(1_000_000 * w, m);
    vstd::arithmetic::div_mod::lemma_mod_bound(1_000_000 * w, m);
    vstd::arithmetic::div_mod::lemma_div_pos_is_pos(1_000_000 * w, m);
    let rr = (1_000_000 * w) % m;
    assert(m * qa == 1_000_000 * w - rr);
    // Upper bound: the quotient never overshoots.
    assert(m * qa >= 0) by (nonlinear_arith)
        requires
            m >= 1,
            qa >= 0,
    ;
    assert(0 <= m * qa <= 1_000_000 * w);
    assert((m * qa) * (m * qa) <= (1_000_000 * w) * (1_000_000 * w)) by (nonlinear_arith)
        requires
            0 <= m * qa <= 1_000_000 * w,
    ;
    assert((m * qa) * (m * qa) == qa * qa * (m * m)) by (nonlinear_arith);
    assert((1_000_000 * w) * (1_000_000 * w) == 1_000_000_000_000 * (w * w)) by (nonlinear_arith);
    // Lower bound: the quotient undershoots by less than one step of `m`.
    if 1_000_000 * w >= m {
        assert(m * qa >= 1_000_000 * w - m >= 0);
        assert((m * qa) * (m * qa) >= (1_000_000 * w - m) * (1_000_000 * w - m))
            by (nonlinear_arith)
            requires
                m * qa >= 1_000_000 * w - m >= 0,
        ;
        assert((1_000_000 * w - m) * (1_000_000 * w - m) >= 1_000_000_000_000 * (w * w)
            - 2_000_000 * (w * m)) by (nonlinear_arith);
    } else {
        assert(qa == 0) by (nonlinear_arith)
            requires
                0 <= m * qa <= 1_000_000 * w,
                1_000_000 * w < m,
                qa >= 0,
                m >= 1,
        ;
        assert(1_000_000_000_000 * (w * w) - 2_000_000 * (w * m) <= 0) by (nonlinear_arith)
            requires
                w >= 0,
                m > 1_000_000 * w,
        ;
    }
}

/// Normalising any non-zero vector yields a vector whose squared magnitude
/// lies within one percent of one million: length one, to the model's
/// tolerance, whatever the direction and however short the vector.
pub proof fn lemma_normalise_near_unit(v: Vec3)
    requires
        v.norm_sq() >= 1,
    ensures
        994_000 <= normalised(v).norm_sq() <= 1_002_001,
{
    let n = v.norm_sq();
    crate::arith::lemma_sqrt_floor_exists(1_000_000 * n);
    let m = sqrt_floor(1_000_000 * n);
    assert(m >= 1000) by (nonlinear_arith)
        requires
            (m + 1) * (m + 1) > 1_000_000 * n,
            n >= 1,
            m >= 0,
    ;
    assert(v.x * v.x >= 0) by (nonlinear_arith);
    assert(v.y * v.y >= 0) by (nonlinear_arith);
    assert(v.z * v.z >= 0) by (nonlinear_arith);
    let wx = if v.x >= 0 { v.x } else { -v.x };
    let wy = if v.y >= 0 { v.y } else { -v.y };
    let wz = if v.z >= 0 { v.z } else { -v.z };
    assert(0 <= 1000 * wx <= m && 0 <= 1000 * wy <= m && 0 <= 1000 * wz <= m)
        by (nonlinear_arith)
        requires
            v.x * v.x <= n,
            v.y * v.y <= n,
            v.z * v.z <= n,
            1_000_000 * n < (m + 1) * (m + 1),
            m >= 0,
            wx == if v.x >= 0 { v.x } else { -v.x },
            wy == if v.y >= 0 { v.y } else { -v.y },
            wz == if v.z >= 0 { v.z } else { -v.z },
    ;
    lemma_normalise_component(v.x, m);
    lemma_normalise_component(v.y, m);
    lemma_normalise_component(v.z, m);
    let qx = div_trunc(1_000_000 * v.x, m);
    let qy = div_trunc(1_000_000 * v.y, m);
    let qz = div_trunc(1_000_000 * v.z, m);
    assert(2_000_000 * (wx * m) + 2_000_000 * (wy * m) + 2_000_000 * (wz * m) <= 6000 * (m * m))
        by (nonlinear_arith)
        requires
            0 <= 1000 * wx <= m,
            0 <= 1000 * wy <= m,
            0 <= 1000 * wz <= m,
            m >= 1,
    ;
    assert((qx * qx + qy * qy + qz * qz) * (m * m) == qx * qx * (m * m) + qy * qy * (m * m) + qz
        * qz * (m * m)) by (nonlinear_arith);
    assert(1_000_000_000_000 * n >= 1_000_000 * (m * m)) by (nonlinear_arith)
        requires
            1_000_000 * n >= m * m,
    ;
    assert((qx * qx + qy * qy + qz * qz) * (m * m) >= 994_000 * (m * m));
    assert(1_000_000 * n <= m * m + 2 * m) by (nonlinear_arith)
        requires
            1_000_000 * n < (m + 1) * (m + 1),
    ;
    assert(1_000_000_000_000 * n <= 1_000_000 * (m * m) + 2_000_000 * m) by (nonlinear_arith)
        requires
            1_000_000 * n <= m * m + 2 * m,
    ;
    assert(2_000_000 * m <= 2000 * (m * m) && 1_000_000 <= m * m) by (nonlinear_arith)
        requires
            m >= 1000,
    ;
    assert((qx * qx + qy * qy + qz * qz) * (m * m) <= 1_002_001 * (m * m));
    assert(994_000 <= qx * qx + qy * qy + qz * qz <= 1_002_001) by (nonlinear_arith)
        requires
            (qx * qx + qy * qy + qz * qz) * (m * m) >= 994_000 * (m * m),
            (qx * qx + qy * qy + qz * qz) * (m * m) <= 1_002_001 * (m * m),
            m >= 1,
    ;
    assert(normalised(v).norm_sq() == qx * qx + qy * qy + qz * qz);
}

/// Components of a direction within the model's unit band are at most 1015
/// in magnitude, and so are their squares within the band's ceiling.
pub proof fn lemma_direction_components(d: Vec3)
    requires
        990_000 <= d.norm_sq() <= 1_030_000,
    ensures
        -1015 <= d.x <= 1015,
        -1015 <= d.y <= 1015,
        -1015 <= d.z <= 1015,
        0 <= d.x * d.x <= 1_030_000,
        0 <= d.y * d.y <= 1_030_000,
        0 <= d.z * d.z <= 1_030_000,
{
    assert(d.x * d.x >= 0) by (nonlinear_arith);
    assert(d.y * d.y >= 0) by (nonlinear_arith);
    assert(d.z * d.z >= 0) by (nonlinear_arith);
    assert(-1015 <= d.x <= 1015) by (nonlinear_arith)
        requires
            d.x * d.x <= 1_030_000,
    ;
    assert(-1015 <= d.y <= 1015) by (nonlinear_arith)
        requires
            d.y * d.y <= 1_030_000,
    ;
    assert(-1015 <= d.z <= 1015) by (nonlinear_arith)
        requires
            d.z * d.z <= 1_030_000,
    ;
}

/// Every component of a normalised vector is at most 1001 in magnitude.
pub proof fn lemma_normalised_components(v: Vec3)
    ensures
        -1001 <= normalised(v).x <= 1001,
        -1001 <= normalised(v).y <= 1001,
        -1001 <= normalised(v).z <= 1001,
{
    assert(v.x * v.x >= 0) by (nonlinear_arith);
    assert(v.y * v.y >= 0) by (nonlinear_arith);
    assert(v.z * v.z >= 0) by (nonlinear_arith);
    if v.norm_sq() == 0 {
        lemma_normalise_zero(v);
    } else {
        lemma_normalise_near_unit(v);
        let r = normalised(v);
        assert(r.x * r.x >= 0) by (nonlinear_arith);
        assert(r.y * r.y >= 0) by (nonlinear_arith);
        assert(r.z * r.z >= 0) by (nonlinear_arith);
        assert(-1001 <= r.x <= 1001) by (nonlinear_arith)
            requires
                r.x * r.x <= 1_002_001,
        ;
        assert(-1001 <= r.y <= 1001) by (nonlinear_arith)
            requires
                r.y * r.y <= 1_002_001,
        ;
        assert(-1001 <= r.z <= 1001) by (nonlinear_arith)
            requires
                r.z * r.z <= 1_002_001,
        ;
    }
}

/// Intensity in thousandths corresponding to an 8-bit colour channel.
pub open spec fn light_of_pixel_channel(c: int) -> int {
    c * 1000 / 255
}

/// 8-bit colour channel corresponding to an intensity in thousandths,
/// saturating at full intensity.
pub open spec fn pixel_of_light_channel(l: int) -> int {
    if l * 255 / 1000 > 255 {
        255
    } else {
        l * 255 / 1000
    }
}

impl Vector<u8> {
    /// Pixel colour nearest a light colour, each channel saturating at 255.
    pub fn from_light_colour(light_colour: &LightColour) -> (r: Self)
        ensures
            r@.x == pixel_of_light_channel(light_colour@.x),
            r@.y == pixel_of_light_channel(light_colour@.y),
            r@.z == pixel_of_light_channel(light_colour@.z),
    {
        PixelColour::from_array([
            descale_channel(light_colour.x),
            descale_channel(light_colour.y),
            descale_channel(light_colour.z),
        ])
    }

    /// Light colour of a pixel colour, each channel as a fraction of 255.
    pub fn to_light_colour(&self) -> (r: LightColour)
        ensures
            r@.x == light_of_pixel_channel(self@.x),
            r@.y == light_of_pixel_channel(self@.y),
            r@.z == light_of_pixel_channel(self@.z),
    {
        LightColour::from_array([
            upscale_channel(self.x),
            upscale_channel(self.y),
            upscale_channel(self.z),
        ])
    }

    /// Every channel divided by the scalar `rhs`, rounding down.
    pub fn div_scalar(&self, rhs: u8) -> (r: Self)
        requires
            rhs > 0,
        ensures
            r@.x == self@.x / rhs as int,
            r@.y == self@.y / rhs as int,
            r@.z == self@.z / rhs as int,
    {
        Vector::new(self.x / rhs, self.y / rhs, self.z / rhs)
    }

    /// Component-wise sum of two pixel colours, each channel saturating at
    /// 255.
    pub fn saturating_add(&self, rhs: &Self) -> (r: Self)
        ensures
            r@.x == if self@.x + rhs@.x > 255 { 255int } else { self@.x + rhs@.x },
            r@.y == if self@.y + rhs@.y > 255 { 255int } else { self@.y + rhs@.y },
            r@.z == if self@.z + rhs@.z > 255 { 255int } else { self@.z + rhs@.z },
    {
        Vector::new(
            saturating_add_u8(self.x, rhs.x),
            saturating_add_u8(self.y, rhs.y),
            saturating_add_u8(self.z, rhs.z),
        )
    }
}

fn saturating_add_u8(a: u8, b: u8) -> (r: u8)
    ensures
        r as int == if a + b > 255 { 255int } else { a + b },
{
    if 255 - a < b {
        255
    } else {
        a + b
    }
}

fn upscale_channel(c: u8) -> (r: u32)
    ensures
        r as int == light_of_pixel_channel(c as int),
{
    c as u32 * 1000 / 255
}

fn descale_channel(l: u32) -> (r: u8)
    ensures
        r as int == pixel_of_light_channel(l as int),
{
    let wide: u64 = l as u64 * 255 / 1000;
    if wide > 255 {
        255
    } else {
        wide as u8
    }
}

/// Columns of a matrix as mathematical vectors.
pub open spec fn col<T: VectorNum>(m: Matrix3x3<T>, i: int) -> Vec3
    recommends
        0 <= i < 3,
{
    m[i]@
}

/// Image of a vector under a matrix held as three columns.
pub open spec fn mat_vec(c0: Vec3, c1: Vec3, c2: Vec3, v: Vec3) -> Vec3 {
    Vec3 {
        x: c0.x * v.x + c1.x * v.y + c2.x * v.z,
        y: c0.y * v.x + c1.y * v.y + c2.y * v.z,
        z: c0.z * v.x + c1.z * v.y + c2.z * v.z,
    }
}

/// Whether the three products and their running sums are all representable in
/// `T`.
pub open spec fn lin3_fits<T: VectorNum>(a: int, b: int, c: int) -> bool {
    fits::<T>(a) && fits::<T>(b) && fits::<T>(c) && fits::<T>(a + b) && fits::<T>(a + b + c)
}

/// Whether applying the matrix with columns `c0, c1, c2` to `v` stays
/// representable in `T` throughout.
pub open spec fn mat_vec_fits<T: VectorNum>(c0: Vec3, c1: Vec3, c2: Vec3, v: Vec3) -> bool {
    lin3_fits::<T>(c0.x * v.x, c1.x * v.y, c2.x * v.z)
        && lin3_fits::<T>(c0.y * v.x, c1.y * v.y, c2.y * v.z)
        && lin3_fits::<T>(c0.z * v.x, c1.z * v.y, c2.z * v.z)
}

/// Apply a matrix, held as three column vectors, to a vector.
pub fn matrix_vec_mul<T: VectorNum>(m: &Matrix3x3<T>, rhs: &Vector<T>) -> (r: Vector<T>)
    requires
        mat_vec_fits::<T>(col(*m, 0), col(*m, 1), col(*m, 2), rhs@),
    ensures
        r@ == mat_vec(col(*m, 0), col(*m, 1), col(*m, 2), rhs@),
{
    let x = m[0].x.num_mul(rhs.x).num_add(m[1].x.num_mul(rhs.y)).num_add(m[2].x.num_mul(rhs.z));
    let y = m[0].y.num_mul(rhs.x).num_add(m[1].y.num_mul(rhs.y)).num_add(m[2].y.num_mul(rhs.z));
    let z = m[0].z.num_mul(rhs.x).num_add(m[1].z.num_mul(rhs.y)).num_add(m[2].z.num_mul(rhs.z));

    Vector::new(x, y, z)
}

/// Compose two matrices: each column of `right` is mapped through `left`.
pub fn matrix_mul<T: VectorNum>(left: Matrix3x3<T>, right: Matrix3x3<T>) -> (r: Matrix3x3<T>)
    requires
        mat_vec_fits::<T>(col(left, 0), col(left, 1), col(left, 2), col(right, 0)),
        mat_vec_fits::<T>(col(left, 0), col(left, 1), col(left, 2), col(right, 1)),
        mat_vec_fits::<T>(col(left, 0), col(left, 1), col(left, 2), col(right, 2)),
    ensures
        col(r, 0) == mat_vec(col(left, 0), col(left, 1), col(left, 2), col(right, 0)),
        col(r, 1) == mat_vec(col(left, 0), col(left, 1), col(left, 2), col(right, 1)),
        col(r, 2) == mat_vec(col(left, 0), col(left, 1), col(left, 2), col(right, 2)),
{
    let x = matrix_vec_mul(&left, &right[0]);
    let y = matrix_vec_mul(&left, &right[1]);
    let z = matrix_vec_mul(&left, &right[2]);

    [x, y, z]
}

/// The identity matrix over any vector scalar type.
pub fn id_matrix<T: VectorNum>() -> (r: Matrix3x3<T>)
    ensures
        col(r, 0) == (Vec3 { x: 1, y: 0, z: 0 }),
        col(r, 1) == (Vec3 { x: 0, y: 1, z: 0 }),
        col(r, 2) == (Vec3 { x: 0, y: 0, z: 1 }),
{
    [
        Vector::new(T::num_one(), T::num_zero(), T::num_zero()),
        Vector::new(T::num_zero(), T::num_one(), T::num_zero()),
        Vector::new(T::num_zero(), T::num_zero(), T::num_one()),
    ]
}

/// Cross products are orthogonal to both factors: for every pair of vectors,
/// the dot product of the cross product with either factor is zero.
pub proof fn lemma_cross_orthogonal(a: Vec3, b: Vec3)
    ensures
        a.cross(b).dot(a) == 0,
        a.cross(b).dot(b) == 0,
{
    assert((a.y * b.z - a.z * b.y) * a.x + (a.z * b.x - a.x * b.z) * a.y + (a.x * b.y - a.y
        * b.x) * a.z == 0) by (nonlinear_arith);
    assert((a.y * b.z - a.z * b.y) * b.x + (a.z * b.x - a.x * b.z) * b.y + (a.x * b.y - a.y
        * b.x) * b.z == 0) by (nonlinear_arith);
}

/// Round trip from an 8-bit colour channel to a light intensity and back:
/// the original value is reproduced to within one unit, and never exceeded.
pub proof fn lemma_light_colour_round_trip(c: int)
    requires
        0 <= c <= 255,
    ensures
        c - 1 <= pixel_of_light_channel(light_of_pixel_channel(c)) <= c,
{
    let p = c * 1000 / 255;
    vstd::arithmetic::div_mod::lemma_fundamental_div_mod(c * 1000, 255);
    vstd::arithmetic::div_mod::lemma_mod_bound(c * 1000, 255);
    vstd::arithmetic::div_mod::lemma_fundamental_div_mod(p * 255, 1000);
    vstd::arithmetic::div_mod::lemma_mod_bound(p * 255, 1000);
}

} // verus!
