//! Three-component vectors, rays and packed colours over fixed-point scalars.
use crate::scalar::{
    add_spec, clamp, div_spec, div_wide, floor_sqrt, is_floor_sqrt, lemma_mul_bound,
    lemma_square_monotonic, mul_spec, neg_spec, sqrt_wide, sub_spec, trunc_div, Scalar, ONE_RAW,
};
use vstd::prelude::*;

verus! {

/// The mathematical value of a vector: its three raw components.
pub struct V3 {
    pub x: int,
    pub y: int,
    pub z: int,
}

pub open spec fn v3_add(a: V3, b: V3) -> V3 {
    V3 { x: add_spec(a.x, b.x), y: add_spec(a.y, b.y), z: add_spec(a.z, b.z) }
}

pub open spec fn v3_sub(a: V3, b: V3) -> V3 {
    V3 { x: sub_spec(a.x, b.x), y: sub_spec(a.y, b.y), z: sub_spec(a.z, b.z) }
}

pub open spec fn v3_neg(a: V3) -> V3 {
    V3 { x: neg_spec(a.x), y: neg_spec(a.y), z: neg_spec(a.z) }
}

/// The vector `v` multiplied by the scalar `k`.
pub open spec fn v3_scale(k: int, v: V3) -> V3 {
    V3 { x: mul_spec(k, v.x), y: mul_spec(k, v.y), z: mul_spec(k, v.z) }
}

/// The component-wise product.
pub open spec fn v3_mul(a: V3, b: V3) -> V3 {
    V3 { x: mul_spec(a.x, b.x), y: mul_spec(a.y, b.y), z: mul_spec(a.z, b.z) }
}

/// The vector `v` divided by the scalar `k`.
pub open spec fn v3_div(v: V3, k: int) -> V3 {
    V3 { x: div_spec(v.x, k), y: div_spec(v.y, k), z: div_spec(v.z, k) }
}

/// The dot product of the raw components, not rescaled: it carries the
/// square of the scale.
pub open spec fn dot_exact(a: V3, b: V3) -> int {
    a.x * b.x + a.y * b.y + a.z * b.z
}

/// The dot product as a scalar: the exact sum, rescaled once.
pub open spec fn dot_spec(a: V3, b: V3) -> int {
    clamp(trunc_div(dot_exact(a, b), ONE_RAW as int))
}

/// The length in raw units, rounded down, before saturation.
pub open spec fn length_exact(v: V3) -> int {
    floor_sqrt(dot_exact(v, v))
}

pub open spec fn length_spec(v: V3) -> int {
    clamp(length_exact(v))
}

/// The vector scaled to unit length; the zero vector stays zero.
pub open spec fn unit_spec(v: V3) -> V3 {
    let len = length_exact(v);
    if len == 0 {
        V3 { x: 0, y: 0, z: 0 }
    } else {
        V3 {
            x: trunc_div(v.x * ONE_RAW, len),
            y: trunc_div(v.y * ONE_RAW, len),
            z: trunc_div(v.z * ONE_RAW, len),
        }
    }
}

/// A component of a unit vector stays within one.
pub proof fn lemma_unit_component(x: int, sum: int, len: int)
    requires
        is_floor_sqrt(sum, len),
        x * x <= sum,
        len > 0,
    ensures
        -ONE_RAW <= trunc_div(x * ONE_RAW, len) <= ONE_RAW,
{
    if x > len {
        lemma_square_monotonic(len + 1, x);
    }
    if -x > len {
        lemma_square_monotonic(len + 1, -x);
        assert((-x) * (-x) == x * x) by (nonlinear_arith);
    }
    let m = if x >= 0 { x } else { -x };
    assert(0 <= m <= len);
    assert((m * 65536) / len <= 65536) by (nonlinear_arith)
        requires
            0 <= m <= len,
            len > 0,
    ;
    assert((m * 65536) / len >= 0) by (nonlinear_arith)
        requires
            0 <= m,
            len > 0,
    ;
    assert(-x * 65536 == -(x * 65536)) by (nonlinear_arith);
}

/// A vector of three fixed-point scalars.
#[derive(Clone, Copy, Debug, PartialEq, Eq)]
pub struct Vec3(pub Scalar, pub Scalar, pub Scalar);

impl View for Vec3 {
    type V = V3;

    open spec fn view(&self) -> V3 {
        V3 { x: self.0@, y: self.1@, z: self.2@ }
    }
}

impl Vec3 {
    pub fn new(x: Scalar, y: Scalar, z: Scalar) -> (v: Vec3)
        ensures
            v@ == (V3 { x: x@, y: y@, z: z@ }),
    {
        Vec3(x, y, z)
    }

    pub fn zero() -> (v: Vec3)
        ensures
            v@ == (V3 { x: 0, y: 0, z: 0 }),
    {
        Vec3(Scalar::zero(), Scalar::zero(), Scalar::zero())
    }

    /// The vector whose three components are all one.
    pub fn white() -> (v: Vec3)
        ensures
            v@ == (V3 { x: ONE_RAW as int, y: ONE_RAW as int, z: ONE_RAW as int }),
    {
        Vec3(Scalar::one(), Scalar::one(), Scalar::one())
    }

    pub fn x(&self) -> (s: Scalar)
        ensures
            s@ == self@.x,
    {
        self.0
    }

    pub fn y(&self) -> (s: Scalar)
        ensures
            s@ == self@.y,
    {
        self.1
    }

    pub fn z(&self) -> (s: Scalar)
        ensures
            s@ == self@.z,
    {
        self.2
    }

    pub fn add(self, rhs: Vec3) -> (v: Vec3)
        ensures
            v@ == v3_add(self@, rhs@),
    {
        Vec3(self.0.add(rhs.0), self.1.add(rhs.1), self.2.add(rhs.2))
    }

    pub fn sub(self, rhs: Vec3) -> (v: Vec3)
        ensures
            v@ == v3_sub(self@, rhs@),
    {
        Vec3(self.0.sub(rhs.0), self.1.sub(rhs.1), self.2.sub(rhs.2))
    }

    pub fn neg(self) -> (v: Vec3)
        ensures
            v@ == v3_neg(self@),
    {
        Vec3(self.0.neg(), self.1.neg(), self.2.neg())
    }

    /// This vector multiplied by the scalar `k`.
    pub fn scale(self, k: Scalar) -> (v: Vec3)
        ensures
            v@ == v3_scale(k@, self@),
    {
        Vec3(k.mul(self.0), k.mul(self.1), k.mul(self.2))
    }

    /// The component-wise product.
    pub fn mul(self, rhs: Vec3) -> (v: Vec3)
        ensures
            v@ == v3_mul(self@, rhs@),
    {
        Vec3(self.0.mul(rhs.0), self.1.mul(rhs.1), self.2.mul(rhs.2))
    }

    /// This vector divided by the scalar `k`.
    pub fn div(self, k: Scalar) -> (v: Vec3)
        ensures
            v@ == v3_div(self@, k@),
    {
        Vec3(self.0.div(k), self.1.div(k), self.2.div(k))
    }

    /// The exact dot product of the raw components.
    pub fn dot_wide(&self, other: &Vec3) -> (d: i128)
        ensures
            d == dot_exact(self@, other@),
            -0x3000_0000_0000_0000 <= d <= 0x3000_0000_0000_0000,
    {
        let ax: i128 = self.0.raw() as i128;
        let ay: i128 = self.1.raw() as i128;
        let az: i128 = self.2.raw() as i128;
        let bx: i128 = other.0.raw() as i128;
        let by: i128 = other.1.raw() as i128;
        let bz: i128 = other.2.raw() as i128;
        proof {
            lemma_mul_bound(ax as int, bx as int, 0x4000_0000, 0x4000_0000);
            lemma_mul_bound(ay as int, by as int, 0x4000_0000, 0x4000_0000);
            lemma_mul_bound(az as int, bz as int, 0x4000_0000, 0x4000_0000);
        }
        ax * bx + ay * by + az * bz
    }

    pub fn dot(&self, other: &Vec3) -> (s: Scalar)
        ensures
            s@ == dot_spec(self@, other@),
    {
        Scalar::from_wide(div_wide(self.dot_wide(other), 65536))
    }

    pub fn length(&self) -> (s: Scalar)
        ensures
            s@ == length_spec(self@),
    {
        let sum: i128 = self.dot_wide(self);
        assert(sum >= 0) by (nonlinear_arith)
            requires
                sum == dot_exact(self@, self@),
        ;
        let len: u128 = sqrt_wide(sum as u128);
        proof {
            if len > 0x1_0000_0000 {
                lemma_square_monotonic(0x1_0000_0000, len as int);
            }
        }
        Scalar::from_wide(len as i128)
    }

    /// This vector scaled to unit length; the zero vector stays zero.
    pub fn to_unit_vector(&self) -> (v: Vec3)
        ensures
            v@ == unit_spec(self@),
            -ONE_RAW <= v@.x <= ONE_RAW,
            -ONE_RAW <= v@.y <= ONE_RAW,
            -ONE_RAW <= v@.z <= ONE_RAW,
    {
        let sum: i128 = self.dot_wide(self);
        assert(sum >= 0 && self@.x * self@.x <= sum && self@.y * self@.y <= sum && self@.z
            * self@.z <= sum) by (nonlinear_arith)
            requires
                sum == dot_exact(self@, self@),
        ;
        let root: u128 = sqrt_wide(sum as u128);
        proof {
            if root > 0x1_0000_0000 {
                lemma_square_monotonic(0x1_0000_0000, root as int);
            }
        }
        let len: i128 = root as i128;
        if len == 0 {
            Vec3::zero()
        } else {
            proof {
                lemma_unit_component(self@.x, sum as int, len as int);
                lemma_unit_component(self@.y, sum as int, len as int);
                lemma_unit_component(self@.z, sum as int, len as int);
            }
            let x: i128 = div_wide(self.0.raw() as i128 * 65536, len);
            let y: i128 = div_wide(self.1.raw() as i128 * 65536, len);
            let z: i128 = div_wide(self.2.raw() as i128 * 65536, len);
            Vec3(Scalar::from_wide(x), Scalar::from_wide(y), Scalar::from_wide(z))
        }
    }

    /// The colour packed into eight bits per channel.
    pub fn to_rgb(&self) -> (c: Rgb)
        ensures
            c@ == rgb_spec(self@),
    {
        Rgb { r: pack_channel(self.0), g: pack_channel(self.1), b: pack_channel(self.2) }
    }
}

/// One channel brought into `[0, 1]` and rounded to the nearest of 256 levels.
pub open spec fn channel_spec(c: int) -> int {
    let x = if c < 0 {
        0
    } else if c > ONE_RAW {
        ONE_RAW as int
    } else {
        c
    };
    (x * 255 + 32768) / 65536
}

pub open spec fn rgb_spec(v: V3) -> (int, int, int) {
    (channel_spec(v.x), channel_spec(v.y), channel_spec(v.z))
}

/// Packs one channel into eight bits.
pub fn pack_channel(c: Scalar) -> (level: u8)
    ensures
        level == channel_spec(c@),
{
    let raw: i64 = c.raw();
    let x: i64 = if raw < 0 {
        0
    } else if raw > ONE_RAW {
        ONE_RAW
    } else {
        raw
    };
    let level: i64 = (x * 255 + 32768) / 65536;
    level as u8
}

/// A colour of eight bits per channel.
#[derive(Clone, Copy, Debug, PartialEq, Eq)]
pub struct Rgb {
    pub r: u8,
    pub g: u8,
    pub b: u8,
}

impl View for Rgb {
    type V = (int, int, int);

    open spec fn view(&self) -> (int, int, int) {
        (self.r as int, self.g as int, self.b as int)
    }
}

/// The mathematical value of a ray.
pub struct RayV {
    pub origin: V3,
    pub direction: V3,
}

/// The point at parameter `t` along a ray.
pub open spec fn point_at_spec(ray: RayV, t: int) -> V3 {
    v3_add(ray.origin, v3_scale(t, ray.direction))
}

/// A half-line: the points `origin + t * direction`.
#[derive(Clone, Copy, Debug, PartialEq, Eq)]
pub struct Ray {
    pub origin: Vec3,
    pub direction: Vec3,
}

impl View for Ray {
    type V = RayV;

    open spec fn view(&self) -> RayV {
        RayV { origin: self.origin@, direction: self.direction@ }
    }
}

impl Ray {
    pub fn new(origin: Vec3, direction: Vec3) -> (r: Ray)
        ensures
            r@ == (RayV { origin: origin@, direction: direction@ }),
    {
        Ray { origin, direction }
    }

    pub fn point_at_parameter(&self, t: Scalar) -> (p: Vec3)
        ensures
            p@ == point_at_spec(self@, t@),
    {
        self.origin.add(self.direction.scale(t))
    }
}

} // verus!
