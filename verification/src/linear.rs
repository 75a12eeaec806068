//! Vectors, quaternions and matrices of single-precision numbers, each
//! number held as its IEEE 754 bit pattern.

use vstd::prelude::*;

verus! {

/// Bit pattern of `0.0`.
pub const ZERO: u32 = 0;

/// Bit pattern of `1.0`.
pub const ONE: u32 = 0x3F80_0000;

/// A vector of two single-precision numbers.
#[derive(Clone, Copy, Debug, PartialEq, Eq)]
pub struct Vec2 {
    pub x: u32,
    pub y: u32,
}

/// A vector of three single-precision numbers.
#[derive(Clone, Copy, Debug, PartialEq, Eq)]
pub struct Vec3 {
    pub x: u32,
    pub y: u32,
    pub z: u32,
}

/// A vector of four single-precision numbers.
#[derive(Clone, Copy, Debug, PartialEq, Eq)]
pub struct Vec4 {
    pub x: u32,
    pub y: u32,
    pub z: u32,
    pub w: u32,
}

/// A quaternion `w + i + j + k`, stored vector part first.
#[derive(Clone, Copy, Debug, PartialEq, Eq)]
pub struct Quat {
    pub i: u32,
    pub j: u32,
    pub k: u32,
    pub w: u32,
}

/// A 4x4 matrix stored by columns.
#[derive(Clone, Copy, Debug, PartialEq, Eq)]
pub struct Mat4 {
    pub c0: Vec4,
    pub c1: Vec4,
    pub c2: Vec4,
    pub c3: Vec4,
}

impl Vec2 {
    /// The vector whose two coordinates are `value`.
    pub open spec fn splat(value: u32) -> Vec2 {
        Vec2 { x: value, y: value }
    }
}

impl Vec3 {
    /// The vector whose three coordinates are `value`.
    pub open spec fn splat(value: u32) -> Vec3 {
        Vec3 { x: value, y: value, z: value }
    }
}

impl Vec4 {
    /// The vector whose four coordinates are `value`.
    pub open spec fn splat(value: u32) -> Vec4 {
        Vec4 { x: value, y: value, z: value, w: value }
    }

    /// The first three coordinates.
    pub open spec fn spec_xyz(self) -> Vec3 {
        Vec3 { x: self.x, y: self.y, z: self.z }
    }

    /// The first three coordinates.
    #[verifier::when_used_as_spec(spec_xyz)]
    pub fn xyz(self) -> (v: Vec3)
        ensures
            v == self.spec_xyz(),
    {
        Vec3 { x: self.x, y: self.y, z: self.z }
    }
}

impl Quat {
    /// The rotation that turns nothing: `(0, 0, 0, 1)`.
    pub open spec fn identity() -> Quat {
        Quat { i: ZERO, j: ZERO, k: ZERO, w: ONE }
    }
}

impl Mat4 {
    /// The matrix whose sixteen entries are `0.0`.
    pub open spec fn zero() -> Mat4 {
        Mat4 {
            c0: Vec4::splat(ZERO),
            c1: Vec4::splat(ZERO),
            c2: Vec4::splat(ZERO),
            c3: Vec4::splat(ZERO),
        }
    }
}

impl Default for Vec2 {
    fn default() -> (v: Self)
        ensures
            v == Vec2::splat(ZERO),
    {
        Vec2 { x: ZERO, y: ZERO }
    }
}

impl Default for Vec3 {
    fn default() -> (v: Self)
        ensures
            v == Vec3::splat(ZERO),
    {
        Vec3 { x: ZERO, y: ZERO, z: ZERO }
    }
}

impl Default for Vec4 {
    fn default() -> (v: Self)
        ensures
            v == Vec4::splat(ZERO),
    {
        Vec4 { x: ZERO, y: ZERO, z: ZERO, w: ZERO }
    }
}

impl Default for Mat4 {
    fn default() -> (m: Self)
        ensures
            m == Mat4::zero(),
    {
        let zero = Vec4 { x: ZERO, y: ZERO, z: ZERO, w: ZERO };
        Mat4 { c0: zero, c1: zero, c2: zero, c3: zero }
    }
}

} // verus!
