//! Integer vectors and 4x4 matrices.
//!
//! Translation entries are `i64` subunits; the matrix diagonal is at unit
//! scale, so the identity is a true multiplicative identity. Addition and
//! multiplication wrap on overflow, so every operation is total and its
//! result is pinned exactly by the wrapping arithmetic the `ensures`
//! clauses state.

use vstd::prelude::*;

verus! {

/// A 3-component integer vector; coordinates are in subunits.
#[derive(Clone, Copy, PartialEq, Eq, Structural, Debug)]
pub struct Vec3i {
    pub x: i64,
    pub y: i64,
    pub z: i64,
}

impl Vec3i {
    pub fn new(x: i64, y: i64, z: i64) -> (r: Vec3i)
        ensures
            r == (Vec3i { x, y, z }),
    {
        Vec3i { x, y, z }
    }

    pub fn zero() -> (r: Vec3i)
        ensures
            r == (Vec3i { x: 0i64, y: 0i64, z: 0i64 }),
    {
        Vec3i { x: 0, y: 0, z: 0 }
    }
}

/// A 4x4 integer matrix, row-major: `mRC` is row R, column C.
#[derive(Clone, Copy, PartialEq, Eq, Structural, Debug)]
pub struct Mat4 {
    pub m00: i64, pub m01: i64, pub m02: i64, pub m03: i64,
    pub m10: i64, pub m11: i64, pub m12: i64, pub m13: i64,
    pub m20: i64, pub m21: i64, pub m22: i64, pub m23: i64,
    pub m30: i64, pub m31: i64, pub m32: i64, pub m33: i64,
}

/// Wrapping dot product of a matrix row with a matrix column.
pub open spec fn spec_dot4(a0: i64, a1: i64, a2: i64, a3: i64, b0: i64, b1: i64, b2: i64, b3: i64) -> i64 {
    a0.wrapping_mul(b0)
        .wrapping_add(a1.wrapping_mul(b1))
        .wrapping_add(a2.wrapping_mul(b2))
        .wrapping_add(a3.wrapping_mul(b3))
}

/// The wrapping product of two matrices.
pub open spec fn spec_mul(a: Mat4, b: Mat4) -> Mat4 {
    Mat4 {
        m00: spec_dot4(a.m00, a.m01, a.m02, a.m03, b.m00, b.m10, b.m20, b.m30),
        m01: spec_dot4(a.m00, a.m01, a.m02, a.m03, b.m01, b.m11, b.m21, b.m31),
        m02: spec_dot4(a.m00, a.m01, a.m02, a.m03, b.m02, b.m12, b.m22, b.m32),
        m03: spec_dot4(a.m00, a.m01, a.m02, a.m03, b.m03, b.m13, b.m23, b.m33),
        m10: spec_dot4(a.m10, a.m11, a.m12, a.m13, b.m00, b.m10, b.m20, b.m30),
        m11: spec_dot4(a.m10, a.m11, a.m12, a.m13, b.m01, b.m11, b.m21, b.m31),
        m12: spec_dot4(a.m10, a.m11, a.m12, a.m13, b.m02, b.m12, b.m22, b.m32),
        m13: spec_dot4(a.m10, a.m11, a.m12, a.m13, b.m03, b.m13, b.m23, b.m33),
        m20: spec_dot4(a.m20, a.m21, a.m22, a.m23, b.m00, b.m10, b.m20, b.m30),
        m21: spec_dot4(a.m20, a.m21, a.m22, a.m23, b.m01, b.m11, b.m21, b.m31),
        m22: spec_dot4(a.m20, a.m21, a.m22, a.m23, b.m02, b.m12, b.m22, b.m32),
        m23: spec_dot4(a.m20, a.m21, a.m22, a.m23, b.m03, b.m13, b.m23, b.m33),
        m30: spec_dot4(a.m30, a.m31, a.m32, a.m33, b.m00, b.m10, b.m20, b.m30),
        m31: spec_dot4(a.m30, a.m31, a.m32, a.m33, b.m01, b.m11, b.m21, b.m31),
        m32: spec_dot4(a.m30, a.m31, a.m32, a.m33, b.m02, b.m12, b.m22, b.m32),
        m33: spec_dot4(a.m30, a.m31, a.m32, a.m33, b.m03, b.m13, b.m23, b.m33),
    }
}

fn dot4(a0: i64, a1: i64, a2: i64, a3: i64, b0: i64, b1: i64, b2: i64, b3: i64) -> (r: i64)
    ensures
        r == spec_dot4(a0, a1, a2, a3, b0, b1, b2, b3),
{
    a0.wrapping_mul(b0)
        .wrapping_add(a1.wrapping_mul(b1))
        .wrapping_add(a2.wrapping_mul(b2))
        .wrapping_add(a3.wrapping_mul(b3))
}

impl Mat4 {
    /// The identity matrix.
    pub open spec fn spec_identity() -> Mat4 {
        Mat4 {
            m00: 1i64, m01: 0i64, m02: 0i64, m03: 0i64,
            m10: 0i64, m11: 1i64, m12: 0i64, m13: 0i64,
            m20: 0i64, m21: 0i64, m22: 1i64, m23: 0i64,
            m30: 0i64, m31: 0i64, m32: 0i64, m33: 1i64,
        }
    }

    pub fn identity() -> (r: Mat4)
        ensures
            r == Mat4::spec_identity(),
    {
        Mat4 {
            m00: 1i64, m01: 0, m02: 0, m03: 0,
            m10: 0, m11: 1i64, m12: 0, m13: 0,
            m20: 0, m21: 0, m22: 1i64, m23: 0,
            m30: 0, m31: 0, m32: 0, m33: 1i64,
        }
    }

    /// A translation matrix: identity with `t` in the last column.
    pub open spec fn spec_translation(t: Vec3i) -> Mat4 {
        Mat4 {
            m03: t.x,
            m13: t.y,
            m23: t.z,
            ..Mat4::spec_identity()
        }
    }

    pub fn translation(t: Vec3i) -> (r: Mat4)
        ensures
            r == Mat4::spec_translation(t),
    {
        Mat4 {
            m00: 1i64, m01: 0, m02: 0, m03: t.x,
            m10: 0, m11: 1i64, m12: 0, m13: t.y,
            m20: 0, m21: 0, m22: 1i64, m23: t.z,
            m30: 0, m31: 0, m32: 0, m33: 1i64,
        }
    }

    /// A scaling matrix with the integer factors `s` on the diagonal.
    pub open spec fn spec_scaling(s: Vec3i) -> Mat4 {
        Mat4 {
            m00: s.x,
            m11: s.y,
            m22: s.z,
            ..Mat4::spec_identity()
        }
    }

    pub fn scaling(s: Vec3i) -> (r: Mat4)
        ensures
            r == Mat4::spec_scaling(s),
    {
        Mat4 {
            m00: s.x, m01: 0, m02: 0, m03: 0,
            m10: 0, m11: s.y, m12: 0, m13: 0,
            m20: 0, m21: 0, m22: s.z, m23: 0,
            m30: 0, m31: 0, m32: 0, m33: 1i64,
        }
    }

    /// The wrapping matrix product `self * rhs`.
    pub fn mul(&self, rhs: &Mat4) -> (r: Mat4)
        ensures
            r == spec_mul(*self, *rhs),
    {
        Mat4 {
            m00: dot4(self.m00, self.m01, self.m02, self.m03, rhs.m00, rhs.m10, rhs.m20, rhs.m30),
            m01: dot4(self.m00, self.m01, self.m02, self.m03, rhs.m01, rhs.m11, rhs.m21, rhs.m31),
            m02: dot4(self.m00, self.m01, self.m02, self.m03, rhs.m02, rhs.m12, rhs.m22, rhs.m32),
            m03: dot4(self.m00, self.m01, self.m02, self.m03, rhs.m03, rhs.m13, rhs.m23, rhs.m33),
            m10: dot4(self.m10, self.m11, self.m12, self.m13, rhs.m00, rhs.m10, rhs.m20, rhs.m30),
            m11: dot4(self.m10, self.m11, self.m12, self.m13, rhs.m01, rhs.m11, rhs.m21, rhs.m31),
            m12: dot4(self.m10, self.m11, self.m12, self.m13, rhs.m02, rhs.m12, rhs.m22, rhs.m32),
            m13: dot4(self.m10, self.m11, self.m12, self.m13, rhs.m03, rhs.m13, rhs.m23, rhs.m33),
            m20: dot4(self.m20, self.m21, self.m22, self.m23, rhs.m00, rhs.m10, rhs.m20, rhs.m30),
            m21: dot4(self.m20, self.m21, self.m22, self.m23, rhs.m01, rhs.m11, rhs.m21, rhs.m31),
            m22: dot4(self.m20, self.m21, self.m22, self.m23, rhs.m02, rhs.m12, rhs.m22, rhs.m32),
            m23: dot4(self.m20, self.m21, self.m22, self.m23, rhs.m03, rhs.m13, rhs.m23, rhs.m33),
            m30: dot4(self.m30, self.m31, self.m32, self.m33, rhs.m00, rhs.m10, rhs.m20, rhs.m30),
            m31: dot4(self.m30, self.m31, self.m32, self.m33, rhs.m01, rhs.m11, rhs.m21, rhs.m31),
            m32: dot4(self.m30, self.m31, self.m32, self.m33, rhs.m02, rhs.m12, rhs.m22, rhs.m32),
            m33: dot4(self.m30, self.m31, self.m32, self.m33, rhs.m03, rhs.m13, rhs.m23, rhs.m33),
        }
    }
}

} // verus!
