//! Three-component vectors over saturating fixed-point scalars.
//!
//! Used for positions, directions and colors. Every executable operation
//! returns exactly the value of its spec-level mirror.

use vstd::prelude::*;

use crate::fix::{
    add_fx, div_fx, fx_add, fx_div, fx_mul, fx_sqrt, mul_fx, sqrt_fx, sub_fx, fx_sub,
};

verus! {

#[derive(Clone, Copy, Debug, PartialEq, Eq, Structural)]
pub struct Vec3 {
    pub x: i64,
    pub y: i64,
    pub z: i64,
}

/// Component-wise saturating addition.
pub open spec fn v3_add(a: Vec3, b: Vec3) -> Vec3 {
    Vec3 { x: fx_add(a.x, b.x), y: fx_add(a.y, b.y), z: fx_add(a.z, b.z) }
}

/// Component-wise saturating subtraction.
pub open spec fn v3_sub(a: Vec3, b: Vec3) -> Vec3 {
    Vec3 { x: fx_sub(a.x, b.x), y: fx_sub(a.y, b.y), z: fx_sub(a.z, b.z) }
}

/// Scale each component by the fixed-point scalar `s`.
pub open spec fn v3_scale(a: Vec3, s: i64) -> Vec3 {
    Vec3 { x: fx_mul(a.x, s), y: fx_mul(a.y, s), z: fx_mul(a.z, s) }
}

/// Dot product: the three component products, summed left to right.
pub open spec fn v3_dot(a: Vec3, b: Vec3) -> i64 {
    fx_add(fx_add(fx_mul(a.x, b.x), fx_mul(a.y, b.y)), fx_mul(a.z, b.z))
}

/// Euclidean length.
pub open spec fn v3_length(a: Vec3) -> i64 {
    fx_sqrt(v3_dot(a, a))
}

/// The vector scaled to unit length; the zero vector (anything of length
/// below one fixed-point unit) is returned unchanged.
#[verifier::opaque]
pub open spec fn v3_normalize(a: Vec3) -> Vec3 {
    let len = v3_length(a);
    if len == 0 {
        a
    } else {
        Vec3 { x: fx_div(a.x, len), y: fx_div(a.y, len), z: fx_div(a.z, len) }
    }
}

/// The dot product of a vector with itself is non-negative.
pub proof fn lemma_dot_self_nonneg(a: Vec3)
    ensures
        0 <= v3_dot(a, a),
{
    lemma_square_fx_nonneg(a.x);
    lemma_square_fx_nonneg(a.y);
    lemma_square_fx_nonneg(a.z);
}

/// A fixed-point square is non-negative.
pub proof fn lemma_square_fx_nonneg(v: i64)
    ensures
        0 <= fx_mul(v, v),
{
    assert(0 <= v * v) by (nonlinear_arith);
}

impl Vec3 {
    /// Build a vector from its fixed-point components.
    pub fn new(x: i64, y: i64, z: i64) -> (r: Vec3)
        ensures
            r == (Vec3 { x, y, z }),
    {
        Vec3 { x, y, z }
    }

    /// The zero vector.
    pub fn zero() -> (r: Vec3)
        ensures
            r == (Vec3 { x: 0i64, y: 0i64, z: 0i64 }),
    {
        Vec3 { x: 0, y: 0, z: 0 }
    }

    /// Component-wise saturating addition.
    pub fn add(self, o: Vec3) -> (r: Vec3)
        ensures
            r == v3_add(self, o),
    {
        Vec3 { x: add_fx(self.x, o.x), y: add_fx(self.y, o.y), z: add_fx(self.z, o.z) }
    }

    /// Component-wise saturating subtraction.
    pub fn sub(self, o: Vec3) -> (r: Vec3)
        ensures
            r == v3_sub(self, o),
    {
        Vec3 { x: sub_fx(self.x, o.x), y: sub_fx(self.y, o.y), z: sub_fx(self.z, o.z) }
    }

    /// Scale by a fixed-point scalar.
    pub fn scale(self, s: i64) -> (r: Vec3)
        ensures
            r == v3_scale(self, s),
    {
        Vec3 { x: mul_fx(self.x, s), y: mul_fx(self.y, s), z: mul_fx(self.z, s) }
    }

    /// Dot product.
    pub fn dot(self, o: Vec3) -> (r: i64)
        ensures
            r == v3_dot(self, o),
    {
        add_fx(add_fx(mul_fx(self.x, o.x), mul_fx(self.y, o.y)), mul_fx(self.z, o.z))
    }

    /// Euclidean length.
    pub fn length(self) -> (r: i64)
        ensures
            r == v3_length(self),
    {
        let d: i64 = self.dot(self);
        proof {
            lemma_dot_self_nonneg(self);
        }
        sqrt_fx(d)
    }

    /// Scale to unit length; the zero vector is returned unchanged.
    pub fn normalize(self) -> (r: Vec3)
        ensures
            r == v3_normalize(self),
    {
        proof {
            reveal(v3_normalize);
        }
        let len: i64 = self.length();
        if len == 0 {
            self
        } else {
            Vec3 {
                x: div_fx(self.x, len),
                y: div_fx(self.y, len),
                z: div_fx(self.z, len),
            }
        }
    }
}

} // verus!
