//! The numeric capabilities the pipeline is generic over: range remapping,
//! scaling and adding, and barycentric interpolation of shader outputs.
use crate::scalar::Real;
use crate::vector::{Vec2, Vec3, Vec4};
use vstd::prelude::*;

verus! {

/// Linear change of range: maps `a` to `new_a` and `b` to `new_b`.
pub trait Remap: Sized {
    /// The value `new_a + (self - a) * (new_b - new_a) / (b - a)`.
    open spec fn remap_spec(self, a: Self, b: Self, new_a: Self, new_b: Self) -> Self {
        arbitrary()
    }

    fn remap(self, a: Self, b: Self, new_a: Self, new_b: Self) -> (r: Self)
        ensures
            r == self.remap_spec(a, b, new_a, new_b),
    ;
}

impl Remap for Real {
    /// Product and quotient are taken together, so the result is rounded once.
    open spec fn remap_spec(self, a: Real, b: Real, new_a: Real, new_b: Real) -> Real {
        new_a.add(self.sub(a).mul_div(new_b.sub(new_a), b.sub(a)))
    }

    fn remap(self, a: Real, b: Real, new_a: Real, new_b: Real) -> (r: Real) {
        new_a.add(self.sub(a).mul_div(new_b.sub(new_a), b.sub(a)))
    }
}

impl Remap for Vec2 {
    open spec fn remap_spec(self, a: Vec2, b: Vec2, new_a: Vec2, new_b: Vec2) -> Vec2 {
        Vec2 {
            x: self.x.remap_spec(a.x, b.x, new_a.x, new_b.x),
            y: self.y.remap_spec(a.y, b.y, new_a.y, new_b.y),
        }
    }

    fn remap(self, a: Vec2, b: Vec2, new_a: Vec2, new_b: Vec2) -> (r: Vec2) {
        Vec2 {
            x: self.x.remap(a.x, b.x, new_a.x, new_b.x),
            y: self.y.remap(a.y, b.y, new_a.y, new_b.y),
        }
    }
}

/// A value that can be scaled by a scalar and added to another of its kind.
pub trait NumLike: Copy + Sized {
    /// The value multiplied by `k`.
    open spec fn scale_spec(self, k: Real) -> Self {
        arbitrary()
    }

    /// The sum of the value and `rhs`.
    open spec fn plus_spec(self, rhs: Self) -> Self {
        arbitrary()
    }

    fn scale(self, k: Real) -> (r: Self)
        ensures
            r == self.scale_spec(k),
    ;

    fn plus(self, rhs: Self) -> (r: Self)
        ensures
            r == self.plus_spec(rhs),
    ;
}

impl NumLike for Real {
    open spec fn scale_spec(self, k: Real) -> Real {
        self.mul(k)
    }

    open spec fn plus_spec(self, rhs: Real) -> Real {
        self.add(rhs)
    }

    fn scale(self, k: Real) -> (r: Real) {
        self.mul(k)
    }

    fn plus(self, rhs: Real) -> (r: Real) {
        self.add(rhs)
    }
}

impl NumLike for Vec2 {
    open spec fn scale_spec(self, k: Real) -> Vec2 {
        Vec2 { x: self.x.mul(k), y: self.y.mul(k) }
    }

    open spec fn plus_spec(self, rhs: Vec2) -> Vec2 {
        Vec2 { x: self.x.add(rhs.x), y: self.y.add(rhs.y) }
    }

    fn scale(self, k: Real) -> (r: Vec2) {
        Vec2 { x: self.x.mul(k), y: self.y.mul(k) }
    }

    fn plus(self, rhs: Vec2) -> (r: Vec2) {
        Vec2 { x: self.x.add(rhs.x), y: self.y.add(rhs.y) }
    }
}

impl NumLike for Vec3 {
    open spec fn scale_spec(self, k: Real) -> Vec3 {
        Vec3 { x: self.x.mul(k), y: self.y.mul(k), z: self.z.mul(k) }
    }

    open spec fn plus_spec(self, rhs: Vec3) -> Vec3 {
        Vec3 { x: self.x.add(rhs.x), y: self.y.add(rhs.y), z: self.z.add(rhs.z) }
    }

    fn scale(self, k: Real) -> (r: Vec3) {
        Vec3 { x: self.x.mul(k), y: self.y.mul(k), z: self.z.mul(k) }
    }

    fn plus(self, rhs: Vec3) -> (r: Vec3) {
        Vec3 { x: self.x.add(rhs.x), y: self.y.add(rhs.y), z: self.z.add(rhs.z) }
    }
}

impl NumLike for Vec4 {
    open spec fn scale_spec(self, k: Real) -> Vec4 {
        Vec4 { x: self.x.mul(k), y: self.y.mul(k), z: self.z.mul(k), w: self.w.mul(k) }
    }

    open spec fn plus_spec(self, rhs: Vec4) -> Vec4 {
        Vec4 {
            x: self.x.add(rhs.x),
            y: self.y.add(rhs.y),
            z: self.z.add(rhs.z),
            w: self.w.add(rhs.w),
        }
    }

    fn scale(self, k: Real) -> (r: Vec4) {
        Vec4 { x: self.x.mul(k), y: self.y.mul(k), z: self.z.mul(k), w: self.w.mul(k) }
    }

    fn plus(self, rhs: Vec4) -> (r: Vec4) {
        Vec4 {
            x: self.x.add(rhs.x),
            y: self.y.add(rhs.y),
            z: self.z.add(rhs.z),
            w: self.w.add(rhs.w),
        }
    }
}

/// A shader output that can be blended from the values at the three corners
/// of a triangle and a triple of barycentric weights.
pub trait Interpolate: Sized {
    /// The blend of `p0`, `p1`, `p2` under `weights`.
    open spec fn interpolate_spec(p0: Self, p1: Self, p2: Self, weights: Vec3) -> Self {
        arbitrary()
    }

    fn interpolate(p0: &Self, p1: &Self, p2: &Self, weights: &Vec3) -> (r: Self)
        ensures
            r == Self::interpolate_spec(*p0, *p1, *p2, *weights),
    ;
}

/// Numbers and vectors blend as `p0 * w.x + p1 * w.y + p2 * w.z`; nothing is
/// divided, so the blend is affine in screen space.
impl<T: NumLike> Interpolate for T {
    open spec fn interpolate_spec(p0: T, p1: T, p2: T, weights: Vec3) -> T {
        p0.scale_spec(weights.x).plus_spec(p1.scale_spec(weights.y)).plus_spec(
            p2.scale_spec(weights.z),
        )
    }

    fn interpolate(p0: &T, p1: &T, p2: &T, weights: &Vec3) -> (r: T) {
        p0.scale(weights.x).plus(p1.scale(weights.y)).plus(p2.scale(weights.z))
    }
}

/// A pair blends member by member, each with the same weights.
impl<A: Interpolate, B: Interpolate> Interpolate for (A, B) {
    open spec fn interpolate_spec(p0: (A, B), p1: (A, B), p2: (A, B), weights: Vec3) -> (A, B) {
        (
            A::interpolate_spec(p0.0, p1.0, p2.0, weights),
            B::interpolate_spec(p0.1, p1.1, p2.1, weights),
        )
    }

    fn interpolate(p0: &(A, B), p1: &(A, B), p2: &(A, B), weights: &Vec3) -> (r: (A, B)) {
        (
            A::interpolate(&p0.0, &p1.0, &p2.0, weights),
            B::interpolate(&p0.1, &p1.1, &p2.1, weights),
        )
    }
}

/// A triple blends member by member, each with the same weights.
impl<A: Interpolate, B: Interpolate, C: Interpolate> Interpolate for (A, B, C) {
    open spec fn interpolate_spec(
        p0: (A, B, C),
        p1: (A, B, C),
        p2: (A, B, C),
        weights: Vec3,
    ) -> (A, B, C) {
        (
            A::interpolate_spec(p0.0, p1.0, p2.0, weights),
            B::interpolate_spec(p0.1, p1.1, p2.1, weights),
            C::interpolate_spec(p0.2, p1.2, p2.2, weights),
        )
    }

    fn interpolate(p0: &(A, B, C), p1: &(A, B, C), p2: &(A, B, C), weights: &Vec3) -> (r: (
        A,
        B,
        C,
    )) {
        (
            A::interpolate(&p0.0, &p1.0, &p2.0, weights),
            B::interpolate(&p0.1, &p1.1, &p2.1, weights),
            C::interpolate(&p0.2, &p1.2, &p2.2, weights),
        )
    }
}

/// Interpolating a pair gives the pair of the members interpolated on their own.
pub proof fn lemma_interpolate_pair<A: Interpolate, B: Interpolate>(
    a: (A, A, A),
    b: (B, B, B),
    weights: Vec3,
)
    ensures
        <(A, B)>::interpolate_spec((a.0, b.0), (a.1, b.1), (a.2, b.2), weights) == (
            A::interpolate_spec(a.0, a.1, a.2, weights),
            B::interpolate_spec(b.0, b.1, b.2, weights),
        ),
{
}

/// Interpolating a triple gives the triple of the members interpolated on their own.
pub proof fn lemma_interpolate_triple<A: Interpolate, B: Interpolate, C: Interpolate>(
    a: (A, A, A),
    b: (B, B, B),
    c: (C, C, C),
    weights: Vec3,
)
    ensures
        <(A, B, C)>::interpolate_spec(
            (a.0, b.0, c.0),
            (a.1, b.1, c.1),
            (a.2, b.2, c.2),
            weights,
        ) == (
            A::interpolate_spec(a.0, a.1, a.2, weights),
            B::interpolate_spec(b.0, b.1, b.2, weights),
            C::interpolate_spec(c.0, c.1, c.2, weights),
        ),
{
}

/// With weight one on a single corner and none on the others, a number
/// interpolates to exactly its value at that corner.
pub proof fn lemma_interpolate_at_corner(p0: Real, p1: Real, p2: Real)
    ensures
        Real::interpolate_spec(
            p0,
            p1,
            p2,
            Vec3 { x: Real::one(), y: Real::zero(), z: Real::zero() },
        ) == p0,
        Real::interpolate_spec(
            p0,
            p1,
            p2,
            Vec3 { x: Real::zero(), y: Real::one(), z: Real::zero() },
        ) == p1,
        Real::interpolate_spec(
            p0,
            p1,
            p2,
            Vec3 { x: Real::zero(), y: Real::zero(), z: Real::one() },
        ) == p2,
{
    lemma_mul_identities(p0);
    lemma_mul_identities(p1);
    lemma_mul_identities(p2);
}

/// Multiplying by one changes nothing, and multiplying by zero gives zero.
pub proof fn lemma_mul_identities(p: Real)
    ensures
        p.mul(Real::one()) == p,
        p.mul(Real::zero()) == Real::zero(),
{
    vstd::arithmetic::div_mod::lemma_div_multiples_vanish(p.raw as int, 0x1_0000_0000);
    assert(p.raw * 0x1_0000_0000 == 0x1_0000_0000 * p.raw) by (nonlinear_arith);
    assert(p.raw * 0 == 0) by (nonlinear_arith);
}

} // verus!
