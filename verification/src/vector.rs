//! Small vectors of fixed-point scalars.
use crate::scalar::Real;
use vstd::prelude::*;

verus! {

/// A point or direction in the plane.
#[derive(Clone, Copy, Debug, PartialEq, Eq, Structural)]
pub struct Vec2 {
    pub x: Real,
    pub y: Real,
}

/// A point or direction in space; also a triple of barycentric weights.
#[derive(Clone, Copy, Debug, PartialEq, Eq, Structural)]
pub struct Vec3 {
    pub x: Real,
    pub y: Real,
    pub z: Real,
}

/// A clip-space position or an RGBA colour.
#[derive(Clone, Copy, Debug, PartialEq, Eq, Structural)]
pub struct Vec4 {
    pub x: Real,
    pub y: Real,
    pub z: Real,
    pub w: Real,
}

impl Vec2 {
    pub fn new(x: Real, y: Real) -> (r: Vec2)
        ensures
            r == (Vec2 { x, y }),
    {
        Vec2 { x, y }
    }
}

impl Vec3 {
    pub fn new(x: Real, y: Real, z: Real) -> (r: Vec3)
        ensures
            r == (Vec3 { x, y, z }),
    {
        Vec3 { x, y, z }
    }

    /// The first two components.
    pub open spec fn xy_spec(self) -> Vec2 {
        Vec2 { x: self.x, y: self.y }
    }

    /// The sum of the products of the components, one product after the other.
    pub open spec fn dot_spec(self, rhs: Vec3) -> Real {
        self.x.mul(rhs.x).add(self.y.mul(rhs.y)).add(self.z.mul(rhs.z))
    }

    #[verifier::when_used_as_spec(xy_spec)]
    pub fn xy(self) -> (r: Vec2)
        ensures
            r == self.xy_spec(),
    {
        Vec2 { x: self.x, y: self.y }
    }

    #[verifier::when_used_as_spec(dot_spec)]
    pub fn dot(self, rhs: Vec3) -> (r: Real)
        ensures
            r == self.dot_spec(rhs),
    {
        self.x.mul(rhs.x).add(self.y.mul(rhs.y)).add(self.z.mul(rhs.z))
    }
}

impl Vec4 {
    pub fn new(x: Real, y: Real, z: Real, w: Real) -> (r: Vec4)
        ensures
            r == (Vec4 { x, y, z, w }),
    {
        Vec4 { x, y, z, w }
    }

    /// The first two components.
    pub open spec fn xy_spec(self) -> Vec2 {
        Vec2 { x: self.x, y: self.y }
    }

    /// The first three components.
    pub open spec fn xyz_spec(self) -> Vec3 {
        Vec3 { x: self.x, y: self.y, z: self.z }
    }

    #[verifier::when_used_as_spec(xy_spec)]
    pub fn xy(self) -> (r: Vec2)
        ensures
            r == self.xy_spec(),
    {
        Vec2 { x: self.x, y: self.y }
    }

    #[verifier::when_used_as_spec(xyz_spec)]
    pub fn xyz(self) -> (r: Vec3)
        ensures
            r == self.xyz_spec(),
    {
        Vec3 { x: self.x, y: self.y, z: self.z }
    }
}

} // verus!
