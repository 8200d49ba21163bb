//! Two- and three-component vectors and their swizzles.
//!
//! A swizzle reads components of a vector, in the order its name spells, into
//! a new vector, and leaves the source alone. The component type is open:
//! shading code works on floating-point vectors, and nothing here depends on
//! what a component is.

use vstd::prelude::*;

verus! {

/// A vector of three components.
#[derive(Clone, Copy, Debug, PartialEq)]
pub struct Vec3<T> {
    pub x: T,
    pub y: T,
    pub z: T,
}

/// A vector of two components.
#[derive(Clone, Copy, Debug, PartialEq)]
pub struct Vec2<T> {
    pub x: T,
    pub y: T,
}

impl<T: Copy> Vec3<T> {
    /// The vector with the components `r`, `g`, `b`, in that order.
    pub fn new(r: T, g: T, b: T) -> (v: Self)
        ensures
            v == (Vec3 { x: r, y: g, z: b }),
    {
        Vec3 { x: r, y: g, z: b }
    }

    /// The components `x`, `y`, `z`, in that order.
    pub fn xyz(&self) -> (v: Vec3<T>)
        ensures
            v == (Vec3 { x: self.x, y: self.y, z: self.z }),
    {
        Vec3 { x: self.x, y: self.y, z: self.z }
    }

    /// The components `x`, `z`, `y`, in that order.
    pub fn xzy(&self) -> (v: Vec3<T>)
        ensures
            v == (Vec3 { x: self.x, y: self.z, z: self.y }),
    {
        Vec3 { x: self.x, y: self.z, z: self.y }
    }

    /// The components `y`, `x`, `z`, in that order.
    pub fn yxz(&self) -> (v: Vec3<T>)
        ensures
            v == (Vec3 { x: self.y, y: self.x, z: self.z }),
    {
        Vec3 { x: self.y, y: self.x, z: self.z }
    }

    /// The components `y`, `z`, `x`, in that order.
    pub fn yzx(&self) -> (v: Vec3<T>)
        ensures
            v == (Vec3 { x: self.y, y: self.z, z: self.x }),
    {
        Vec3 { x: self.y, y: self.z, z: self.x }
    }

    /// The components `z`, `x`, `y`, in that order.
    pub fn zxy(&self) -> (v: Vec3<T>)
        ensures
            v == (Vec3 { x: self.z, y: self.x, z: self.y }),
    {
        Vec3 { x: self.z, y: self.x, z: self.y }
    }

    /// The components `z`, `y`, `x`, in that order.
    pub fn zyx(&self) -> (v: Vec3<T>)
        ensures
            v == (Vec3 { x: self.z, y: self.y, z: self.x }),
    {
        Vec3 { x: self.z, y: self.y, z: self.x }
    }

    /// The components `x`, `x`, `y`, in that order.
    pub fn xxy(&self) -> (v: Vec3<T>)
        ensures
            v == (Vec3 { x: self.x, y: self.x, z: self.y }),
    {
        Vec3 { x: self.x, y: self.x, z: self.y }
    }

    /// The components `x`, `y`, `y`, in that order.
    pub fn xyy(&self) -> (v: Vec3<T>)
        ensures
            v == (Vec3 { x: self.x, y: self.y, z: self.y }),
    {
        Vec3 { x: self.x, y: self.y, z: self.y }
    }

    /// The components `y`, `x`, `y`, in that order.
    pub fn yxy(&self) -> (v: Vec3<T>)
        ensures
            v == (Vec3 { x: self.y, y: self.x, z: self.y }),
    {
        Vec3 { x: self.y, y: self.x, z: self.y }
    }
}

impl<T: Copy> Vec2<T> {
    /// The vector with the components `x`, `y`.
    pub fn new(x: T, y: T) -> (v: Self)
        ensures
            v == (Vec2 { x, y }),
    {
        Vec2 { x, y }
    }

    /// The components `x`, `y`, `y`: the vector widened by repeating its last
    /// component, as a resolution is widened for three-dimensional use.
    pub fn xyy(&self) -> (v: Vec3<T>)
        ensures
            v == (Vec3 { x: self.x, y: self.y, z: self.y }),
    {
        Vec3 { x: self.x, y: self.y, z: self.y }
    }
}

} // verus!
