//! Integer lattice vectors and axis-aligned boxes.

use vstd::prelude::*;

verus! {

/// A point of the signed integer lattice. World coordinates and chunk origins
/// are of this type.
#[derive(Clone, Copy, Debug, PartialEq, Eq, Hash, Structural)]
pub struct IVec3 {
    pub x: i32,
    pub y: i32,
    pub z: i32,
}

impl IVec3 {
    pub fn new(x: i32, y: i32, z: i32) -> (v: IVec3)
        ensures
            v == (IVec3 { x, y, z }),
    {
        IVec3 { x, y, z }
    }

    /// The vector whose three components all equal `v`.
    pub fn splat(v: i32) -> (r: IVec3)
        ensures
            r == (IVec3 { x: v, y: v, z: v }),
    {
        IVec3 { x: v, y: v, z: v }
    }

    /// Bitwise AND, component by component.
    pub fn bitand(self, rhs: IVec3) -> (r: IVec3)
        ensures
            r == (IVec3 { x: self.x & rhs.x, y: self.y & rhs.y, z: self.z & rhs.z }),
    {
        IVec3 { x: self.x & rhs.x, y: self.y & rhs.y, z: self.z & rhs.z }
    }
}

/// A point of the unsigned integer lattice. Coordinates inside a chunk and the
/// edge lengths of a box are of this type.
#[derive(Clone, Copy, Debug, PartialEq, Eq, Hash, Structural)]
pub struct UVec3 {
    pub x: u32,
    pub y: u32,
    pub z: u32,
}

impl UVec3 {
    pub fn new(x: u32, y: u32, z: u32) -> (v: UVec3)
        ensures
            v == (UVec3 { x, y, z }),
    {
        UVec3 { x, y, z }
    }

    /// The vector whose three components all equal `v`.
    pub fn splat(v: u32) -> (r: UVec3)
        ensures
            r == (UVec3 { x: v, y: v, z: v }),
    {
        UVec3 { x: v, y: v, z: v }
    }
}

/// An axis-aligned box: the product of the half-open intervals
/// `[minimum, minimum + shape)` on the three axes.
#[derive(Clone, Copy, Debug, PartialEq, Eq, Structural)]
pub struct Extent {
    /// The least point of the box.
    pub minimum: UVec3,
    /// The edge length on each axis.
    pub shape: UVec3,
}

impl Extent {
    pub fn from_min_and_shape(minimum: UVec3, shape: UVec3) -> (e: Extent)
        ensures
            e == (Extent { minimum, shape }),
    {
        Extent { minimum, shape }
    }

    /// Whether `p` lies in the box.
    pub open spec fn contains(self, p: UVec3) -> bool {
        &&& self.minimum.x <= p.x < self.minimum.x + self.shape.x
        &&& self.minimum.y <= p.y < self.minimum.y + self.shape.y
        &&& self.minimum.z <= p.z < self.minimum.z + self.shape.z
    }
}

} // verus!
