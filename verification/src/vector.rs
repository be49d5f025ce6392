//! 2D and 3D vectors of fixed-point scalars, and their mathematical views.

use vstd::prelude::*;
use crate::fixed::COORD_LIMIT;

verus! {

/// A 3D vector of raw fixed-point scalars.
#[derive(Clone, Copy, Debug, PartialEq, Eq, Structural)]
pub struct Vector3 {
    pub x: i128,
    pub y: i128,
    pub z: i128,
}

/// A 2D vector of raw fixed-point scalars.
#[derive(Clone, Copy, Debug, PartialEq, Eq, Structural)]
pub struct Vector2 {
    pub x: i128,
    pub y: i128,
}

/// The mathematical view of a 3D vector: unbounded integer components.
pub ghost struct V3 {
    pub x: int,
    pub y: int,
    pub z: int,
}

impl Vector3 {
    /// The zero vector.
    pub fn zero() -> (r: Vector3)
        ensures
            r == (Vector3 { x: 0, y: 0, z: 0 }),
    {
        Vector3 { x: 0, y: 0, z: 0 }
    }

    /// Drop the depth axis, projecting into the visualization plane.
    pub fn truncate(self) -> (r: Vector2)
        ensures
            r == (Vector2 { x: self.x, y: self.y }),
    {
        Vector2 { x: self.x, y: self.y }
    }
}

impl View for Vector3 {
    type V = V3;

    /// The mathematical view of this vector.
    open spec fn view(&self) -> V3 {
        V3 { x: self.x as int, y: self.y as int, z: self.z as int }
    }
}

impl Vector2 {
    /// Lift into 3D with the given depth component.
    pub fn extend(self, z: i128) -> (r: Vector3)
        ensures
            r == (Vector3 { x: self.x, y: self.y, z: z }),
    {
        Vector3 { x: self.x, y: self.y, z: z }
    }
}

/// The zero view.
pub open spec fn v3_zero() -> V3 {
    V3 { x: 0, y: 0, z: 0 }
}

/// Componentwise sum of views.
pub open spec fn v3_add(a: V3, b: V3) -> V3 {
    V3 { x: a.x + b.x, y: a.y + b.y, z: a.z + b.z }
}

/// The squared Euclidean norm of a view.
pub open spec fn v3_norm2(v: V3) -> int {
    v.x * v.x + v.y * v.y + v.z * v.z
}

/// Every component is within the solver's coordinate range.
pub open spec fn in_coord_range(v: Vector3) -> bool {
    &&& -COORD_LIMIT <= v.x <= COORD_LIMIT
    &&& -COORD_LIMIT <= v.y <= COORD_LIMIT
    &&& -COORD_LIMIT <= v.z <= COORD_LIMIT
}

/// Every component is within the solver's coordinate range (2D).
pub open spec fn in_coord_range_2(v: Vector2) -> bool {
    &&& -COORD_LIMIT <= v.x <= COORD_LIMIT
    &&& -COORD_LIMIT <= v.y <= COORD_LIMIT
}

} // verus!
