//! Massive bodies and their control state.

use vstd::prelude::*;
use crate::fixed::{COORD_LIMIT, MASS_LIMIT};
use crate::vector::{Vector3, in_coord_range};

verus! {

/// Who drives a body's motion this tick.
#[derive(Clone, Copy, Debug, PartialEq, Eq, Structural)]
pub enum ControlState {
    /// Physics drives the body.
    Free,
    /// The pointer drags the body; it teleports to the pointer each tick.
    UserControlled,
    /// The body is frozen in place, pending a velocity assignment on release.
    Halted,
}

/// A point mass taking part in the simulation. The radius is used only for
/// hit-testing against the pointer and for excluding field samples taken
/// inside the body, never for the force law.
#[derive(Clone, Copy, Debug, PartialEq, Eq, Structural)]
pub struct Body {
    pub mass: i128,
    pub radius: i128,
    pub position: Vector3,
    pub velocity: Vector3,
    pub acceleration: Vector3,
    pub control: ControlState,
}

impl Body {
    /// Construction-time invariants: a positive mass within the representable
    /// range, and a nonnegative radius within the coordinate range.
    pub open spec fn wf(self) -> bool {
        &&& 0 < self.mass <= MASS_LIMIT
        &&& 0 <= self.radius <= COORD_LIMIT
    }

    /// Build a body at scenario setup. A nonpositive (or unrepresentably
    /// large) mass, a negative or oversized radius, or an out-of-range
    /// position is rejected rather than producing undefined physics.
    pub fn new(mass: i128, radius: i128, position: Vector3, velocity: Vector3) -> (r: Option<
        Body,
    >)
        ensures
            r is Some <==> {
                &&& 0 < mass <= MASS_LIMIT
                &&& 0 <= radius <= COORD_LIMIT
                &&& in_coord_range(position)
            },
            r is Some ==> r->Some_0 == (Body {
                mass,
                radius,
                position,
                velocity,
                acceleration: Vector3 { x: 0, y: 0, z: 0 },
                control: ControlState::Free,
            }),
            r is Some ==> r->Some_0.wf(),
    {
        if 0 < mass && mass <= MASS_LIMIT && 0 <= radius && radius <= COORD_LIMIT
            && -COORD_LIMIT <= position.x && position.x <= COORD_LIMIT
            && -COORD_LIMIT <= position.y && position.y <= COORD_LIMIT
            && -COORD_LIMIT <= position.z && position.z <= COORD_LIMIT {
            Some(
                Body {
                    mass,
                    radius,
                    position,
                    velocity,
                    acceleration: Vector3 { x: 0, y: 0, z: 0 },
                    control: ControlState::Free,
                },
            )
        } else {
            None
        }
    }
}

} // verus!
