//! Semi-implicit Euler integration of free bodies.

use vstd::prelude::*;
use crate::fixed::{ACCEL_LIMIT, DT_LIMIT, POS_LIMIT, VEL_LIMIT, iabs, mul_scaled};
use crate::vector::{V3, Vector3};
use crate::body::{Body, ControlState};

verus! {

/// The new velocity of a semi-implicit Euler step: `v + a * dt`.
pub open spec fn step_velocity(v: int, a: int, dt: int) -> int {
    v + mul_scaled(a, dt)
}

/// The new position of a semi-implicit Euler step: `p + v' * dt`, where `v'`
/// is the just-updated velocity.
pub open spec fn step_position(p: int, v: int, a: int, dt: int) -> int {
    p + mul_scaled(step_velocity(v, a, dt), dt)
}

/// A body's components are within the integrator's ranges.
pub open spec fn integrable(b: Body) -> bool {
    &&& iabs(b.acceleration@.x) <= ACCEL_LIMIT
    &&& iabs(b.acceleration@.y) <= ACCEL_LIMIT
    &&& iabs(b.acceleration@.z) <= ACCEL_LIMIT
    &&& iabs(b.velocity@.x) <= VEL_LIMIT
    &&& iabs(b.velocity@.y) <= VEL_LIMIT
    &&& iabs(b.velocity@.z) <= VEL_LIMIT
    &&& iabs(b.position@.x) <= POS_LIMIT
    &&& iabs(b.position@.y) <= POS_LIMIT
    &&& iabs(b.position@.z) <= POS_LIMIT
}

/// Advance every `Free` body by one semi-implicit Euler step with time step
/// `dt`: the velocity is updated from the acceleration first, and the
/// position then moves by the just-updated velocity. Bodies under user
/// control or halted are left untouched; `dt` is the caller's frame delta,
/// never clamped or sub-stepped here.
pub fn update_bodies_euler(bodies: &mut Vec<Body>, dt: i128)
    requires
        0 <= dt <= DT_LIMIT,
        forall|k: int|
            0 <= k < old(bodies)@.len() && old(bodies)@[k].control is Free ==> integrable(
                #[trigger] old(bodies)@[k],
            ),
    ensures
        final(bodies)@.len() == old(bodies)@.len(),
        forall|i: int|
            0 <= i < old(bodies)@.len() ==> {
                let b = old(bodies)@[i];
                let fb = #[trigger] final(bodies)@[i];
                &&& (!(b.control is Free) ==> fb == b)
                &&& (b.control is Free ==> {
                    &&& fb.mass == b.mass
                    &&& fb.radius == b.radius
                    &&& fb.acceleration == b.acceleration
                    &&& fb.control == b.control
                    &&& fb.velocity@ == (V3 {
                        x: step_velocity(b.velocity@.x, b.acceleration@.x, dt as int),
                        y: step_velocity(b.velocity@.y, b.acceleration@.y, dt as int),
                        z: step_velocity(b.velocity@.z, b.acceleration@.z, dt as int),
                    })
                    &&& fb.position@ == (V3 {
                        x: step_position(b.position@.x, b.velocity@.x, b.acceleration@.x, dt as int),
                        y: step_position(b.position@.y, b.velocity@.y, b.acceleration@.y, dt as int),
                        z: step_position(b.position@.z, b.velocity@.z, b.acceleration@.z, dt as int),
                    })
                })
            },
{
    let n = bodies.len();
    for i in 0..n
        invariant
            n == old(bodies)@.len(),
            bodies@.len() == old(bodies)@.len(),
            0 <= dt <= DT_LIMIT,
            forall|k: int|
                i <= k < old(bodies)@.len() ==> #[trigger] bodies@[k] == old(bodies)@[k],
            forall|k: int|
                0 <= k < old(bodies)@.len() && old(bodies)@[k].control is Free ==> integrable(
                    #[trigger] old(bodies)@[k],
                ),
            forall|k: int|
                0 <= k < i ==> {
                    let b = old(bodies)@[k];
                    let fb = #[trigger] bodies@[k];
                    &&& (!(b.control is Free) ==> fb == b)
                    &&& (b.control is Free ==> {
                        &&& fb.mass == b.mass
                        &&& fb.radius == b.radius
                        &&& fb.acceleration == b.acceleration
                        &&& fb.control == b.control
                        &&& fb.velocity@ == (V3 {
                            x: step_velocity(b.velocity@.x, b.acceleration@.x, dt as int),
                            y: step_velocity(b.velocity@.y, b.acceleration@.y, dt as int),
                            z: step_velocity(b.velocity@.z, b.acceleration@.z, dt as int),
                        })
                        &&& fb.position@ == (V3 {
                            x: step_position(
                                b.position@.x,
                                b.velocity@.x,
                                b.acceleration@.x,
                                dt as int,
                            ),
                            y: step_position(
                                b.position@.y,
                                b.velocity@.y,
                                b.acceleration@.y,
                                dt as int,
                            ),
                            z: step_position(
                                b.position@.z,
                                b.velocity@.z,
                                b.acceleration@.z,
                                dt as int,
                            ),
                        })
                    })
                },
    {
        let b = bodies[i];
        let is_free = match b.control {
            ControlState::Free => true,
            _ => false,
        };
        if is_free {
            let vx = b.velocity.x + crate::fixed::scale_by(b.acceleration.x, dt);
            let vy = b.velocity.y + crate::fixed::scale_by(b.acceleration.y, dt);
            let vz = b.velocity.z + crate::fixed::scale_by(b.acceleration.z, dt);
            let px = b.position.x + crate::fixed::scale_by(vx, dt);
            let py = b.position.y + crate::fixed::scale_by(vy, dt);
            let pz = b.position.z + crate::fixed::scale_by(vz, dt);
            bodies.set(
                i,
                Body {
                    mass: b.mass,
                    radius: b.radius,
                    position: Vector3 { x: px, y: py, z: pz },
                    velocity: Vector3 { x: vx, y: vy, z: vz },
                    acceleration: b.acceleration,
                    control: b.control,
                },
            );
        }
    }
}

/// A body at rest with acceleration `a` moves, in one step, to
/// `velocity == a * dt` and `position == p0 + (a * dt) * dt`: the step is
/// semi-implicit, so the position already uses the updated velocity.
pub proof fn lemma_symplectic_step(p: int, a: int, dt: int)
    ensures
        step_velocity(0, a, dt) == mul_scaled(a, dt),
        step_position(p, 0, a, dt) == p + mul_scaled(mul_scaled(a, dt), dt),
{
}

} // verus!
