use newtonian_gravity::body::{Body, ControlState};
use newtonian_gravity::fixed::SCALE;
use newtonian_gravity::motion::update_bodies_euler;
use newtonian_gravity::vector::Vector3;

fn resting_body(control: ControlState) -> Body {
    Body {
        mass: SCALE,
        radius: SCALE,
        position: Vector3 { x: 10 * SCALE, y: 0, z: 0 },
        velocity: Vector3 { x: 0, y: 0, z: 0 },
        acceleration: Vector3 { x: 6 * SCALE, y: 0, z: 0 },
        control,
    }
}

#[test]
fn symplectic_step_from_rest() {
    // At rest with acceleration 6 and dt = 0.5: velocity becomes a*dt = 3,
    // and the position already moves by the updated velocity, a*dt*dt = 1.5.
    let mut bodies = vec![resting_body(ControlState::Free)];
    update_bodies_euler(&mut bodies, SCALE / 2);
    assert_eq!(bodies[0].velocity, Vector3 { x: 3 * SCALE, y: 0, z: 0 });
    assert_eq!(bodies[0].position, Vector3 { x: 10 * SCALE + 15 * SCALE / 10, y: 0, z: 0 });
}

#[test]
fn integration_skips_dragged_and_halted_bodies() {
    let mut bodies = vec![
        resting_body(ControlState::UserControlled),
        resting_body(ControlState::Halted),
    ];
    update_bodies_euler(&mut bodies, SCALE / 2);
    for b in &bodies {
        assert_eq!(b.velocity, Vector3 { x: 0, y: 0, z: 0 });
        assert_eq!(b.position, Vector3 { x: 10 * SCALE, y: 0, z: 0 });
    }
}

#[test]
fn zero_time_step_changes_nothing() {
    let mut bodies = vec![resting_body(ControlState::Free)];
    bodies[0].velocity = Vector3 { x: 5 * SCALE, y: 0, z: 0 };
    update_bodies_euler(&mut bodies, 0);
    assert_eq!(bodies[0].velocity, Vector3 { x: 5 * SCALE, y: 0, z: 0 });
    assert_eq!(bodies[0].position, Vector3 { x: 10 * SCALE, y: 0, z: 0 });
}
