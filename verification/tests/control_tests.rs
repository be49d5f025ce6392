use newtonian_gravity::body::{Body, ControlState};
use newtonian_gravity::control::{
    GameState, PointerState, mouse_click, move_user_controlled_bodies, pause, user_set_velocity,
};
use newtonian_gravity::fixed::SCALE;
use newtonian_gravity::vector::{Vector2, Vector3};

fn body_at(x: i128, y: i128) -> Body {
    Body {
        mass: SCALE,
        radius: 5 * SCALE,
        position: Vector3 { x, y, z: 0 },
        velocity: Vector3 { x: 0, y: 0, z: 0 },
        acceleration: Vector3 { x: 0, y: 0, z: 0 },
        control: ControlState::Free,
    }
}

fn idle(position: Option<Vector2>) -> PointerState {
    PointerState {
        position,
        primary_pressed: false,
        primary_released: false,
        secondary_pressed: false,
        secondary_released: false,
    }
}

#[test]
fn primary_grab_and_release_cycle() {
    // Pointer within the body's radius: the primary press takes the body
    // out of Free.
    let mut bodies = vec![body_at(0, 0)];
    bodies[0].velocity = Vector3 { x: 7 * SCALE, y: 0, z: 0 };
    let press = PointerState {
        primary_pressed: true,
        ..idle(Some(Vector2 { x: SCALE, y: SCALE }))
    };
    mouse_click(&mut bodies, &press);
    assert!(matches!(bodies[0].control, ControlState::UserControlled));

    // While dragged, the body teleports to the pointer and its velocity is
    // forced to zero whatever it was.
    move_user_controlled_bodies(&mut bodies, Some(Vector2 { x: 8 * SCALE, y: -2 * SCALE }));
    assert_eq!(bodies[0].position, Vector3 { x: 8 * SCALE, y: -2 * SCALE, z: 0 });
    assert_eq!(bodies[0].velocity, Vector3 { x: 0, y: 0, z: 0 });

    // Releasing the primary button frees the body, velocity still zero.
    let release = PointerState {
        primary_released: true,
        ..idle(Some(Vector2 { x: 8 * SCALE, y: -2 * SCALE }))
    };
    mouse_click(&mut bodies, &release);
    assert!(matches!(bodies[0].control, ControlState::Free));
    assert_eq!(bodies[0].velocity, Vector3 { x: 0, y: 0, z: 0 });
}

#[test]
fn primary_press_misses_distant_body() {
    let mut bodies = vec![body_at(100 * SCALE, 0)];
    let press = PointerState {
        primary_pressed: true,
        ..idle(Some(Vector2 { x: 0, y: 0 }))
    };
    mouse_click(&mut bodies, &press);
    assert!(matches!(bodies[0].control, ControlState::Free));
}

#[test]
fn secondary_halt_then_launch() {
    // Press the secondary button over a body at (10, 10): it halts, frozen
    // at zero velocity and acceleration.
    let mut bodies = vec![body_at(10 * SCALE, 10 * SCALE)];
    bodies[0].velocity = Vector3 { x: SCALE, y: SCALE, z: 0 };
    let press = PointerState {
        secondary_pressed: true,
        ..idle(Some(Vector2 { x: 11 * SCALE, y: 9 * SCALE }))
    };
    let evs = mouse_click(&mut bodies, &press);
    assert!(evs.is_empty());
    assert!(matches!(bodies[0].control, ControlState::Halted));
    assert_eq!(bodies[0].velocity, Vector3 { x: 0, y: 0, z: 0 });
    assert_eq!(bodies[0].position, Vector3 { x: 10 * SCALE, y: 10 * SCALE, z: 0 });

    // Release: the body is freed and one request is emitted for it.
    let release = PointerState {
        secondary_released: true,
        ..idle(Some(Vector2 { x: 40 * SCALE, y: -20 * SCALE }))
    };
    let evs = mouse_click(&mut bodies, &release);
    assert_eq!(evs.len(), 1);
    assert_eq!(evs[0].e, 0);
    assert!(matches!(bodies[0].control, ControlState::Free));

    // Consume the request with the pointer displaced by (30, -30): the
    // velocity becomes the displacement times the 0.1 velocity scale.
    user_set_velocity(&mut bodies, &evs, Some(Vector2 { x: 40 * SCALE, y: -20 * SCALE }));
    assert_eq!(bodies[0].velocity, Vector3 { x: 3 * SCALE, y: -3 * SCALE, z: 0 });
}

#[test]
fn request_dropped_without_pointer() {
    let mut bodies = vec![body_at(10 * SCALE, 10 * SCALE)];
    let press = PointerState {
        secondary_pressed: true,
        ..idle(Some(Vector2 { x: 10 * SCALE, y: 10 * SCALE }))
    };
    mouse_click(&mut bodies, &press);
    let release = PointerState {
        secondary_released: true,
        ..idle(Some(Vector2 { x: 10 * SCALE, y: 10 * SCALE }))
    };
    let evs = mouse_click(&mut bodies, &release);
    assert_eq!(evs.len(), 1);
    user_set_velocity(&mut bodies, &evs, None);
    // No pointer at consumption time: the request is dropped and the body
    // stays at zero velocity.
    assert_eq!(bodies[0].velocity, Vector3 { x: 0, y: 0, z: 0 });
}

#[test]
fn no_pointer_position_means_no_transition() {
    let mut bodies = vec![body_at(0, 0)];
    let press = PointerState {
        primary_pressed: true,
        secondary_pressed: true,
        ..idle(None)
    };
    let evs = mouse_click(&mut bodies, &press);
    assert!(evs.is_empty());
    assert!(matches!(bodies[0].control, ControlState::Free));
    move_user_controlled_bodies(&mut bodies, None);
    assert_eq!(bodies[0].position, Vector3 { x: 0, y: 0, z: 0 });
}

#[test]
fn press_and_release_within_one_tick_still_launches() {
    // Both secondary edges arrive in the same tick: the body halts, is
    // immediately freed again, and the request is still emitted.
    let mut bodies = vec![body_at(0, 0)];
    let both = PointerState {
        secondary_pressed: true,
        secondary_released: true,
        ..idle(Some(Vector2 { x: 0, y: 0 }))
    };
    let evs = mouse_click(&mut bodies, &both);
    assert_eq!(evs.len(), 1);
    assert_eq!(evs[0].e, 0);
    assert!(matches!(bodies[0].control, ControlState::Free));
    assert_eq!(bodies[0].velocity, Vector3 { x: 0, y: 0, z: 0 });
}

#[test]
fn pause_toggles_on_space() {
    assert_eq!(pause(GameState::InGame, true), GameState::Paused);
    assert_eq!(pause(GameState::Paused, true), GameState::InGame);
    assert_eq!(pause(GameState::InGame, false), GameState::InGame);
    assert_eq!(pause(GameState::Paused, false), GameState::Paused);
}
