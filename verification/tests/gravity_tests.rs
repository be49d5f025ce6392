use newtonian_gravity::body::{Body, ControlState};
use newtonian_gravity::fixed::SCALE;
use newtonian_gravity::gravity::{calc_acceleration, update_gravity};
use newtonian_gravity::vector::Vector3;

fn free_body(mass_units: i128, x_units: i128) -> Body {
    Body {
        mass: mass_units * SCALE,
        radius: 25 * SCALE / 10,
        position: Vector3 { x: x_units * SCALE, y: 0, z: 0 },
        velocity: Vector3 { x: 0, y: 0, z: 0 },
        acceleration: Vector3 { x: 0, y: 0, z: 0 },
        control: ControlState::Free,
    }
}

#[test]
fn single_body_feels_no_force() {
    let mut bodies = vec![free_body(10_000_000_000_000, -150)];
    update_gravity(&mut bodies);
    assert_eq!(bodies[0].acceleration, Vector3 { x: 0, y: 0, z: 0 });
}

#[test]
fn empty_snapshot_is_a_no_op() {
    let mut bodies: Vec<Body> = Vec::new();
    update_gravity(&mut bodies);
    assert!(bodies.is_empty());
}

#[test]
fn coincident_pair_contributes_zero() {
    let p = Vector3 { x: 7 * SCALE, y: -3 * SCALE, z: 0 };
    let a = calc_acceleration(p, 5 * SCALE, p);
    assert_eq!(a, Vector3 { x: 0, y: 0, z: 0 });
}

#[test]
fn two_body_attraction_direction_and_magnitude() {
    // Bodies of mass 1e13 at x = -150 and x = -100: separation 50, so the
    // softened magnitude is the fixed-point reading of G * 1e13 / 51^2.
    let m = 10_000_000_000_000 * SCALE;
    let p0 = Vector3 { x: -150 * SCALE, y: 0, z: 0 };
    let p1 = Vector3 { x: -100 * SCALE, y: 0, z: 0 };
    let a0 = calc_acceleration(p1, m, p0);
    let a1 = calc_acceleration(p0, m, p1);
    // Attraction: the body at -150 is pulled toward +x, the one at -100
    // toward -x, with equal magnitude for equal masses.
    assert_eq!(a0, Vector3 { x: 256_570_549_788_542, y: 0, z: 0 });
    assert_eq!(a1, Vector3 { x: -256_570_549_788_542, y: 0, z: 0 });
}

#[test]
fn end_to_end_two_body_tick() {
    // Two bodies of mass 1e13 at x = -150 and x = -100, one tick of 1/60 s:
    // the first body accelerates toward +x and picks up a*dt of velocity.
    let mut bodies = vec![
        free_body(10_000_000_000_000, -150),
        free_body(10_000_000_000_000, -100),
    ];
    update_gravity(&mut bodies);
    assert_eq!(bodies[0].acceleration, Vector3 { x: 256_570_549_788_542, y: 0, z: 0 });
    assert_eq!(bodies[1].acceleration, Vector3 { x: -256_570_549_788_542, y: 0, z: 0 });
    // Positions and velocities are untouched by the solver (snapshot).
    assert_eq!(bodies[0].position, Vector3 { x: -150 * SCALE, y: 0, z: 0 });
    assert_eq!(bodies[0].velocity, Vector3 { x: 0, y: 0, z: 0 });

    let dt = SCALE / 60;
    newtonian_gravity::motion::update_bodies_euler(&mut bodies, dt);
    assert_eq!(bodies[0].velocity, Vector3 { x: 4_276_175_829_808, y: 0, z: 0 });
    assert_eq!(bodies[0].position, Vector3 { x: -149_999_928_730_402_837, y: 0, z: 0 });
}

#[test]
fn diagonal_pair_attracts_along_the_separation() {
    // Bodies at (0, 0) and (30, 40): separation exactly 50, so the same
    // softened magnitude as the axis-aligned case, split 3:4 over the axes.
    let m = 10_000_000_000_000 * SCALE;
    let pa = Vector3 { x: 0, y: 0, z: 0 };
    let pb = Vector3 { x: 30 * SCALE, y: 40 * SCALE, z: 0 };
    let on_a = calc_acceleration(pb, m, pa);
    let on_b = calc_acceleration(pa, m, pb);
    assert_eq!(on_a, Vector3 { x: 153_942_329_873_125, y: 205_256_439_830_833, z: 0 });
    assert_eq!(on_b, Vector3 { x: -153_942_329_873_125, y: -205_256_439_830_833, z: 0 });
}

#[test]
fn solver_skips_dragged_and_halted_bodies() {
    let mut bodies = vec![
        free_body(10_000_000_000_000, -150),
        free_body(10_000_000_000_000, -100),
    ];
    bodies[0].control = ControlState::Halted;
    bodies[0].acceleration = Vector3 { x: 1, y: 2, z: 3 };
    update_gravity(&mut bodies);
    // The halted body keeps its acceleration; the free one still feels the
    // halted body's mass.
    assert_eq!(bodies[0].acceleration, Vector3 { x: 1, y: 2, z: 3 });
    assert_eq!(bodies[1].acceleration, Vector3 { x: -256_570_549_788_542, y: 0, z: 0 });
}

#[test]
fn construction_rejects_invalid_mass_and_radius() {
    let p = Vector3 { x: 0, y: 0, z: 0 };
    let v = Vector3 { x: 0, y: 0, z: 0 };
    assert!(Body::new(0, SCALE, p, v).is_none());
    assert!(Body::new(-5 * SCALE, SCALE, p, v).is_none());
    assert!(Body::new(SCALE, -SCALE, p, v).is_none());
    let b = Body::new(SCALE, SCALE, p, v).unwrap();
    assert_eq!(b.mass, SCALE);
    assert!(matches!(b.control, ControlState::Free));
    assert_eq!(b.acceleration, Vector3 { x: 0, y: 0, z: 0 });
}
