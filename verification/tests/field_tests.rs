use newtonian_gravity::body::{Body, ControlState};
use newtonian_gravity::field::{FieldSampler, field_sample_supported, update_acceleration_field};
use newtonian_gravity::fixed::SCALE;
use newtonian_gravity::gravity::calc_acceleration;
use newtonian_gravity::vector::{Vector2, Vector3};

fn body(mass: i128, radius: i128, position: Vector3) -> Body {
    Body {
        mass,
        radius,
        position,
        velocity: Vector3 { x: 0, y: 0, z: 0 },
        acceleration: Vector3 { x: 0, y: 0, z: 0 },
        control: ControlState::Free,
    }
}

#[test]
fn grid_is_built_row_major_behind_the_plane() {
    let res = Vector2 { x: 2 * SCALE, y: 3 * SCALE };
    let s = FieldSampler::new(-1, -1, 1, 2, res);
    assert_eq!(s.points.len(), 6);
    let expected = [
        (-2 * SCALE, -3 * SCALE),
        (-2 * SCALE, 0),
        (-2 * SCALE, 3 * SCALE),
        (0, -3 * SCALE),
        (0, 0),
        (0, 3 * SCALE),
    ];
    for (pt, (x, y)) in s.points.iter().zip(expected) {
        assert_eq!(pt.position, Vector3 { x, y, z: -SCALE });
        assert_eq!(pt.acceleration, Vector3 { x: 0, y: 0, z: 0 });
    }
    assert!(s.min_mag.is_none());
    assert!(s.max_mag.is_none());
}

#[test]
fn sample_excludes_body_containing_the_point() {
    // One point at (0, 0, -1). Body A sits right at the origin with radius
    // 2, so the sample point lies inside it and A is excluded; body B at
    // (5, 0, 0) with radius 1 contributes alone.
    let res = Vector2 { x: SCALE, y: SCALE };
    let mut s = FieldSampler::new(0, 0, 1, 1, res);
    let a = body(7 * SCALE, 2 * SCALE, Vector3 { x: 0, y: 0, z: 0 });
    let b = body(20_000_000_000_000 * SCALE, SCALE, Vector3 { x: 5 * SCALE, y: 0, z: 0 });
    let bodies = vec![a, b];
    update_acceleration_field(&mut s, &bodies);
    let expected = calc_acceleration(b.position, b.mass, Vector3 { x: 0, y: 0, z: -SCALE });
    assert_eq!(s.points[0].acceleration, expected);
    assert_eq!(expected, Vector3 { x: 35_183_613_181_185_999, y: 0, z: 7_036_722_636_237_199 });
}

#[test]
fn sampling_support_check_separates_snapshots() {
    // The demo-sized snapshot is well within range: the softened magnitude
    // of a 1e13 mass at its own radius is below the field limit.
    let small = vec![
        body(10_000_000_000_000 * SCALE, SCALE, Vector3 { x: 0, y: 0, z: 0 }),
        body(10_000_000_000_000 * SCALE, SCALE, Vector3 { x: 50 * SCALE, y: 0, z: 0 }),
    ];
    assert!(field_sample_supported(&small));

    // The heaviest representable mass with a zero radius can exceed the
    // computable magnitude right next to the body, so the check refuses it.
    let heavy = vec![body(
        10_000_000_000_000_000_000_000_000_000_000,
        0,
        Vector3 { x: 0, y: 0, z: 0 },
    )];
    assert!(!field_sample_supported(&heavy));
}

#[test]
fn extrema_cover_the_whole_grid_of_one_pass() {
    // Two sample points at x = 0 and x = 10, one body at the origin: the
    // near point sees a stronger field than the far one.
    let res = Vector2 { x: 10 * SCALE, y: SCALE };
    let mut s = FieldSampler::new(0, 0, 2, 1, res);
    let bodies = vec![body(10_000_000_000_000 * SCALE, SCALE / 2, Vector3 { x: 0, y: 0, z: 0 })];
    update_acceleration_field(&mut s, &bodies);
    let min1 = s.min_mag.unwrap();
    let max1 = s.max_mag.unwrap();
    assert!(0 < min1 && min1 < max1);

    // A second pass over the same snapshot observes the same magnitudes.
    update_acceleration_field(&mut s, &bodies);
    assert_eq!(s.min_mag.unwrap(), min1);
    assert_eq!(s.max_mag.unwrap(), max1);

    // The extrema belong to one pass: with the body gone every sample is
    // zero, and the previous pass's maximum is discarded with the rest.
    let nobody: Vec<Body> = Vec::new();
    update_acceleration_field(&mut s, &nobody);
    assert_eq!(s.min_mag.unwrap(), 0);
    assert_eq!(s.max_mag.unwrap(), 0);
}
