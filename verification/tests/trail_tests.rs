use newtonian_gravity::body::{Body, ControlState};
use newtonian_gravity::fixed::SCALE;
use newtonian_gravity::trail::{Trail, update_trails};
use newtonian_gravity::vector::{Vector2, Vector3};

fn pt(x: i128, y: i128) -> Vector2 {
    Vector2 { x, y }
}

#[test]
fn trail_keeps_insertion_order_below_capacity() {
    let mut t = Trail::new(5);
    t.append(pt(1, 10));
    t.append(pt(2, 20));
    t.append(pt(3, 30));
    assert_eq!(t.points().as_slice(), &[pt(1, 10), pt(2, 20), pt(3, 30)]);
    assert_eq!(t.capacity(), 5);
}

#[test]
fn trail_slides_window_when_full() {
    // Capacity 3, five appends: exactly the last three, in order.
    let mut t = Trail::new(3);
    for i in 1..=5 {
        t.append(pt(i, -i));
    }
    assert_eq!(t.points().as_slice(), &[pt(3, -3), pt(4, -4), pt(5, -5)]);
}

#[test]
fn zero_capacity_trail_records_nothing() {
    let mut t = Trail::new(0);
    t.append(pt(1, 1));
    t.append(pt(2, 2));
    assert!(t.points().is_empty());
}

#[test]
fn trails_follow_free_bodies_only() {
    let body = |control: ControlState, x: i128| Body {
        mass: SCALE,
        radius: SCALE,
        position: Vector3 { x, y: 9 * SCALE, z: 4 * SCALE },
        velocity: Vector3 { x: 0, y: 0, z: 0 },
        acceleration: Vector3 { x: 0, y: 0, z: 0 },
        control,
    };
    let bodies = vec![
        body(ControlState::Free, SCALE),
        body(ControlState::UserControlled, 2 * SCALE),
        body(ControlState::Halted, 3 * SCALE),
    ];
    let mut trails = vec![Trail::new(4), Trail::new(4), Trail::new(4)];
    update_trails(&bodies, &mut trails);
    // Only the free body's trail grew, with its position projected to 2D.
    assert_eq!(trails[0].points().as_slice(), &[pt(SCALE, 9 * SCALE)]);
    assert!(trails[1].points().is_empty());
    assert!(trails[2].points().is_empty());
}
