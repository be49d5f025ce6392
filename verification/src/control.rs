//! The pointer-driven control protocol.
//!
//! Per body: `Free -> UserControlled -> Free` by the primary button (grab and
//! place), and `Free -> Halted -> Free` by the secondary button (grab, aim,
//! launch), the release of which emits one `SetVelocityEvent` per halted
//! body. All pointer-dependent steps silently do nothing for a tick without
//! a pointer position.

use vstd::prelude::*;
use crate::fixed::{SCALE_ARG_LIMIT, VELOCITY_SCALE_RAW, mul_scaled};
use crate::vector::{V3, Vector2, Vector3, in_coord_range, in_coord_range_2};
use crate::body::{Body, ControlState};

verus! {

/// The pointer signals of one tick: an optional position in simulation-plane
/// coordinates and the discrete press/release edges of the two buttons.
#[derive(Clone, Copy, Debug)]
pub struct PointerState {
    pub position: Option<Vector2>,
    pub primary_pressed: bool,
    pub primary_released: bool,
    pub secondary_pressed: bool,
    pub secondary_released: bool,
}

/// An instruction to assign a launch velocity to the body at index `e`,
/// emitted when a halted body is released and consumed at most once.
#[derive(Clone, Copy, Debug, PartialEq, Eq, Structural)]
pub struct SetVelocityEvent {
    pub e: usize,
}

/// The circular hit test: the pointer lies strictly within the body's radius
/// of its current position, compared on squared distances.
pub open spec fn hit_test(p: Vector2, b: Body) -> bool {
    let dx = p.x - b.position.x;
    let dy = p.y - b.position.y;
    dx * dx + dy * dy < b.radius * b.radius
}

/// Whether this tick's input freezes the body: a secondary press over a body
/// that is not already halted.
pub open spec fn halts_now(c: ControlState, hit: bool, inp: PointerState) -> bool {
    inp.secondary_pressed && hit && !(c is Halted)
}

/// The control state after one tick of button edges, applied in order:
/// primary press (grab), secondary press (halt), secondary release (free and
/// launch), primary release (free).
pub open spec fn click_control(c: ControlState, hit: bool, inp: PointerState) -> ControlState {
    let c1 = if inp.primary_pressed && hit && !(c is Halted) {
        ControlState::UserControlled
    } else {
        c
    };
    let c2 = if halts_now(c, hit, inp) {
        ControlState::Halted
    } else {
        c1
    };
    let c3 = if inp.secondary_released && c2 is Halted {
        ControlState::Free
    } else {
        c2
    };
    let c4 = if inp.primary_released && c3 is UserControlled {
        ControlState::Free
    } else {
        c3
    };
    c4
}

/// Whether the secondary release frees this body, emitting one
/// `SetVelocityEvent` for it.
pub open spec fn emits_event(c: ControlState, hit: bool, inp: PointerState) -> bool {
    let c1 = if inp.primary_pressed && hit && !(c is Halted) {
        ControlState::UserControlled
    } else {
        c
    };
    let c2 = if halts_now(c, hit, inp) {
        ControlState::Halted
    } else {
        c1
    };
    inp.secondary_released && c2 is Halted
}

/// One body after one tick of button edges: the control state advances, and
/// a body frozen this tick has its velocity and acceleration zeroed.
pub open spec fn click_body(b: Body, p: Vector2, inp: PointerState) -> Body {
    let h = hit_test(p, b);
    Body {
        mass: b.mass,
        radius: b.radius,
        position: b.position,
        velocity: if halts_now(b.control, h, inp) {
            Vector3 { x: 0, y: 0, z: 0 }
        } else {
            b.velocity
        },
        acceleration: if halts_now(b.control, h, inp) {
            Vector3 { x: 0, y: 0, z: 0 }
        } else {
            b.acceleration
        },
        control: click_control(b.control, h, inp),
    }
}

/// The indices, in increasing order, of the first `n` bodies for which this
/// tick emits a `SetVelocityEvent`.
pub open spec fn emit_list(s: Seq<Body>, p: Vector2, inp: PointerState, n: int) -> Seq<int>
    decreases n,
{
    if n <= 0 {
        Seq::empty()
    } else {
        emit_list(s, p, inp, n - 1) + (if emits_event(
            s[n - 1].control,
            hit_test(p, s[n - 1]),
            inp,
        ) {
            seq![n - 1]
        } else {
            Seq::empty()
        })
    }
}

/// The circular hit test, on squared distances.
fn hit_exec(p: Vector2, b: &Body) -> (h: bool)
    requires
        in_coord_range_2(p),
        in_coord_range(b.position),
        b.wf(),
    ensures
        h == hit_test(p, *b),
{
    let dx = p.x - b.position.x;
    let dy = p.y - b.position.y;
    proof {
        assert(dx * dx <= 16_000_000_000_000_000_000_000_000_000_000_000_000 && dx * dx >= 0)
            by (nonlinear_arith)
            requires
                -4_000_000_000_000_000_000 <= dx <= 4_000_000_000_000_000_000,
        ;
        assert(dy * dy <= 16_000_000_000_000_000_000_000_000_000_000_000_000 && dy * dy >= 0)
            by (nonlinear_arith)
            requires
                -4_000_000_000_000_000_000 <= dy <= 4_000_000_000_000_000_000,
        ;
        assert(b.radius * b.radius <= 4_000_000_000_000_000_000_000_000_000_000_000_000
            && b.radius * b.radius >= 0) by (nonlinear_arith)
            requires
                0 <= b.radius <= 2_000_000_000_000_000_000,
        ;
    }
    dx * dx + dy * dy < b.radius * b.radius
}

/// Resolve this tick's button edges for every body, in the order primary
/// press, secondary press, secondary release, primary release, and return
/// one `SetVelocityEvent` per body freed by the secondary release, in index
/// order. Without a pointer position nothing changes and nothing is emitted.
pub fn mouse_click(bodies: &mut Vec<Body>, input: &PointerState) -> (evs: Vec<SetVelocityEvent>)
    requires
        forall|k: int|
            0 <= k < old(bodies)@.len() ==> (#[trigger] old(bodies)@[k]).wf() && in_coord_range(
                old(bodies)@[k].position,
            ),
        input.position is Some ==> in_coord_range_2(input.position->Some_0),
    ensures
        final(bodies)@.len() == old(bodies)@.len(),
        input.position is None ==> final(bodies)@ == old(bodies)@ && evs@ == Seq::<
            SetVelocityEvent,
        >::empty(),
        input.position is Some ==> {
            let p = input.position->Some_0;
            &&& forall|i: int|
                0 <= i < old(bodies)@.len() ==> #[trigger] final(bodies)@[i] == click_body(
                    old(bodies)@[i],
                    p,
                    *input,
                )
            &&& evs@.map_values(|ev: SetVelocityEvent| ev.e as int) == emit_list(
                old(bodies)@,
                p,
                *input,
                old(bodies)@.len() as int,
            )
        },
{
    let mut evs: Vec<SetVelocityEvent> = Vec::new();
    let p = match input.position {
        Some(p) => p,
        None => {
            return evs;
        },
    };
    let n = bodies.len();
    for i in 0..n
        invariant
            n == old(bodies)@.len(),
            bodies@.len() == old(bodies)@.len(),
            input.position == Some(p),
            in_coord_range_2(p),
            forall|k: int|
                0 <= k < old(bodies)@.len() ==> (#[trigger] old(bodies)@[k]).wf() && in_coord_range(
                    old(bodies)@[k].position,
                ),
            forall|k: int|
                i <= k < old(bodies)@.len() ==> #[trigger] bodies@[k] == old(bodies)@[k],
            forall|k: int|
                0 <= k < i ==> #[trigger] bodies@[k] == click_body(old(bodies)@[k], p, *input),
            evs@.map_values(|ev: SetVelocityEvent| ev.e as int) == emit_list(
                old(bodies)@,
                p,
                *input,
                i as int,
            ),
    {
        let b = bodies[i];
        let h = hit_exec(p, &b);
        let b_halted = match b.control {
            ControlState::Halted => true,
            _ => false,
        };
        let mut c = b.control;
        if input.primary_pressed && h && !b_halted {
            c = ControlState::UserControlled;
        }
        let hn = input.secondary_pressed && h && !b_halted;
        if hn {
            c = ControlState::Halted;
        }
        let c_halted = match c {
            ControlState::Halted => true,
            _ => false,
        };
        if input.secondary_released && c_halted {
            c = ControlState::Free;
            evs.push(SetVelocityEvent { e: i });
        }
        let c_user = match c {
            ControlState::UserControlled => true,
            _ => false,
        };
        if input.primary_released && c_user {
            c = ControlState::Free;
        }
        let zero = Vector3 { x: 0, y: 0, z: 0 };
        bodies.set(
            i,
            Body {
                mass: b.mass,
                radius: b.radius,
                position: b.position,
                velocity: if hn {
                    zero
                } else {
                    b.velocity
                },
                acceleration: if hn {
                    zero
                } else {
                    b.acceleration
                },
                control: c,
            },
        );
        proof {
            assert(bodies@[i as int] == click_body(old(bodies)@[i as int], p, *input));
            assert(evs@.map_values(|ev: SetVelocityEvent| ev.e as int) =~= emit_list(
                old(bodies)@,
                p,
                *input,
                i + 1,
            ));
        }
    }
    evs
}

/// A dragged body after one tick with the pointer at `p`: teleported into
/// the simulation plane at the pointer, with its velocity forced to zero.
pub open spec fn drag_body(b: Body, p: Vector2) -> Body {
    Body {
        mass: b.mass,
        radius: b.radius,
        position: Vector3 { x: p.x, y: p.y, z: 0 },
        velocity: Vector3 { x: 0, y: 0, z: 0 },
        acceleration: b.acceleration,
        control: b.control,
    }
}

/// Every tick a pointer position is available, each dragged body teleports
/// to it and its velocity is forced to zero, whatever it was; without a
/// position nothing moves.
pub fn move_user_controlled_bodies(bodies: &mut Vec<Body>, pointer: Option<Vector2>)
    ensures
        final(bodies)@.len() == old(bodies)@.len(),
        pointer is None ==> final(bodies)@ == old(bodies)@,
        pointer is Some ==> forall|i: int|
            0 <= i < old(bodies)@.len() ==> #[trigger] final(bodies)@[i] == (if old(
                bodies,
            )@[i].control is UserControlled {
                drag_body(old(bodies)@[i], pointer->Some_0)
            } else {
                old(bodies)@[i]
            }),
{
    let p = match pointer {
        Some(p) => p,
        None => {
            return ;
        },
    };
    let n = bodies.len();
    for i in 0..n
        invariant
            n == old(bodies)@.len(),
            bodies@.len() == old(bodies)@.len(),
            pointer == Some(p),
            forall|k: int|
                i <= k < old(bodies)@.len() ==> #[trigger] bodies@[k] == old(bodies)@[k],
            forall|k: int|
                0 <= k < i ==> #[trigger] bodies@[k] == (if old(
                    bodies,
                )@[k].control is UserControlled {
                    drag_body(old(bodies)@[k], p)
                } else {
                    old(bodies)@[k]
                }),
    {
        let b = bodies[i];
        let is_user = match b.control {
            ControlState::UserControlled => true,
            _ => false,
        };
        if is_user {
            bodies.set(
                i,
                Body {
                    mass: b.mass,
                    radius: b.radius,
                    position: Vector3 { x: p.x, y: p.y, z: 0 },
                    velocity: Vector3 { x: 0, y: 0, z: 0 },
                    acceleration: b.acceleration,
                    control: b.control,
                },
            );
        }
    }
}

/// The launch velocity a consumed request assigns: the drag offset from the
/// body's position to the pointer, lifted into the plane, times the fixed
/// velocity scale.
pub open spec fn launch_velocity(p: Vector2, pos: Vector3) -> V3 {
    V3 {
        x: mul_scaled(p.x - pos.x, VELOCITY_SCALE_RAW as int),
        y: mul_scaled(p.y - pos.y, VELOCITY_SCALE_RAW as int),
        z: mul_scaled(0 - pos.z as int, VELOCITY_SCALE_RAW as int),
    }
}

/// Some event in `evs` names index `i`.
pub open spec fn named_in(evs: Seq<SetVelocityEvent>, i: int) -> bool {
    exists|k: int| 0 <= k < evs.len() && evs[k].e == i
}

/// Consume this tick's `SetVelocityEvent`s: with a pointer position present,
/// each named body receives the launch velocity for its drag offset; without
/// one, every request is dropped and nothing changes. An event naming no
/// body is ignored.
pub fn user_set_velocity(
    bodies: &mut Vec<Body>,
    evs: &Vec<SetVelocityEvent>,
    pointer: Option<Vector2>,
)
    requires
        forall|k: int|
            0 <= k < old(bodies)@.len() ==> in_coord_range(
                (#[trigger] old(bodies)@[k]).position,
            ),
        pointer is Some ==> in_coord_range_2(pointer->Some_0),
    ensures
        final(bodies)@.len() == old(bodies)@.len(),
        pointer is None ==> final(bodies)@ == old(bodies)@,
        pointer is Some ==> forall|i: int|
            0 <= i < old(bodies)@.len() ==> {
                let b = old(bodies)@[i];
                let fb = #[trigger] final(bodies)@[i];
                &&& (named_in(evs@, i) ==> {
                    &&& fb.mass == b.mass
                    &&& fb.radius == b.radius
                    &&& fb.position == b.position
                    &&& fb.acceleration == b.acceleration
                    &&& fb.control == b.control
                    &&& fb.velocity@ == launch_velocity(pointer->Some_0, b.position)
                })
                &&& (!named_in(evs@, i) ==> fb == b)
            },
{
    let p = match pointer {
        Some(p) => p,
        None => {
            return ;
        },
    };
    let n = bodies.len();
    for i in 0..n
        invariant
            n == old(bodies)@.len(),
            bodies@.len() == old(bodies)@.len(),
            pointer == Some(p),
            in_coord_range_2(p),
            forall|k: int|
                0 <= k < old(bodies)@.len() ==> in_coord_range(
                    (#[trigger] old(bodies)@[k]).position,
                ),
            forall|k: int|
                i <= k < old(bodies)@.len() ==> #[trigger] bodies@[k] == old(bodies)@[k],
            forall|k: int|
                0 <= k < i ==> {
                    let b = old(bodies)@[k];
                    let fb = #[trigger] bodies@[k];
                    &&& (named_in(evs@, k) ==> {
                        &&& fb.mass == b.mass
                        &&& fb.radius == b.radius
                        &&& fb.position == b.position
                        &&& fb.acceleration == b.acceleration
                        &&& fb.control == b.control
                        &&& fb.velocity@ == launch_velocity(p, b.position)
                    })
                    &&& (!named_in(evs@, k) ==> fb == b)
                },
    {
        let m = evs.len();
        let mut found = false;
        for j in 0..m
            invariant
                m == evs@.len(),
                found == exists|k: int| 0 <= k < j && (#[trigger] evs@[k]).e == i,
        {
            if evs[j].e == i {
                found = true;
            }
        }
        if found {
            let b = bodies[i];
            let vx = crate::fixed::scale_by(p.x - b.position.x, VELOCITY_SCALE_RAW);
            let vy = crate::fixed::scale_by(p.y - b.position.y, VELOCITY_SCALE_RAW);
            let vz = crate::fixed::scale_by(0 - b.position.z, VELOCITY_SCALE_RAW);
            bodies.set(
                i,
                Body {
                    mass: b.mass,
                    radius: b.radius,
                    position: b.position,
                    velocity: Vector3 { x: vx, y: vy, z: vz },
                    acceleration: b.acceleration,
                    control: b.control,
                },
            );
        }
    }
}

/// A body whose secondary release fires this tick is named in the emit
/// list, so its request reaches the consumer.
pub proof fn lemma_emit_list_names(s: Seq<Body>, p: Vector2, inp: PointerState, i: int, n: int)
    requires
        0 <= i < n,
        emits_event(s[i].control, hit_test(p, s[i]), inp),
    ensures
        emit_list(s, p, inp, n).contains(i),
    decreases n,
{
    let l = emit_list(s, p, inp, n - 1);
    if i == n - 1 {
        let full = emit_list(s, p, inp, n);
        assert(full[l.len() as int] == i);
    } else {
        lemma_emit_list_names(s, p, inp, i, n - 1);
        let k = choose|k: int| 0 <= k < l.len() && l[k] == i;
        assert(emit_list(s, p, inp, n)[k] == i);
    }
}

/// Whether the simulation advances this frame.
#[derive(Clone, Copy, Debug, PartialEq, Eq, Structural)]
pub enum GameState {
    InGame,
    Paused,
}

/// Toggle between running and paused on a space press. Any number of
/// presses within one tick observes the same current state, so they resolve
/// to a single toggle.
pub fn pause(state: GameState, space_pressed: bool) -> (r: GameState)
    ensures
        r == (if space_pressed {
            if state is InGame {
                GameState::Paused
            } else {
                GameState::InGame
            }
        } else {
            state
        }),
{
    if space_pressed {
        match state {
            GameState::InGame => GameState::Paused,
            GameState::Paused => GameState::InGame,
        }
    } else {
        state
    }
}

/// The grab-and-place cycle: a primary press with the pointer within a
/// body's radius takes the body out of `Free` (to `UserControlled`); every
/// dragged tick forces its velocity to zero whatever it was; the primary
/// release returns it to `Free` with the velocity still zero.
pub proof fn lemma_primary_grab_cycle(
    b: Body,
    p: Vector2,
    drag_p: Vector2,
    q: Vector2,
    press: PointerState,
    release: PointerState,
)
    requires
        b.control is Free,
        hit_test(p, b),
        press.primary_pressed,
        !press.primary_released,
        !press.secondary_pressed,
        !press.secondary_released,
        !release.primary_pressed,
        release.primary_released,
        !release.secondary_pressed,
        !release.secondary_released,
    ensures
        !(click_body(b, p, press).control is Free),
        click_body(b, p, press).control is UserControlled,
        drag_body(click_body(b, p, press), drag_p).velocity == (Vector3 { x: 0, y: 0, z: 0 }),
        ({
            let released = click_body(drag_body(click_body(b, p, press), drag_p), q, release);
            &&& released.control is Free
            &&& released.velocity == (Vector3 { x: 0, y: 0, z: 0 })
        }),
{
}

/// The grab-aim-launch cycle: a secondary press with the pointer within a
/// body's radius halts the body and freezes its velocity and acceleration
/// at zero; the secondary release frees it again, emitting one request for
/// it; consuming the request with the pointer displaced by `r - position`
/// from the body's unchanged position assigns exactly that displacement
/// times the velocity scale.
pub proof fn lemma_secondary_launch_cycle(
    b: Body,
    p: Vector2,
    q: Vector2,
    r: Vector2,
    press: PointerState,
    release: PointerState,
)
    requires
        !(b.control is Halted),
        hit_test(p, b),
        !press.primary_pressed,
        !press.primary_released,
        press.secondary_pressed,
        !press.secondary_released,
        !release.primary_pressed,
        !release.primary_released,
        !release.secondary_pressed,
        release.secondary_released,
    ensures
        ({
            let halted = click_body(b, p, press);
            &&& halted.control is Halted
            &&& halted.velocity == (Vector3 { x: 0, y: 0, z: 0 })
            &&& halted.acceleration == (Vector3 { x: 0, y: 0, z: 0 })
            &&& halted.position == b.position
            &&& emits_event(halted.control, hit_test(q, halted), release)
            &&& click_body(halted, q, release).control is Free
            &&& click_body(halted, q, release).position == b.position
            &&& launch_velocity(r, click_body(halted, q, release).position) == (V3 {
                x: mul_scaled(r.x - b.position.x, VELOCITY_SCALE_RAW as int),
                y: mul_scaled(r.y - b.position.y, VELOCITY_SCALE_RAW as int),
                z: mul_scaled(0 - b.position.z as int, VELOCITY_SCALE_RAW as int),
            })
        }),
{
}

} // verus!
