//! Bounded, order-preserving position history per body.

use vstd::prelude::*;
use crate::vector::Vector2;
use crate::body::{Body, ControlState};

verus! {

/// A bounded chronological history of recent positions. When full, appending
/// evicts the oldest point, so the contents are a sliding window of the most
/// recent `capacity` positions. A zero capacity disables recording.
pub struct Trail {
    capacity: usize,
    points: Vec<Vector2>,
}

/// The contents after one append: unchanged for a zero capacity, extended
/// while below capacity, and otherwise slid by one.
pub open spec fn trail_push(s: Seq<Vector2>, cap: nat, p: Vector2) -> Seq<Vector2> {
    if cap == 0 {
        s
    } else if s.len() < cap {
        s.push(p)
    } else {
        s.skip(1).push(p)
    }
}

/// The contents after appending every point of `ps` in order.
pub open spec fn trail_push_all(s: Seq<Vector2>, cap: nat, ps: Seq<Vector2>) -> Seq<Vector2>
    decreases ps.len(),
{
    if ps.len() == 0 {
        s
    } else {
        trail_push_all(trail_push(s, cap, ps[0]), cap, ps.skip(1))
    }
}

impl View for Trail {
    type V = Seq<Vector2>;

    /// The ordered points, oldest first.
    closed spec fn view(&self) -> Seq<Vector2> {
        self.points@
    }
}

impl Trail {
    /// The fixed capacity.
    pub closed spec fn cap(&self) -> nat {
        self.capacity as nat
    }

    /// The history never exceeds its capacity.
    pub open spec fn wf(&self) -> bool {
        self@.len() <= self.cap()
    }

    /// An empty trail that will hold at most `n` points.
    pub fn new(n: usize) -> (t: Trail)
        ensures
            t@ == Seq::<Vector2>::empty(),
            t.cap() == n,
            t.wf(),
    {
        Trail { capacity: n, points: Vec::new() }
    }

    /// The fixed capacity.
    pub fn capacity(&self) -> (c: usize)
        ensures
            c == self.cap(),
    {
        self.capacity
    }

    /// The ordered points, oldest first, for path drawing: consecutive pairs
    /// are the line segments of the path.
    pub fn points(&self) -> (p: &Vec<Vector2>)
        ensures
            p@ == self@,
    {
        &self.points
    }

    /// Record the latest position. At capacity the oldest point is evicted
    /// first; with a zero capacity nothing is recorded.
    pub fn append(&mut self, p: Vector2)
        requires
            old(self).wf(),
        ensures
            final(self)@ == trail_push(old(self)@, old(self).cap(), p),
            final(self).cap() == old(self).cap(),
            final(self).wf(),
    {
        if self.capacity == 0 {
            return ;
        }
        if self.points.len() >= self.capacity {
            self.points.remove(0);
            proof {
                assert(self.points@ =~= old(self)@.skip(1));
            }
        }
        self.points.push(p);
    }
}

/// Appending a stream of points to a trail leaves exactly the most recent
/// `cap` of the whole history, in chronological order; a zero-capacity trail
/// never changes.
pub proof fn lemma_trail_sliding_window(s: Seq<Vector2>, cap: nat, ps: Seq<Vector2>)
    requires
        s.len() <= cap,
    ensures
        cap == 0 ==> trail_push_all(s, cap, ps) == s,
        cap > 0 ==> trail_push_all(s, cap, ps) == ({
            let all = s + ps;
            if all.len() <= cap {
                all
            } else {
                all.skip(all.len() - cap)
            }
        }),
    decreases ps.len(),
{
    if ps.len() == 0 {
        assert(s + ps =~= s);
    } else {
        let s1 = trail_push(s, cap, ps[0]);
        if cap == 0 {
            lemma_trail_sliding_window(s1, cap, ps.skip(1));
        } else {
            assert(s1.len() <= cap);
            lemma_trail_sliding_window(s1, cap, ps.skip(1));
            let all = s + ps;
            let all1 = s1 + ps.skip(1);
            if s.len() < cap {
                assert(all1 =~= all);
            } else {
                assert(all1 =~= all.skip(1));
                if all1.len() > cap {
                    assert(all1.skip(all1.len() - cap) =~= all.skip(all.len() - cap));
                } else {
                    assert(all.len() > cap);
                    assert(all1 =~= all.skip(all.len() - cap));
                }
            }
        }
    }
}

/// Append each `Free` body's current position, projected into the
/// visualization plane, to its trail; dragged and halted bodies leave their
/// history untouched. `trails[i]` is the trail of `bodies[i]`.
pub fn update_trails(bodies: &Vec<Body>, trails: &mut Vec<Trail>)
    requires
        old(trails)@.len() == bodies@.len(),
        forall|k: int| 0 <= k < old(trails)@.len() ==> (#[trigger] old(trails)@[k]).wf(),
    ensures
        final(trails)@.len() == bodies@.len(),
        forall|i: int|
            0 <= i < bodies@.len() ==> {
                let t = old(trails)@[i];
                let ft = #[trigger] final(trails)@[i];
                &&& ft.cap() == t.cap()
                &&& ft.wf()
                &&& (bodies@[i].control is Free ==> ft@ == trail_push(
                    t@,
                    t.cap(),
                    Vector2 { x: bodies@[i].position.x, y: bodies@[i].position.y },
                ))
                &&& (!(bodies@[i].control is Free) ==> ft == t)
            },
{
    let n = bodies.len();
    for i in 0..n
        invariant
            n == bodies@.len(),
            old(trails)@.len() == bodies@.len(),
            trails@.len() == bodies@.len(),
            forall|k: int|
                i <= k < trails@.len() ==> #[trigger] trails@[k] == old(trails)@[k],
            forall|k: int| 0 <= k < old(trails)@.len() ==> (#[trigger] old(trails)@[k]).wf(),
            forall|k: int|
                0 <= k < i ==> {
                    let t = old(trails)@[k];
                    let ft = #[trigger] trails@[k];
                    &&& ft.cap() == t.cap()
                    &&& ft.wf()
                    &&& (bodies@[k].control is Free ==> ft@ == trail_push(
                        t@,
                        t.cap(),
                        Vector2 { x: bodies@[k].position.x, y: bodies@[k].position.y },
                    ))
                    &&& (!(bodies@[k].control is Free) ==> ft == t)
                },
    {
        let is_free = match bodies[i].control {
            ControlState::Free => true,
            _ => false,
        };
        if is_free {
            let p = bodies[i].position.truncate();
            proof {
                assert(trails@[i as int] == old(trails)@[i as int]);
                assert(old(trails)@[i as int].wf());
            }
            let tr = &mut trails[i];
            tr.append(p);
        }
    }
}

} // verus!
