//! Pairwise softened gravity and the solver that sums it over a snapshot.
//!
//! The pairwise law is the fixed-point transcription of
//! `-G * m / (|d| + ETA)^2 * normalize(d)` with `d = target - source`:
//! every division truncates toward zero, and the separation `|d|` is the
//! floor square root of the squared norm. A coincident pair contributes
//! zero acceleration, the softened law's explicit fallback for a degenerate
//! separation.

use vstd::prelude::*;
use crate::fixed::{
    ETA_RAW, G_RAW, MASS_LIMIT, MAX_BODIES, PAIR_ACCEL_LIMIT, SCALE, floor_sqrt, iabs,
    is_floor_sqrt, isqrt,
};
use crate::vector::{V3, Vector3, in_coord_range, v3_add, v3_zero};
use crate::body::{Body, ControlState};

verus! {

/// The scalar magnitude of the softened pairwise acceleration:
/// `G * m * SCALE / (len + ETA)^2`, with the two divisions by the softened
/// separation truncated in the order they are computed.
pub open spec fn pair_mag(m: int, len: int) -> int {
    ((G_RAW as int) * m / (len + (ETA_RAW as int))) * (SCALE as int) / (len + (ETA_RAW as int))
}

/// One component of the unit direction, scaled by `SCALE`: `|d| * SCALE / len`.
pub open spec fn dir_scaled(d: int, len: int) -> int {
    (iabs(d) * (SCALE as int)) / len
}

/// One component of the pairwise acceleration on the target: the magnitude
/// times the unit direction component, pointing from the target back toward
/// the source (attraction).
pub open spec fn accel_comp(m: int, d: int, len: int) -> int {
    let t = (pair_mag(m, len) * dir_scaled(d, len)) / (SCALE as int);
    if d >= 0 {
        -t
    } else {
        t
    }
}

/// The acceleration a source of mass `m` at `source` induces at `target`.
/// A coincident pair induces zero.
pub open spec fn pair_accel(source: V3, m: int, target: V3) -> V3 {
    let dx = target.x - source.x;
    let dy = target.y - source.y;
    let dz = target.z - source.z;
    if dx == 0 && dy == 0 && dz == 0 {
        v3_zero()
    } else {
        let len = floor_sqrt(dx * dx + dy * dy + dz * dz);
        V3 {
            x: accel_comp(m, dx, len),
            y: accel_comp(m, dy, len),
            z: accel_comp(m, dz, len),
        }
    }
}

/// Every component of `a` is within the pairwise bound.
pub open spec fn pair_in_range(a: V3) -> bool {
    &&& iabs(a.x) <= PAIR_ACCEL_LIMIT
    &&& iabs(a.y) <= PAIR_ACCEL_LIMIT
    &&& iabs(a.z) <= PAIR_ACCEL_LIMIT
}

/// The sum of the pairwise accelerations induced at `target` by the first
/// `n` bodies of the snapshot `s`, skipping the body at index `excl`.
pub open spec fn sum_pairs(s: Seq<Body>, target: V3, excl: int, n: int) -> V3
    decreases n,
{
    if n <= 0 {
        v3_zero()
    } else {
        let rest = sum_pairs(s, target, excl, n - 1);
        if n - 1 == excl {
            rest
        } else {
            v3_add(rest, pair_accel(s[n - 1].position@, s[n - 1].mass as int, target))
        }
    }
}

/// The net acceleration on body `i`: the simultaneous sum over all other
/// bodies of the snapshot, evaluated at body `i`'s snapshot position.
pub open spec fn net_accel(s: Seq<Body>, i: int) -> V3 {
    sum_pairs(s, s[i].position@, i, s.len() as int)
}

/// A single isolated body feels no force: its net acceleration is the zero
/// vector.
pub proof fn lemma_isolated_body(s: Seq<Body>)
    requires
        s.len() == 1,
    ensures
        net_accel(s, 0) == v3_zero(),
{
    assert(sum_pairs(s, s[0].position@, 0, 0) == v3_zero());
}

/// With exactly two bodies present, the net acceleration on each body is
/// exactly the pairwise softened term induced by the other, evaluated at
/// its own snapshot position.
pub proof fn lemma_two_body_net(s: Seq<Body>)
    requires
        s.len() == 2,
    ensures
        net_accel(s, 0) == pair_accel(s[1].position@, s[1].mass as int, s[0].position@),
        net_accel(s, 1) == pair_accel(s[0].position@, s[0].mass as int, s[1].position@),
{
    let t0 = s[0].position@;
    let t1 = s[1].position@;
    assert(sum_pairs(s, t0, 0, 0) == v3_zero());
    assert(sum_pairs(s, t0, 0, 1) == v3_zero());
    assert(sum_pairs(s, t1, 1, 0) == v3_zero());
    assert(sum_pairs(s, t1, 1, 1) == v3_add(
        v3_zero(),
        pair_accel(s[0].position@, s[0].mass as int, t1),
    ));
}

/// The pairwise acceleration attracts: each of its components is opposite
/// in sign to the corresponding component of the separation `d = target -
/// source`, so it points from the target back toward the source. For a pair
/// aligned with the x axis, the nonzero component's magnitude is exactly
/// `pair_mag(m, dist)`, the fixed-point reading of `G * m / (dist + ETA)^2`
/// at the floor separation `dist = |d.x|`.
pub proof fn lemma_pair_attraction(source: V3, m: int, target: V3)
    requires
        0 < m,
    ensures
        ({
            let a = pair_accel(source, m, target);
            &&& a.x * (target.x - source.x) <= 0
            &&& a.y * (target.y - source.y) <= 0
            &&& a.z * (target.z - source.z) <= 0
        }),
        target.y == source.y && target.z == source.z && target.x != source.x ==> ({
            let a = pair_accel(source, m, target);
            &&& a.y == 0
            &&& a.z == 0
            &&& iabs(a.x) == pair_mag(m, iabs(target.x - source.x))
        }),
{
    let dx = target.x - source.x;
    let dy = target.y - source.y;
    let dz = target.z - source.z;
    if dx == 0 && dy == 0 && dz == 0 {
    } else {
        let n2 = dx * dx + dy * dy + dz * dz;
        assert(n2 >= 1) by (nonlinear_arith)
            requires
                n2 == dx * dx + dy * dy + dz * dz,
                !(dx == 0 && dy == 0 && dz == 0),
        ;
        crate::fixed::lemma_floor_sqrt_exists(n2);
        let len = floor_sqrt(n2);
        assert(len >= 1) by (nonlinear_arith)
            requires
                is_floor_sqrt(n2, len),
                n2 >= 1,
        ;
        lemma_accel_comp_sign(m, dx, len);
        lemma_accel_comp_sign(m, dy, len);
        lemma_accel_comp_sign(m, dz, len);
        if dy == 0 && dz == 0 && dx != 0 {
            assert(n2 == dx * dx) by (nonlinear_arith)
                requires
                    dy == 0,
                    dz == 0,
                    n2 == dx * dx + dy * dy + dz * dz,
            ;
            assert(is_floor_sqrt(dx * dx, iabs(dx))) by (nonlinear_arith);
            crate::fixed::lemma_floor_sqrt(n2, iabs(dx));
            assert(len == iabs(dx));
            assert(dir_scaled(dx, len) == SCALE) by (nonlinear_arith)
                requires
                    len >= 1,
                    iabs(dx) == len,
                    dir_scaled(dx, len) == (iabs(dx) * (SCALE as int)) / (len as int),
            ;
            assert(dir_scaled(0, len) == 0) by (nonlinear_arith)
                requires
                    len >= 1,
                    dir_scaled(0, len) == (iabs(0) * (SCALE as int)) / (len as int),
            ;
            let mag = pair_mag(m, len);
            lemma_pair_mag_nonneg(m, len);
            assert((mag * (SCALE as int)) / (SCALE as int) == mag) by (nonlinear_arith)
                requires
                    0 <= mag,
            ;
            assert((mag * 0) / (SCALE as int) == 0) by (nonlinear_arith);
        }
    }
}

/// The softened magnitude is never negative.
pub proof fn lemma_pair_mag_nonneg(m: int, len: int)
    requires
        0 < m,
        0 <= len,
    ensures
        0 <= pair_mag(m, len),
{
    assert(0 <= ((G_RAW as int) * m / (len + (ETA_RAW as int))) * (SCALE as int) / (len + (ETA_RAW
        as int))) by (nonlinear_arith)
        requires
            0 < m,
            0 <= len,
    ;
}

/// One acceleration component is opposite in sign to its separation
/// component.
proof fn lemma_accel_comp_sign(m: int, d: int, len: int)
    requires
        0 < m,
        1 <= len,
    ensures
        accel_comp(m, d, len) * d <= 0,
{
    lemma_pair_mag_nonneg(m, len);
    assert(0 <= dir_scaled(d, len)) by (nonlinear_arith)
        requires
            1 <= len,
            dir_scaled(d, len) == (iabs(d) * (SCALE as int)) / (len as int),
    ;
    let t = (pair_mag(m, len) * dir_scaled(d, len)) / (SCALE as int);
    assert(0 <= t) by (nonlinear_arith)
        requires
            0 <= pair_mag(m, len),
            0 <= dir_scaled(d, len),
            t == (pair_mag(m, len) * dir_scaled(d, len)) / (SCALE as int),
    ;
    assert(accel_comp(m, d, len) * d <= 0) by (nonlinear_arith)
        requires
            0 <= t,
            accel_comp(m, d, len) == (if d >= 0 {
                -t
            } else {
                t
            }),
    ;
}

/// The softened magnitude weakens with distance: a larger separation never
/// gives a larger magnitude.
pub proof fn lemma_pair_mag_monotone(m: int, r: int, len: int)
    requires
        0 < m,
        0 <= r <= len,
    ensures
        pair_mag(m, len) <= pair_mag(m, r),
{
    let den_r = r + (ETA_RAW as int);
    let den_l = len + (ETA_RAW as int);
    let t1_l = (G_RAW as int) * m / den_l;
    let t1_r = (G_RAW as int) * m / den_r;
    assert(0 <= t1_l && t1_l <= t1_r) by (nonlinear_arith)
        requires
            0 < (G_RAW as int) * m,
            0 < den_r <= den_l,
            t1_l == (G_RAW as int) * m / den_l,
            t1_r == (G_RAW as int) * m / den_r,
    ;
    assert(t1_l * (SCALE as int) / den_l <= t1_r * (SCALE as int) / den_r) by (nonlinear_arith)
        requires
            0 <= t1_l <= t1_r,
            0 < den_r <= den_l,
    ;
    assert(0 < (G_RAW as int) * m) by (nonlinear_arith)
        requires
            0 < m,
    ;
}

/// No component of a pairwise contribution exceeds the softened magnitude
/// at distance `r`, for any target strictly farther from the source than
/// `r`: the bound a sampling pass relies on after self-exclusion.
pub proof fn lemma_pair_accel_bound(source: V3, m: int, target: V3, r: int)
    requires
        0 < m,
        0 <= r,
        ({
            let dx = target.x - source.x;
            let dy = target.y - source.y;
            let dz = target.z - source.z;
            dx * dx + dy * dy + dz * dz > r * r
        }),
    ensures
        iabs(pair_accel(source, m, target).x) <= pair_mag(m, r),
        iabs(pair_accel(source, m, target).y) <= pair_mag(m, r),
        iabs(pair_accel(source, m, target).z) <= pair_mag(m, r),
{
    let dx = target.x - source.x;
    let dy = target.y - source.y;
    let dz = target.z - source.z;
    let n2 = dx * dx + dy * dy + dz * dz;
    assert(n2 >= 1 && !(dx == 0 && dy == 0 && dz == 0)) by (nonlinear_arith)
        requires
            n2 == dx * dx + dy * dy + dz * dz,
            n2 > r * r,
            0 <= r,
    ;
    crate::fixed::lemma_floor_sqrt_exists(n2);
    let len = floor_sqrt(n2);
    assert(len >= 1 && len >= r) by (nonlinear_arith)
        requires
            is_floor_sqrt(n2, len),
            n2 >= 1,
            n2 > r * r,
            0 <= r,
    ;
    assert(iabs(dx) <= len && iabs(dy) <= len && iabs(dz) <= len) by (nonlinear_arith)
        requires
            n2 == dx * dx + dy * dy + dz * dz,
            n2 < (len + 1) * (len + 1),
            len >= 0,
    ;
    lemma_pair_mag_monotone(m, r, len);
    lemma_pair_mag_nonneg(m, len);
    lemma_accel_comp_le_mag(m, dx, len);
    lemma_accel_comp_le_mag(m, dy, len);
    lemma_accel_comp_le_mag(m, dz, len);
}

/// One component of the pairwise acceleration never exceeds the softened
/// magnitude at the pair's own separation.
proof fn lemma_accel_comp_le_mag(m: int, d: int, len: int)
    requires
        0 < m,
        1 <= len,
        iabs(d) <= len,
    ensures
        iabs(accel_comp(m, d, len)) <= pair_mag(m, len),
{
    lemma_pair_mag_nonneg(m, len);
    assert(0 <= dir_scaled(d, len) <= SCALE) by (nonlinear_arith)
        requires
            1 <= len,
            0 <= iabs(d) <= len,
            dir_scaled(d, len) == (iabs(d) * (SCALE as int)) / (len as int),
    ;
    let t = (pair_mag(m, len) * dir_scaled(d, len)) / (SCALE as int);
    assert(0 <= t <= pair_mag(m, len)) by (nonlinear_arith)
        requires
            0 <= pair_mag(m, len),
            0 <= dir_scaled(d, len) <= SCALE,
            t == (pair_mag(m, len) * dir_scaled(d, len)) / (SCALE as int),
    ;
}

/// One component of the pairwise acceleration, from the already-computed
/// magnitude and separation.
fn accel_comp_exec(mag: u128, d: i128, len: u128) -> (r: i128)
    requires
        1 <= len <= 7_000_000_000_000_000_000,
        iabs(d as int) <= len,
        mag <= PAIR_ACCEL_LIMIT,
    ensures
        r as int == ({
            let t = (mag * ((iabs(d as int) * (SCALE as int)) / (len as int))) / (SCALE as int);
            if d >= 0 {
                -t
            } else {
                t
            }
        }),
        iabs(r as int) <= mag,
{
    let u: u128 = if d < 0 {
        (-d) as u128
    } else {
        d as u128
    };
    proof {
        assert(u * SCALE <= 7_000_000_000_000_000_000 * SCALE) by (nonlinear_arith)
            requires
                0 <= u <= 7_000_000_000_000_000_000,
        ;
    }
    let nn: u128 = u * (SCALE as u128) / len;
    proof {
        assert((u * SCALE) / (len as int) <= SCALE) by (nonlinear_arith)
            requires
                0 <= u <= len,
                1 <= len,
        ;
        assert(mag * nn <= PAIR_ACCEL_LIMIT * SCALE) by (nonlinear_arith)
            requires
                0 <= mag <= PAIR_ACCEL_LIMIT,
                0 <= nn <= SCALE,
        ;
    }
    let t: u128 = mag * nn / (SCALE as u128);
    proof {
        assert((mag * nn) / (SCALE as int) <= mag) by (nonlinear_arith)
            requires
                0 <= mag,
                0 <= nn <= SCALE,
        ;
    }
    let ti: i128 = t as i128;
    if d >= 0 {
        -ti
    } else {
        ti
    }
}

/// The acceleration induced at `position` by a source of mass `mass` at
/// `point`: the softened inverse-square law, or zero for a coincident pair.
pub fn calc_acceleration(point: Vector3, mass: i128, position: Vector3) -> (a: Vector3)
    requires
        in_coord_range(point),
        in_coord_range(position),
        0 < mass <= MASS_LIMIT,
    ensures
        a@ == pair_accel(point@, mass as int, position@),
        pair_in_range(a@),
{
    let dx = position.x - point.x;
    let dy = position.y - point.y;
    let dz = position.z - point.z;
    if dx == 0 && dy == 0 && dz == 0 {
        return Vector3 { x: 0, y: 0, z: 0 };
    }
    proof {
        assert(dx * dx <= 16_000_000_000_000_000_000_000_000_000_000_000_000 && dx * dx >= 0)
            by (nonlinear_arith)
            requires
                -4_000_000_000_000_000_000 <= dx <= 4_000_000_000_000_000_000,
        ;
        assert(dy * dy <= 16_000_000_000_000_000_000_000_000_000_000_000_000 && dy * dy >= 0)
            by (nonlinear_arith)
            requires
                -4_000_000_000_000_000_000 <= dy <= 4_000_000_000_000_000_000,
        ;
        assert(dz * dz <= 16_000_000_000_000_000_000_000_000_000_000_000_000 && dz * dz >= 0)
            by (nonlinear_arith)
            requires
                -4_000_000_000_000_000_000 <= dz <= 4_000_000_000_000_000_000,
        ;
        assert(dx * dx >= 1 || dy * dy >= 1 || dz * dz >= 1) by (nonlinear_arith)
            requires
                !(dx == 0 && dy == 0 && dz == 0),
        ;
    }
    let n2: i128 = dx * dx + dy * dy + dz * dz;
    let len: u128 = isqrt(n2 as u128);
    proof {
        assert(n2 >= 1);
        assert(len >= 1 && len <= 7_000_000_000_000_000_000) by (nonlinear_arith)
            requires
                (len as int) * (len as int) <= n2 as int,
                (n2 as int) < ((len as int) + 1) * ((len as int) + 1),
                1 <= n2 <= 48_000_000_000_000_000_000_000_000_000_000_000_000,
        ;
        assert(iabs(dx as int) <= len && iabs(dy as int) <= len && iabs(dz as int) <= len)
            by (nonlinear_arith)
            requires
                dx * dx >= 0,
                dy * dy >= 0,
                dz * dz >= 0,
                n2 == dx * dx + dy * dy + dz * dz,
                (n2 as int) < ((len as int) + 1) * ((len as int) + 1),
                len >= 0,
        ;
    }
    let den: u128 = len + (ETA_RAW as u128);
    proof {
        assert(G_RAW * mass <= 667_340_000_000_000_000_000_000_000_000_000_000)
            by (nonlinear_arith)
            requires
                0 < mass <= MASS_LIMIT,
        ;
    }
    let t1: u128 = (G_RAW as u128) * (mass as u128) / den;
    proof {
        assert((G_RAW * mass) / (den as int) <= 667_340_000_000_000_000_000) by (nonlinear_arith)
            requires
                0 <= G_RAW * mass <= 667_340_000_000_000_000_000_000_000_000_000_000,
                den >= ETA_RAW,
                den >= 1,
        ;
        assert(t1 * SCALE <= 667_340_000_000_000_000_000 * SCALE) by (nonlinear_arith)
            requires
                0 <= t1 <= 667_340_000_000_000_000_000,
        ;
    }
    let t2: u128 = t1 * (SCALE as u128);
    proof {
        assert((t2 as int) / (den as int) <= 667_340_000_000_000_000_000) by (nonlinear_arith)
            requires
                0 <= t2 <= 667_340_000_000_000_000_000_000_000_000_000_000,
                den >= ETA_RAW,
        ;
    }
    let mag: u128 = t2 / den;
    let ax = accel_comp_exec(mag, dx, len);
    let ay = accel_comp_exec(mag, dy, len);
    let az = accel_comp_exec(mag, dz, len);
    proof {
        crate::fixed::lemma_floor_sqrt(n2 as int, len as int);
    }
    Vector3 { x: ax, y: ay, z: az }
}

/// The net acceleration on body `i` of the snapshot, by direct summation.
fn net_accel_of(bodies: &Vec<Body>, i: usize) -> (a: Vector3)
    requires
        bodies@.len() <= MAX_BODIES,
        i < bodies@.len(),
        forall|k: int|
            0 <= k < bodies@.len() ==> (#[trigger] bodies@[k]).wf() && in_coord_range(
                bodies@[k].position,
            ),
    ensures
        a@ == net_accel(bodies@, i as int),
        iabs(a@.x) <= bodies@.len() * PAIR_ACCEL_LIMIT,
        iabs(a@.y) <= bodies@.len() * PAIR_ACCEL_LIMIT,
        iabs(a@.z) <= bodies@.len() * PAIR_ACCEL_LIMIT,
{
    let target = bodies[i].position;
    let mut ax: i128 = 0;
    let mut ay: i128 = 0;
    let mut az: i128 = 0;
    let n = bodies.len();
    for j in 0..n
        invariant
            n == bodies@.len(),
            bodies@.len() <= MAX_BODIES,
            i < bodies@.len(),
            target == bodies@[i as int].position,
            forall|k: int|
                0 <= k < bodies@.len() ==> (#[trigger] bodies@[k]).wf() && in_coord_range(
                    bodies@[k].position,
                ),
            (V3 { x: ax as int, y: ay as int, z: az as int }) == sum_pairs(
                bodies@,
                target@,
                i as int,
                j as int,
            ),
            iabs(ax as int) <= j * PAIR_ACCEL_LIMIT,
            iabs(ay as int) <= j * PAIR_ACCEL_LIMIT,
            iabs(az as int) <= j * PAIR_ACCEL_LIMIT,
    {
        if j != i {
            let pa = calc_acceleration(bodies[j].position, bodies[j].mass, target);
            ax = ax + pa.x;
            ay = ay + pa.y;
            az = az + pa.z;
        }
    }
    Vector3 { x: ax, y: ay, z: az }
}

/// Recompute the acceleration of every `Free` body from the snapshot of all
/// positions and masses, as if all forces acted simultaneously: every sum is
/// taken over the positions as they stood at entry, and nothing else of any
/// body changes. Bodies under user control or halted keep their acceleration.
pub fn update_gravity(bodies: &mut Vec<Body>)
    requires
        old(bodies)@.len() <= MAX_BODIES,
        forall|k: int|
            0 <= k < old(bodies)@.len() ==> (#[trigger] old(bodies)@[k]).wf() && in_coord_range(
                old(bodies)@[k].position,
            ),
    ensures
        final(bodies)@.len() == old(bodies)@.len(),
        forall|i: int|
            0 <= i < old(bodies)@.len() ==> {
                let b = old(bodies)@[i];
                let fb = #[trigger] final(bodies)@[i];
                &&& fb.mass == b.mass
                &&& fb.radius == b.radius
                &&& fb.position == b.position
                &&& fb.velocity == b.velocity
                &&& fb.control == b.control
                &&& (b.control is Free ==> fb.acceleration@ == net_accel(old(bodies)@, i)
                    && iabs(fb.acceleration@.x) <= old(bodies)@.len() * PAIR_ACCEL_LIMIT
                    && iabs(fb.acceleration@.y) <= old(bodies)@.len() * PAIR_ACCEL_LIMIT
                    && iabs(fb.acceleration@.z) <= old(bodies)@.len() * PAIR_ACCEL_LIMIT)
                &&& (!(b.control is Free) ==> fb.acceleration == b.acceleration)
            },
{
    let n = bodies.len();
    let mut accels: Vec<Vector3> = Vec::new();
    for i in 0..n
        invariant
            n == bodies@.len(),
            bodies@.len() <= MAX_BODIES,
            forall|k: int|
                0 <= k < bodies@.len() ==> (#[trigger] bodies@[k]).wf() && in_coord_range(
                    bodies@[k].position,
                ),
            accels@.len() == i,
            forall|k: int|
                0 <= k < i ==> (#[trigger] accels@[k])@ == net_accel(bodies@, k) && iabs(
                    accels@[k]@.x,
                ) <= bodies@.len() * PAIR_ACCEL_LIMIT && iabs(accels@[k]@.y) <= bodies@.len()
                    * PAIR_ACCEL_LIMIT && iabs(accels@[k]@.z) <= bodies@.len() * PAIR_ACCEL_LIMIT,
    {
        let a = net_accel_of(bodies, i);
        accels.push(a);
    }
    for i in 0..n
        invariant
            n == old(bodies)@.len(),
            bodies@.len() == old(bodies)@.len(),
            accels@.len() == n,
            forall|k: int|
                0 <= k < n ==> (#[trigger] accels@[k])@ == net_accel(old(bodies)@, k) && iabs(
                    accels@[k]@.x,
                ) <= old(bodies)@.len() * PAIR_ACCEL_LIMIT && iabs(accels@[k]@.y) <= old(
                    bodies,
                )@.len() * PAIR_ACCEL_LIMIT && iabs(accels@[k]@.z) <= old(bodies)@.len()
                    * PAIR_ACCEL_LIMIT,
            forall|k: int|
                i <= k < old(bodies)@.len() ==> #[trigger] bodies@[k] == old(bodies)@[k],
            forall|k: int|
                0 <= k < i ==> {
                    let b = old(bodies)@[k];
                    let fb = #[trigger] bodies@[k];
                    &&& fb.mass == b.mass
                    &&& fb.radius == b.radius
                    &&& fb.position == b.position
                    &&& fb.velocity == b.velocity
                    &&& fb.control == b.control
                    &&& (b.control is Free ==> fb.acceleration@ == net_accel(old(bodies)@, k)
                        && iabs(fb.acceleration@.x) <= old(bodies)@.len() * PAIR_ACCEL_LIMIT
                        && iabs(fb.acceleration@.y) <= old(bodies)@.len() * PAIR_ACCEL_LIMIT
                        && iabs(fb.acceleration@.z) <= old(bodies)@.len() * PAIR_ACCEL_LIMIT)
                    &&& (!(b.control is Free) ==> fb.acceleration == b.acceleration)
                },
    {
        let is_free = match bodies[i].control {
            ControlState::Free => true,
            _ => false,
        };
        if is_free {
            let b = bodies[i];
            let a = accels[i];
            bodies.set(
                i,
                Body {
                    mass: b.mass,
                    radius: b.radius,
                    position: b.position,
                    velocity: b.velocity,
                    acceleration: a,
                    control: b.control,
                },
            );
        }
    }
}

} // verus!
