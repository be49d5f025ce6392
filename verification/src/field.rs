//! Sampling the acceleration field over a fixed grid, for visualization.

use vstd::prelude::*;
use crate::fixed::{
    FIELD_ACCEL_LIMIT, MAX_BODIES, PAIR_ACCEL_LIMIT, SCALE, floor_sqrt, iabs, isqrt,
};
use crate::vector::{V3, Vector2, Vector3, in_coord_range, v3_add, v3_norm2, v3_zero};
use crate::body::Body;
use crate::gravity::{
    calc_acceleration, lemma_pair_accel_bound, lemma_pair_mag_nonneg, pair_accel, pair_mag,
    sum_pairs,
};
use crate::fixed::{ETA_RAW, G_RAW, MASS_LIMIT};

verus! {

/// A fixed sample location, and the acceleration last sampled there.
#[derive(Clone, Copy, Debug)]
pub struct FieldPoint {
    pub position: Vector3,
    pub acceleration: Vector3,
}

/// The sampling grid: one `FieldPoint` per integer cell of a bounding
/// rectangle, scaled by a resolution and placed behind the bodies on the
/// depth axis, together with the minimum and maximum acceleration magnitude
/// observed across the whole grid during the latest sampling pass, used
/// only to normalize arrow sizes. `None` stands for "no pass has run yet".
pub struct FieldSampler {
    pub resolution: Vector2,
    pub min_x: i32,
    pub min_y: i32,
    pub max_x: i32,
    pub max_y: i32,
    pub points: Vec<FieldPoint>,
    pub min_mag: Option<i128>,
    pub max_mag: Option<i128>,
}

/// The fixed position of grid cell `(i, j)`: the cell indices scaled by the
/// resolution, one unit behind the simulation plane.
pub open spec fn grid_position(res: Vector2, i: int, j: int) -> V3 {
    V3 { x: i * (res.x as int), y: j * (res.y as int), z: -(SCALE as int) }
}

/// The row-major index of grid cell `(i, j)` in the flattened grid.
pub open spec fn grid_index(min_x: int, min_y: int, max_y: int, i: int, j: int) -> int {
    (i - min_x) * (max_y - min_y) + (j - min_y)
}

/// Whether a body contributes to the sample at `pos`: only when the sample
/// point lies strictly outside the body's radius, so a body never samples
/// its own interior. Compared on squared distances.
pub open spec fn includes(b: Body, pos: V3) -> bool {
    let dx = b.position@.x - pos.x;
    let dy = b.position@.y - pos.y;
    let dz = b.position@.z - pos.z;
    dx * dx + dy * dy + dz * dz > b.radius * b.radius
}

/// The sampled acceleration at `pos`: the sum of the pairwise contributions
/// of the first `n` bodies whose distance to the sample point exceeds their
/// radius.
pub open spec fn field_accel(s: Seq<Body>, pos: V3, n: int) -> V3
    decreases n,
{
    if n <= 0 {
        v3_zero()
    } else {
        let rest = field_accel(s, pos, n - 1);
        if includes(s[n - 1], pos) {
            v3_add(rest, pair_accel(s[n - 1].position@, s[n - 1].mass as int, pos))
        } else {
            rest
        }
    }
}

/// The magnitude of the sampled acceleration at `pos`.
pub open spec fn sample_mag(s: Seq<Body>, pos: V3) -> int {
    floor_sqrt(v3_norm2(field_accel(s, pos, s.len() as int)))
}

/// Every component of the sampled acceleration at `pos` is small enough for
/// its magnitude to be computed.
pub open spec fn sample_in_range(s: Seq<Body>, pos: V3) -> bool {
    let a = field_accel(s, pos, s.len() as int);
    &&& iabs(a.x) <= FIELD_ACCEL_LIMIT
    &&& iabs(a.y) <= FIELD_ACCEL_LIMIT
    &&& iabs(a.z) <= FIELD_ACCEL_LIMIT
}

/// The running minimum after observing `v`.
pub open spec fn fold_min(o: Option<int>, v: int) -> Option<int> {
    match o {
        Option::None => Option::Some(v),
        Option::Some(m) => Option::Some(
            if v < m {
                v
            } else {
                m
            },
        ),
    }
}

/// The running maximum after observing `v`.
pub open spec fn fold_max(o: Option<int>, v: int) -> Option<int> {
    match o {
        Option::None => Option::Some(v),
        Option::Some(m) => Option::Some(
            if v > m {
                v
            } else {
                m
            },
        ),
    }
}

/// The minimum magnitude over the first `k` sample positions of one pass;
/// `None` over none of them.
pub open spec fn pass_min(s: Seq<Body>, pts: Seq<FieldPoint>, k: int) -> Option<int>
    decreases k,
{
    if k <= 0 {
        Option::None
    } else {
        fold_min(pass_min(s, pts, k - 1), sample_mag(s, pts[k - 1].position@))
    }
}

/// The maximum magnitude over the first `k` sample positions of one pass;
/// `None` over none of them.
pub open spec fn pass_max(s: Seq<Body>, pts: Seq<FieldPoint>, k: int) -> Option<int>
    decreases k,
{
    if k <= 0 {
        Option::None
    } else {
        fold_max(pass_max(s, pts, k - 1), sample_mag(s, pts[k - 1].position@))
    }
}

/// The mathematical value of a stored running extremum.
pub open spec fn opt_int(o: Option<i128>) -> Option<int> {
    match o {
        Option::None => Option::None,
        Option::Some(v) => Option::Some(v as int),
    }
}

impl FieldSampler {
    /// Build the grid: one point per integer cell `(i, j)` of the bounding
    /// rectangle, in row-major order, at `(i * resolution.x,
    /// j * resolution.y)`, one unit behind the simulation plane, with no
    /// acceleration sampled yet and no extrema observed.
    pub fn new(min_x: i32, min_y: i32, max_x: i32, max_y: i32, resolution: Vector2) -> (s:
        FieldSampler)
        requires
            min_x <= max_x,
            min_y <= max_y,
            0 <= resolution.x,
            0 <= resolution.y,
            iabs(min_x as int) * resolution.x <= crate::fixed::COORD_LIMIT,
            iabs(max_x as int) * resolution.x <= crate::fixed::COORD_LIMIT,
            iabs(min_y as int) * resolution.y <= crate::fixed::COORD_LIMIT,
            iabs(max_y as int) * resolution.y <= crate::fixed::COORD_LIMIT,
            (max_x - min_x) * (max_y - min_y) <= usize::MAX,
        ensures
            s.resolution == resolution,
            s.min_x == min_x,
            s.min_y == min_y,
            s.max_x == max_x,
            s.max_y == max_y,
            s.min_mag is None,
            s.max_mag is None,
            s.points@.len() == (max_x - min_x) * (max_y - min_y),
            forall|i: int, j: int|
                #![trigger grid_index(min_x as int, min_y as int, max_y as int, i, j)]
                min_x <= i < max_x && min_y <= j < max_y ==> {
                    let k = grid_index(min_x as int, min_y as int, max_y as int, i, j);
                    &&& 0 <= k < s.points@.len()
                    &&& s.points@[k].position@ == grid_position(resolution, i, j)
                    &&& s.points@[k].acceleration == (Vector3 { x: 0, y: 0, z: 0 })
                    &&& in_coord_range(s.points@[k].position)
                },
    {
        let mut points: Vec<FieldPoint> = Vec::new();
        let mut i = min_x;
        while i < max_x
            invariant
                min_x <= i <= max_x,
                min_y <= max_y,
                0 <= resolution.x,
                0 <= resolution.y,
                iabs(min_x as int) * resolution.x <= crate::fixed::COORD_LIMIT,
                iabs(max_x as int) * resolution.x <= crate::fixed::COORD_LIMIT,
                iabs(min_y as int) * resolution.y <= crate::fixed::COORD_LIMIT,
                iabs(max_y as int) * resolution.y <= crate::fixed::COORD_LIMIT,
                points@.len() == (i - min_x) * ((max_y - min_y) as int),
                forall|a: int, b: int|
                    #![trigger grid_index(min_x as int, min_y as int, max_y as int, a, b)]
                    min_x <= a < i && min_y <= b < max_y ==> {
                        let k = grid_index(min_x as int, min_y as int, max_y as int, a, b);
                        &&& 0 <= k < points@.len()
                        &&& points@[k].position@ == grid_position(resolution, a, b)
                        &&& points@[k].acceleration == (Vector3 { x: 0, y: 0, z: 0 })
                        &&& in_coord_range(points@[k].position)
                    },
            decreases max_x - i,
        {
            let mut j = min_y;
            while j < max_y
                invariant
                    min_x <= i < max_x,
                    min_y <= j <= max_y,
                    0 <= resolution.x,
                    0 <= resolution.y,
                    iabs(min_x as int) * resolution.x <= crate::fixed::COORD_LIMIT,
                    iabs(max_x as int) * resolution.x <= crate::fixed::COORD_LIMIT,
                    iabs(min_y as int) * resolution.y <= crate::fixed::COORD_LIMIT,
                    iabs(max_y as int) * resolution.y <= crate::fixed::COORD_LIMIT,
                    points@.len() == (i - min_x) * ((max_y - min_y) as int) + (j - min_y),
                    forall|a: int, b: int|
                        #![trigger grid_index(min_x as int, min_y as int, max_y as int, a, b)]
                        min_x <= a < i && min_y <= b < max_y ==> {
                            let k = grid_index(min_x as int, min_y as int, max_y as int, a, b);
                            &&& 0 <= k < points@.len()
                            &&& points@[k].position@ == grid_position(resolution, a, b)
                            &&& points@[k].acceleration == (Vector3 { x: 0, y: 0, z: 0 })
                            &&& in_coord_range(points@[k].position)
                        },
                    forall|b: int|
                        #![trigger grid_index(min_x as int, min_y as int, max_y as int, i as int, b)]
                        min_y <= b < j ==> {
                            let k = grid_index(min_x as int, min_y as int, max_y as int, i as int, b);
                            &&& 0 <= k < points@.len()
                            &&& points@[k].position@ == grid_position(resolution, i as int, b)
                            &&& points@[k].acceleration == (Vector3 { x: 0, y: 0, z: 0 })
                            &&& in_coord_range(points@[k].position)
                        },
                decreases max_y - j,
            {
                proof {
                    assert(-crate::fixed::COORD_LIMIT <= (i as int) * (resolution.x as int)
                        <= crate::fixed::COORD_LIMIT) by (nonlinear_arith)
                        requires
                            min_x <= i <= max_x,
                            0 <= resolution.x,
                            (if min_x < 0 {
                                -(min_x as int)
                            } else {
                                min_x as int
                            }) * resolution.x <= crate::fixed::COORD_LIMIT,
                            (if max_x < 0 {
                                -(max_x as int)
                            } else {
                                max_x as int
                            }) * resolution.x <= crate::fixed::COORD_LIMIT,
                    ;
                    assert(-crate::fixed::COORD_LIMIT <= (j as int) * (resolution.y as int)
                        <= crate::fixed::COORD_LIMIT) by (nonlinear_arith)
                        requires
                            min_y <= j <= max_y,
                            0 <= resolution.y,
                            (if min_y < 0 {
                                -(min_y as int)
                            } else {
                                min_y as int
                            }) * resolution.y <= crate::fixed::COORD_LIMIT,
                            (if max_y < 0 {
                                -(max_y as int)
                            } else {
                                max_y as int
                            }) * resolution.y <= crate::fixed::COORD_LIMIT,
                    ;
                }
                let px: i128 = (i as i128) * resolution.x;
                let py: i128 = (j as i128) * resolution.y;
                let position = Vector3 { x: px, y: py, z: -SCALE };
                points.push(FieldPoint { position, acceleration: Vector3 { x: 0, y: 0, z: 0 } });
                j = j + 1;
            }
            i = i + 1;
            proof {
                assert((i - min_x) * ((max_y - min_y) as int) == (i - 1 - min_x) * ((max_y - min_y) as int) + (max_y - min_y)) by (nonlinear_arith);
            }
        }
        FieldSampler {
            resolution,
            min_x,
            min_y,
            max_x,
            max_y,
            points,
            min_mag: None,
            max_mag: None,
        }
    }
}

/// The sampled acceleration at `pos`, by direct summation over the bodies
/// whose distance to `pos` exceeds their radius.
fn field_accel_of(bodies: &Vec<Body>, pos: Vector3) -> (a: Vector3)
    requires
        bodies@.len() <= MAX_BODIES,
        in_coord_range(pos),
        forall|k: int|
            0 <= k < bodies@.len() ==> (#[trigger] bodies@[k]).wf() && in_coord_range(
                bodies@[k].position,
            ),
    ensures
        a@ == field_accel(bodies@, pos@, bodies@.len() as int),
{
    let mut ax: i128 = 0;
    let mut ay: i128 = 0;
    let mut az: i128 = 0;
    let n = bodies.len();
    for j in 0..n
        invariant
            n == bodies@.len(),
            bodies@.len() <= MAX_BODIES,
            in_coord_range(pos),
            forall|k: int|
                0 <= k < bodies@.len() ==> (#[trigger] bodies@[k]).wf() && in_coord_range(
                    bodies@[k].position,
                ),
            (V3 { x: ax as int, y: ay as int, z: az as int }) == field_accel(
                bodies@,
                pos@,
                j as int,
            ),
            iabs(ax as int) <= j * PAIR_ACCEL_LIMIT,
            iabs(ay as int) <= j * PAIR_ACCEL_LIMIT,
            iabs(az as int) <= j * PAIR_ACCEL_LIMIT,
    {
        let b = bodies[j];
        let dx = b.position.x - pos.x;
        let dy = b.position.y - pos.y;
        let dz = b.position.z - pos.z;
        proof {
            assert(dx * dx <= 16_000_000_000_000_000_000_000_000_000_000_000_000 && dx * dx >= 0)
                by (nonlinear_arith)
                requires
                    -4_000_000_000_000_000_000 <= dx <= 4_000_000_000_000_000_000,
            ;
            assert(dy * dy <= 16_000_000_000_000_000_000_000_000_000_000_000_000 && dy * dy >= 0)
                by (nonlinear_arith)
                requires
                    -4_000_000_000_000_000_000 <= dy <= 4_000_000_000_000_000_000,
            ;
            assert(dz * dz <= 16_000_000_000_000_000_000_000_000_000_000_000_000 && dz * dz >= 0)
                by (nonlinear_arith)
                requires
                    -4_000_000_000_000_000_000 <= dz <= 4_000_000_000_000_000_000,
            ;
            assert(b.radius * b.radius <= 4_000_000_000_000_000_000_000_000_000_000_000_000
                && b.radius * b.radius >= 0) by (nonlinear_arith)
                requires
                    0 <= b.radius <= 2_000_000_000_000_000_000,
            ;
        }
        if dx * dx + dy * dy + dz * dz > b.radius * b.radius {
            let pa = calc_acceleration(b.position, b.mass, pos);
            ax = ax + pa.x;
            ay = ay + pa.y;
            az = az + pa.z;
        }
    }
    Vector3 { x: ax, y: ay, z: az }
}

/// One sampling pass: recompute every sample point's acceleration from the
/// current snapshot of bodies, honoring each body's self-exclusion radius,
/// and track the minimum and maximum magnitude observed across the whole
/// grid for this pass, discarding the previous pass's extrema. The caller
/// keeps the sampled sums within `FIELD_ACCEL_LIMIT` per component, so each
/// magnitude is computable.
pub fn update_acceleration_field(sampler: &mut FieldSampler, bodies: &Vec<Body>)
    requires
        bodies@.len() <= MAX_BODIES,
        forall|k: int|
            0 <= k < bodies@.len() ==> (#[trigger] bodies@[k]).wf() && in_coord_range(
                bodies@[k].position,
            ),
        forall|k: int|
            0 <= k < old(sampler).points@.len() ==> in_coord_range(
                (#[trigger] old(sampler).points@[k]).position,
            ),
        forall|k: int|
            0 <= k < old(sampler).points@.len() ==> sample_in_range(
                bodies@,
                (#[trigger] old(sampler).points@[k]).position@,
            ),
    ensures
        final(sampler).resolution == old(sampler).resolution,
        final(sampler).min_x == old(sampler).min_x,
        final(sampler).min_y == old(sampler).min_y,
        final(sampler).max_x == old(sampler).max_x,
        final(sampler).max_y == old(sampler).max_y,
        final(sampler).points@.len() == old(sampler).points@.len(),
        forall|k: int|
            0 <= k < old(sampler).points@.len() ==> {
                let pt = old(sampler).points@[k];
                let fpt = #[trigger] final(sampler).points@[k];
                &&& fpt.position == pt.position
                &&& fpt.acceleration@ == field_accel(bodies@, pt.position@, bodies@.len() as int)
            },
        opt_int(final(sampler).min_mag) == pass_min(
            bodies@,
            old(sampler).points@,
            old(sampler).points@.len() as int,
        ),
        opt_int(final(sampler).max_mag) == pass_max(
            bodies@,
            old(sampler).points@,
            old(sampler).points@.len() as int,
        ),
{
    sampler.min_mag = None;
    sampler.max_mag = None;
    let n = sampler.points.len();
    for k in 0..n
        invariant
            n == old(sampler).points@.len(),
            sampler.points@.len() == old(sampler).points@.len(),
            sampler.resolution == old(sampler).resolution,
            sampler.min_x == old(sampler).min_x,
            sampler.min_y == old(sampler).min_y,
            sampler.max_x == old(sampler).max_x,
            sampler.max_y == old(sampler).max_y,
            bodies@.len() <= MAX_BODIES,
            forall|q: int|
                0 <= q < bodies@.len() ==> (#[trigger] bodies@[q]).wf() && in_coord_range(
                    bodies@[q].position,
                ),
            forall|q: int|
                0 <= q < old(sampler).points@.len() ==> in_coord_range(
                    (#[trigger] old(sampler).points@[q]).position,
                ),
            forall|q: int|
                0 <= q < old(sampler).points@.len() ==> sample_in_range(
                    bodies@,
                    (#[trigger] old(sampler).points@[q]).position@,
                ),
            forall|q: int|
                k <= q < old(sampler).points@.len() ==> #[trigger] sampler.points@[q]
                    == old(sampler).points@[q],
            forall|q: int|
                0 <= q < k ==> {
                    let pt = old(sampler).points@[q];
                    let fpt = #[trigger] sampler.points@[q];
                    &&& fpt.position == pt.position
                    &&& fpt.acceleration@ == field_accel(
                        bodies@,
                        pt.position@,
                        bodies@.len() as int,
                    )
                },
            opt_int(sampler.min_mag) == pass_min(bodies@, old(sampler).points@, k as int),
            opt_int(sampler.max_mag) == pass_max(bodies@, old(sampler).points@, k as int),
    {
        let pos = sampler.points[k].position;
        let total = field_accel_of(bodies, pos);
        proof {
            assert(total.x * total.x <= FIELD_ACCEL_LIMIT * FIELD_ACCEL_LIMIT && total.x * total.x
                >= 0) by (nonlinear_arith)
                requires
                    -FIELD_ACCEL_LIMIT <= total.x <= FIELD_ACCEL_LIMIT,
            ;
            assert(total.y * total.y <= FIELD_ACCEL_LIMIT * FIELD_ACCEL_LIMIT && total.y * total.y
                >= 0) by (nonlinear_arith)
                requires
                    -FIELD_ACCEL_LIMIT <= total.y <= FIELD_ACCEL_LIMIT,
            ;
            assert(total.z * total.z <= FIELD_ACCEL_LIMIT * FIELD_ACCEL_LIMIT && total.z * total.z
                >= 0) by (nonlinear_arith)
                requires
                    -FIELD_ACCEL_LIMIT <= total.z <= FIELD_ACCEL_LIMIT,
            ;
        }
        let n2: i128 = total.x * total.x + total.y * total.y + total.z * total.z;
        let mag_u = isqrt(n2 as u128);
        proof {
            assert(mag_u * mag_u <= n2 as int);
            assert(mag_u <= 9_000_000_000_000_000_000) by (nonlinear_arith)
                requires
                    (mag_u as int) * (mag_u as int) <= 75_000_000_000_000_000_000_000_000_000_000_000_000,
            ;
        }
        let mag = mag_u as i128;
        sampler.points.set(k, FieldPoint { position: pos, acceleration: total });
        sampler.min_mag = Some(
            match sampler.min_mag {
                Option::None => mag,
                Option::Some(m) => if mag < m {
                    mag
                } else {
                    m
                },
            },
        );
        sampler.max_mag = Some(
            match sampler.max_mag {
                Option::None => mag,
                Option::Some(m) => if mag > m {
                    mag
                } else {
                    m
                },
            },
        );
        proof {
            crate::fixed::lemma_floor_sqrt(n2 as int, mag_u as int);
        }
    }
}

/// A bound the whole pass respects at every sample position: the sum over
/// the first `n` bodies of the softened magnitude at each body's own
/// radius.
pub open spec fn field_bound(s: Seq<Body>, n: int) -> int
    decreases n,
{
    if n <= 0 {
        0
    } else {
        field_bound(s, n - 1) + pair_mag(s[n - 1].mass as int, s[n - 1].radius as int)
    }
}

/// At every sample position, each component of the sampled acceleration is
/// within `field_bound`: an included body lies strictly farther than its
/// radius, so its contribution is at most its softened magnitude there.
pub proof fn lemma_field_accel_bound(s: Seq<Body>, pos: V3, n: int)
    requires
        0 <= n <= s.len(),
        forall|j: int| 0 <= j < n ==> (#[trigger] s[j]).wf(),
    ensures
        iabs(field_accel(s, pos, n).x) <= field_bound(s, n),
        iabs(field_accel(s, pos, n).y) <= field_bound(s, n),
        iabs(field_accel(s, pos, n).z) <= field_bound(s, n),
        0 <= field_bound(s, n),
    decreases n,
{
    if n > 0 {
        lemma_field_accel_bound(s, pos, n - 1);
        let b = s[n - 1];
        lemma_pair_mag_nonneg(b.mass as int, b.radius as int);
        if includes(b, pos) {
            assert((pos.x - b.position@.x) * (pos.x - b.position@.x) + (pos.y - b.position@.y) * (
            pos.y - b.position@.y) + (pos.z - b.position@.z) * (pos.z - b.position@.z)
                > b.radius * b.radius) by (nonlinear_arith)
                requires
                    (b.position@.x - pos.x) * (b.position@.x - pos.x) + (b.position@.y - pos.y) * (
                    b.position@.y - pos.y) + (b.position@.z - pos.z) * (b.position@.z - pos.z)
                        > b.radius * b.radius,
            ;
            lemma_pair_accel_bound(b.position@, b.mass as int, pos, b.radius as int);
        }
    }
}

/// A sufficient run-time check that one sampling pass stays within the
/// engine's computable range for this snapshot: when it holds, the sampled
/// acceleration is in range at every position whatsoever, so
/// `update_acceleration_field`'s sampling precondition is met for any grid.
pub fn field_sample_supported(bodies: &Vec<Body>) -> (ok: bool)
    requires
        bodies@.len() <= MAX_BODIES,
        forall|k: int| 0 <= k < bodies@.len() ==> (#[trigger] bodies@[k]).wf(),
    ensures
        ok ==> forall|pos: V3| sample_in_range(bodies@, pos),
{
    let mut total: u128 = 0;
    let n = bodies.len();
    for j in 0..n
        invariant
            n == bodies@.len(),
            bodies@.len() <= MAX_BODIES,
            forall|k: int| 0 <= k < bodies@.len() ==> (#[trigger] bodies@[k]).wf(),
            total as int == field_bound(bodies@, j as int),
            total <= j * PAIR_ACCEL_LIMIT,
    {
        let b = bodies[j];
        proof {
            assert(G_RAW * b.mass <= 667_340_000_000_000_000_000_000_000_000_000_000)
                by (nonlinear_arith)
                requires
                    0 < b.mass <= MASS_LIMIT,
            ;
        }
        let gm: u128 = (G_RAW as u128) * (b.mass as u128);
        let den: u128 = (b.radius as u128) + (ETA_RAW as u128);
        let t1: u128 = gm / den;
        proof {
            assert((gm as int) / (den as int) <= 667_340_000_000_000_000_000) by (nonlinear_arith)
                requires
                    0 <= gm <= 667_340_000_000_000_000_000_000_000_000_000_000,
                    den >= ETA_RAW,
            ;
            assert(t1 * SCALE <= 667_340_000_000_000_000_000 * SCALE) by (nonlinear_arith)
                requires
                    0 <= t1 <= 667_340_000_000_000_000_000,
            ;
        }
        let t2: u128 = t1 * (SCALE as u128);
        let mag: u128 = t2 / den;
        proof {
            assert((t2 as int) / (den as int) <= 667_340_000_000_000_000_000) by (nonlinear_arith)
                requires
                    0 <= t2 <= 667_340_000_000_000_000_000_000_000_000_000_000,
                    den >= ETA_RAW,
            ;
        }
        total = total + mag;
    }
    let ok = total <= (FIELD_ACCEL_LIMIT as u128);
    proof {
        if ok {
            assert forall|pos: V3| sample_in_range(bodies@, pos) by {
                lemma_field_accel_bound(bodies@, pos, bodies@.len() as int);
            };
        }
    }
    ok
}

/// Self-exclusion honored: when exactly one body is within its radius of a
/// sample point, the sampled acceleration there equals the sum of the
/// pairwise contributions of all the other bodies only.
pub proof fn lemma_field_single_exclusion(s: Seq<Body>, pos: V3, e: int, n: int)
    requires
        0 <= e < n <= s.len(),
        !includes(s[e], pos),
        forall|j: int| 0 <= j < n && j != e ==> includes(#[trigger] s[j], pos),
    ensures
        field_accel(s, pos, n) == sum_pairs(s, pos, e, n),
    decreases n,
{
    if n - 1 == e {
        if n - 1 > 0 {
            lemma_field_single_exclusion_tail(s, pos, e, n - 1);
        }
        assert(!includes(s[n - 1], pos));
        assert(field_accel(s, pos, n) == field_accel(s, pos, n - 1));
        assert(sum_pairs(s, pos, e, n) == sum_pairs(s, pos, e, n - 1));
    } else {
        lemma_field_single_exclusion(s, pos, e, n - 1);
        assert(includes(s[n - 1], pos));
        assert(field_accel(s, pos, n) == v3_add(
            field_accel(s, pos, n - 1),
            pair_accel(s[n - 1].position@, s[n - 1].mass as int, pos),
        ));
        assert(sum_pairs(s, pos, e, n) == v3_add(
            sum_pairs(s, pos, e, n - 1),
            pair_accel(s[n - 1].position@, s[n - 1].mass as int, pos),
        ));
    }
}

/// Below the excluded index every body is included, so the two sums agree
/// term for term.
proof fn lemma_field_single_exclusion_tail(s: Seq<Body>, pos: V3, e: int, n: int)
    requires
        0 <= n <= s.len(),
        n <= e,
        forall|j: int| 0 <= j < n ==> includes(#[trigger] s[j], pos),
    ensures
        field_accel(s, pos, n) == sum_pairs(s, pos, e, n),
    decreases n,
{
    if n > 0 {
        lemma_field_single_exclusion_tail(s, pos, e, n - 1);
    }
}

} // verus!
