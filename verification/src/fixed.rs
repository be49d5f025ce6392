//! Fixed-point scalars.
//!
//! A scalar is an `i128` holding `SCALE` times its real value, so one whole
//! unit is `SCALE`. Products and quotients are truncated toward zero; the
//! spec functions here state that arithmetic exactly, over nonnegative
//! divisions only, so Euclidean and machine division agree everywhere they
//! are used.

use vstd::prelude::*;

verus! {

/// One whole unit: the factor between a real value and its raw representation.
pub const SCALE: i128 = 1_000_000_000_000_000;

/// The gravitational constant of the simulation's unit system,
/// 6.6734e-11 in whole units, held exactly in raw units.
pub const G_RAW: i128 = 66_734;

/// Additive softening added to a separation before squaring (one whole unit).
pub const ETA_RAW: i128 = 1_000_000_000_000_000;

/// Factor converting a drag offset into a launch velocity (0.1 whole).
pub const VELOCITY_SCALE_RAW: i128 = 100_000_000_000_000;

/// Largest coordinate magnitude the solver accepts (2000 whole units).
pub const COORD_LIMIT: i128 = 2_000_000_000_000_000_000;

/// Largest mass the solver accepts (1e16 whole units).
pub const MASS_LIMIT: i128 = 10_000_000_000_000_000_000_000_000_000_000;

/// Bound on each component of one pairwise acceleration.
pub const PAIR_ACCEL_LIMIT: i128 = 1_000_000_000_000_000_000_000;

/// Largest body count a summation pass accepts.
pub const MAX_BODIES: usize = 100_000_000;

/// Largest time step the integrator accepts (one second).
pub const DT_LIMIT: i128 = 1_000_000_000_000_000;

/// Bound on each acceleration component at an integration step.
pub const ACCEL_LIMIT: i128 = 10_000_000_000_000_000_000_000;

/// Bound on each velocity component at an integration step.
pub const VEL_LIMIT: i128 = 10_000_000_000_000_000_000_000;

/// Bound on each position component at an integration step.
pub const POS_LIMIT: i128 = 10_000_000_000_000_000_000_000_000;

/// Bound on the arguments `scale_by` accepts.
pub const SCALE_ARG_LIMIT: i128 = 20_000_000_000_000_000_000_000;

/// Bound on each component of a sampled field acceleration, so that its
/// squared norm stays within `u128`.
pub const FIELD_ACCEL_LIMIT: i128 = 5_000_000_000_000_000_000;

/// Absolute value of a mathematical integer.
pub open spec fn iabs(x: int) -> int {
    if x < 0 {
        -x
    } else {
        x
    }
}

/// The product of a raw scalar with a nonnegative raw factor, rescaled:
/// `a * t / SCALE`, truncated toward zero.
pub open spec fn mul_scaled(a: int, t: int) -> int {
    if a >= 0 {
        (a * t) / (SCALE as int)
    } else {
        -(((-a) * t) / (SCALE as int))
    }
}

/// `r` is the floor of the square root of `n`.
pub open spec fn is_floor_sqrt(n: int, r: int) -> bool {
    0 <= r && r * r <= n && n < (r + 1) * (r + 1)
}

/// The floor of the square root of a nonnegative integer.
pub open spec fn floor_sqrt(n: int) -> int {
    choose|r: int| is_floor_sqrt(n, r)
}

/// The floor square root is unique, so any witness determines `floor_sqrt`.
pub proof fn lemma_floor_sqrt(n: int, r: int)
    requires
        is_floor_sqrt(n, r),
    ensures
        floor_sqrt(n) == r,
{
    assert(exists|x: int| is_floor_sqrt(n, x));
    let c = floor_sqrt(n);
    assert(is_floor_sqrt(n, c));
    if c != r {
        assert(false) by (nonlinear_arith)
            requires
                is_floor_sqrt(n, c),
                is_floor_sqrt(n, r),
                c != r,
        ;
    }
}

/// Every nonnegative integer has a floor square root, so `floor_sqrt` is a
/// genuine witness.
pub proof fn lemma_floor_sqrt_exists(n: int)
    requires
        0 <= n,
    ensures
        is_floor_sqrt(n, floor_sqrt(n)),
    decreases n,
{
    if n == 0 {
        assert(is_floor_sqrt(0, 0)) by (nonlinear_arith);
        assert(exists|x: int| is_floor_sqrt(n, x));
    } else {
        lemma_floor_sqrt_exists(n - 1);
        let r = floor_sqrt(n - 1);
        if (r + 1) * (r + 1) <= n {
            assert(is_floor_sqrt(n, r + 1)) by (nonlinear_arith)
                requires
                    is_floor_sqrt(n - 1, r),
                    (r + 1) * (r + 1) <= n,
            ;
            assert(exists|x: int| is_floor_sqrt(n, x));
        } else {
            assert(is_floor_sqrt(n, r));
            assert(exists|x: int| is_floor_sqrt(n, x));
        }
    }
}

/// Floor square root of a `u128`, by bisection.
pub fn isqrt(n: u128) -> (r: u128)
    ensures
        is_floor_sqrt(n as int, r as int),
        r as int == floor_sqrt(n as int),
{
    let mut lo: u128 = 0;
    let mut hi: u128 = if n < 0x1_0000_0000_0000_0000 {
        n + 1
    } else {
        0x1_0000_0000_0000_0000
    };
    proof {
        if n < 0x1_0000_0000_0000_0000 {
            assert(n < (n + 1) * (n + 1)) by (nonlinear_arith);
        } else {
            assert((0x1_0000_0000_0000_0000 as int) * (0x1_0000_0000_0000_0000 as int)
                == 0x1_0000_0000_0000_0000_0000_0000_0000_0000) by (nonlinear_arith);
        }
    }
    while lo + 1 < hi
        invariant
            lo < hi,
            hi <= 0x1_0000_0000_0000_0000,
            lo * lo <= n,
            n < hi * hi,
        decreases hi - lo,
    {
        let mid = lo + (hi - lo) / 2;
        proof {
            assert(mid * mid <= 0xffff_ffff_ffff_ffff * 0xffff_ffff_ffff_ffff)
                by (nonlinear_arith)
                requires
                    0 <= mid <= 0xffff_ffff_ffff_ffff,
            ;
        }
        if mid * mid <= n {
            lo = mid;
        } else {
            hi = mid;
        }
    }
    proof {
        lemma_floor_sqrt(n as int, lo as int);
    }
    lo
}

/// Scale a raw scalar by a nonnegative raw factor of at most one whole unit,
/// truncating toward zero; the magnitude never grows.
pub fn scale_by(a: i128, t: i128) -> (r: i128)
    requires
        0 <= t <= SCALE,
        -SCALE_ARG_LIMIT <= a <= SCALE_ARG_LIMIT,
    ensures
        r as int == mul_scaled(a as int, t as int),
        iabs(r as int) <= iabs(a as int),
{
    let neg = a < 0;
    let ua: u128 = if neg {
        (-a) as u128
    } else {
        a as u128
    };
    proof {
        assert(ua * t <= SCALE_ARG_LIMIT * SCALE) by (nonlinear_arith)
            requires
                0 <= t <= SCALE,
                0 <= ua <= SCALE_ARG_LIMIT,
        ;
    }
    let prod: u128 = ua * (t as u128);
    let q: u128 = prod / (SCALE as u128);
    proof {
        assert((ua * t) / (SCALE as int) <= ua) by (nonlinear_arith)
            requires
                0 <= t <= SCALE,
                0 <= ua,
        ;
    }
    let qi: i128 = q as i128;
    if neg {
        -qi
    } else {
        qi
    }
}

} // verus!
