//! Fixed-point arithmetic shared by the integrator and the trigonometry.
use vstd::prelude::*;

verus! {

/// Number of fixed-point steps in one unit: values are billionths.
pub const SCALE: i64 = 1_000_000_000;

/// Whether `x` can be stored in an `i64`.
pub open spec fn fits_i64(x: int) -> bool {
    i64::MIN <= x <= i64::MAX
}

/// Division of `n` by a positive `d`, rounded toward zero.
pub open spec fn div_toward_zero(n: int, d: int) -> int {
    if n >= 0 {
        n / d
    } else {
        -((-n) / d)
    }
}

/// Executable division rounded toward zero, for numerators whose
/// magnitude is at most `2^126`.
pub fn div_trunc(n: i128, d: i128) -> (r: i128)
    requires
        d > 0,
        -0x4000_0000_0000_0000_0000_0000_0000_0000 <= n <= 0x4000_0000_0000_0000_0000_0000_0000_0000,
    ensures
        r == div_toward_zero(n as int, d as int),
{
    if n >= 0 {
        n / d
    } else {
        let m: i128 = -n;
        -(m / d)
    }
}

/// Division of `n` by a positive `d`, rounded away from zero.
pub open spec fn div_away_from_zero(n: int, d: int) -> int {
    if n >= 0 {
        (n + d - 1) / d
    } else {
        -((-n + d - 1) / d)
    }
}

/// Executable division rounded away from zero, for numerators whose
/// magnitude is at most `2^126` and divisors below `2^126`.
pub fn div_round_out(n: i128, d: i128) -> (r: i128)
    requires
        0 < d <= 0x4000_0000_0000_0000_0000_0000_0000_0000,
        -0x4000_0000_0000_0000_0000_0000_0000_0000 <= n <= 0x4000_0000_0000_0000_0000_0000_0000_0000,
    ensures
        r == div_away_from_zero(n as int, d as int),
{
    if n >= 0 {
        (n + (d - 1)) / d
    } else {
        let m: i128 = -n;
        -((m + (d - 1)) / d)
    }
}

/// `pi` in nanoradians.
pub const PI: i64 = 3_141_592_654;

/// Converts an angle in nanodegrees to nanoradians, rounded toward zero.
pub open spec fn radians_of_degrees(deg: int) -> int {
    div_toward_zero(deg * PI, 180 * SCALE)
}

/// Converts an angle given in nanodegrees to nanoradians (rounded toward
/// zero), the unit in which pendulums hold their angle.
pub fn degrees_to_radians(deg: i64) -> (r: i64)
    ensures
        r == radians_of_degrees(deg as int),
{
    proof {
        assert(-0x8000_0000_0000_0000 * PI <= deg * PI <= 0x7fff_ffff_ffff_ffff * PI) by (nonlinear_arith)
            requires -0x8000_0000_0000_0000 <= deg <= 0x7fff_ffff_ffff_ffff;
        let n = deg * PI;
        if n >= 0 {
            vstd::arithmetic::div_mod::lemma_div_is_ordered(n, 0x7fff_ffff_ffff_ffff * PI, 180 * SCALE);
        } else {
            vstd::arithmetic::div_mod::lemma_div_is_ordered(-n, 0x8000_0000_0000_0000 * PI, 180 * SCALE);
        }
    }
    let p: i128 = (deg as i128) * (PI as i128);
    let q: i128 = div_trunc(p, 180 * (SCALE as i128));
    q as i64
}

} // verus!
