//! Fixed-point sine on nanoradians.
use vstd::prelude::*;
use vstd::arithmetic::div_mod::lemma_div_is_ordered;

verus! {

/// One unit, as the sine's result is scaled.
pub const ONE: u128 = 1_000_000_000;

/// `pi` in nanoradians.
pub const PI_NANO: u128 = 3_141_592_654;

/// `pi / 2` in nanoradians.
pub const HALF_PI_NANO: u128 = 1_570_796_327;

/// `2 pi` in nanoradians.
pub const TWO_PI_NANO: u128 = 6_283_185_308;

/// Bound on the square of a reduced angle.
pub const SQUARE_BOUND: u128 = 2_467_401_101;

/// Taylor polynomial of the sine up to the thirteenth power, in Horner form,
/// for a reduced angle `r` in `[0, pi/2]`; every product is truncated back
/// to nano-units.
pub open spec fn sine_poly(r: int) -> int {
    let r2 = r * r / (ONE as int);
    let t0 = ONE - r2 / 156;
    let t1 = ONE - r2 * t0 / (110 * ONE);
    let a0 = ONE - r2 * t1 / (72 * ONE);
    let a = ONE - r2 * a0 / (42 * ONE);
    let b = ONE - r2 * a / (20 * ONE);
    let c = ONE - r2 * b / (6 * ONE);
    r * c / (ONE as int)
}

/// `|x|`.
pub open spec fn magnitude(x: int) -> int {
    if x < 0 {
        -x
    } else {
        x
    }
}

/// The fixed-point sine of `x` nanoradians, in billionths: the angle is
/// reduced modulo `2 pi` to `[0, pi/2]` by the symmetries of the sine,
/// and the polynomial is evaluated there.
pub open spec fn sin_fx(x: int) -> int {
    let r0 = magnitude(x) % (TWO_PI_NANO as int);
    let flip = r0 >= PI_NANO;
    let r1 = if flip { r0 - PI_NANO } else { r0 };
    let r2 = if r1 > HALF_PI_NANO { PI_NANO - r1 } else { r1 };
    let v = sine_poly(r2);
    if (x < 0) != flip {
        -v
    } else {
        v
    }
}

proof fn lemma_poly_bounds(r: int)
    requires
        0 <= r <= HALF_PI_NANO,
    ensures
        0 <= r * r / (ONE as int) <= SQUARE_BOUND,
        0 <= sine_poly(r) <= HALF_PI_NANO,
{
    assert(0 <= r * r <= (HALF_PI_NANO as int) * (HALF_PI_NANO as int)) by (nonlinear_arith)
        requires 0 <= r <= HALF_PI_NANO;
    lemma_div_is_ordered(r * r, (HALF_PI_NANO as int) * (HALF_PI_NANO as int), ONE as int);
    let r2 = r * r / (ONE as int);
    let t0 = ONE - r2 / 156;
    assert(0 <= t0 <= ONE);
    assert(0 <= r2 * t0 <= (SQUARE_BOUND as int) * (ONE as int)) by (nonlinear_arith)
        requires 0 <= r2 <= SQUARE_BOUND, 0 <= t0 <= ONE;
    lemma_div_is_ordered(r2 * t0, (SQUARE_BOUND as int) * (ONE as int), 110 * ONE);
    let t1 = ONE - r2 * t0 / (110 * ONE);
    assert(0 <= t1 <= ONE);
    assert(0 <= r2 * t1 <= (SQUARE_BOUND as int) * (ONE as int)) by (nonlinear_arith)
        requires 0 <= r2 <= SQUARE_BOUND, 0 <= t1 <= ONE;
    lemma_div_is_ordered(r2 * t1, (SQUARE_BOUND as int) * (ONE as int), 72 * ONE);
    let a0 = ONE - r2 * t1 / (72 * ONE);
    assert(0 <= a0 <= ONE);
    assert(0 <= r2 * a0 <= (SQUARE_BOUND as int) * (ONE as int)) by (nonlinear_arith)
        requires 0 <= r2 <= SQUARE_BOUND, 0 <= a0 <= ONE;
    lemma_div_is_ordered(r2 * a0, (SQUARE_BOUND as int) * (ONE as int), 42 * ONE);
    let a = ONE - r2 * a0 / (42 * ONE);
    assert(0 <= a <= ONE);
    assert(0 <= r2 * a <= (SQUARE_BOUND as int) * (ONE as int)) by (nonlinear_arith)
        requires 0 <= r2 <= SQUARE_BOUND, 0 <= a <= ONE;
    lemma_div_is_ordered(r2 * a, (SQUARE_BOUND as int) * (ONE as int), 20 * ONE);
    let b = ONE - r2 * a / (20 * ONE);
    assert(0 <= b <= ONE);
    assert(0 <= r2 * b <= (SQUARE_BOUND as int) * (ONE as int)) by (nonlinear_arith)
        requires 0 <= r2 <= SQUARE_BOUND, 0 <= b <= ONE;
    lemma_div_is_ordered(r2 * b, (SQUARE_BOUND as int) * (ONE as int), 6 * ONE);
    let c = ONE - r2 * b / (6 * ONE);
    assert(0 <= c <= ONE);
    assert(0 <= r * c <= (HALF_PI_NANO as int) * (ONE as int)) by (nonlinear_arith)
        requires 0 <= r <= HALF_PI_NANO, 0 <= c <= ONE;
    lemma_div_is_ordered(r * c, (HALF_PI_NANO as int) * (ONE as int), ONE as int);
}

/// The sine is zero at zero.
pub proof fn lemma_sin_zero()
    ensures
        sin_fx(0) == 0,
{
    assert(sine_poly(0) == 0);
}

/// The sine of `x` nanoradians, in billionths, as [`sin_fx`] states it.
pub fn sin_nano(x: i64) -> (r: i64)
    ensures
        r == sin_fx(x as int),
        -(HALF_PI_NANO as int) <= r <= HALF_PI_NANO,
{
    let m: u128 = if x < 0 { (-(x as i128)) as u128 } else { x as u128 };
    let r0: u128 = m % TWO_PI_NANO;
    let flip: bool = r0 >= PI_NANO;
    let r1: u128 = if flip { r0 - PI_NANO } else { r0 };
    let rr: u128 = if r1 > HALF_PI_NANO { PI_NANO - r1 } else { r1 };
    proof {
        lemma_poly_bounds(rr as int);
        assert(0 <= rr * rr <= (HALF_PI_NANO as int) * (HALF_PI_NANO as int)) by (nonlinear_arith)
            requires 0 <= rr <= HALF_PI_NANO;
    }
    let r2: u128 = rr * rr / ONE;
    let t0: u128 = ONE - r2 / 156;
    proof {
        assert(0 <= r2 * t0 <= (SQUARE_BOUND as int) * (ONE as int)) by (nonlinear_arith)
            requires 0 <= r2 <= SQUARE_BOUND, 0 <= t0 <= ONE;
        lemma_div_is_ordered(r2 * t0, (SQUARE_BOUND as int) * (ONE as int), (110 * ONE) as int);
    }
    let t1: u128 = ONE - r2 * t0 / (110 * ONE);
    proof {
        assert(0 <= r2 * t1 <= (SQUARE_BOUND as int) * (ONE as int)) by (nonlinear_arith)
            requires 0 <= r2 <= SQUARE_BOUND, 0 <= t1 <= ONE;
        lemma_div_is_ordered(r2 * t1, (SQUARE_BOUND as int) * (ONE as int), (72 * ONE) as int);
    }
    let a0: u128 = ONE - r2 * t1 / (72 * ONE);
    proof {
        assert(0 <= r2 * a0 <= (SQUARE_BOUND as int) * (ONE as int)) by (nonlinear_arith)
            requires 0 <= r2 <= SQUARE_BOUND, 0 <= a0 <= ONE;
        lemma_div_is_ordered(r2 * a0, (SQUARE_BOUND as int) * (ONE as int), (42 * ONE) as int);
    }
    let a: u128 = ONE - r2 * a0 / (42 * ONE);
    proof {
        assert(0 <= r2 * a <= (SQUARE_BOUND as int) * (ONE as int)) by (nonlinear_arith)
            requires 0 <= r2 <= SQUARE_BOUND, 0 <= a <= ONE;
        lemma_div_is_ordered(r2 * a, (SQUARE_BOUND as int) * (ONE as int), (20 * ONE) as int);
    }
    let b: u128 = ONE - r2 * a / (20 * ONE);
    proof {
        assert(0 <= r2 * b <= (SQUARE_BOUND as int) * (ONE as int)) by (nonlinear_arith)
            requires 0 <= r2 <= SQUARE_BOUND, 0 <= b <= ONE;
        lemma_div_is_ordered(r2 * b, (SQUARE_BOUND as int) * (ONE as int), (6 * ONE) as int);
    }
    let c: u128 = ONE - r2 * b / (6 * ONE);
    proof {
        assert(0 <= rr * c <= (HALF_PI_NANO as int) * (ONE as int)) by (nonlinear_arith)
            requires 0 <= rr <= HALF_PI_NANO, 0 <= c <= ONE;
    }
    let v: u128 = rr * c / ONE;
    assert(v == sine_poly(rr as int));
    if (x < 0) != flip {
        -(v as i64)
    } else {
        v as i64
    }
}

} // verus!
