//! Semi-implicit Euler integration of the damped nonlinear pendulum.
use vstd::prelude::*;
use crate::error::SimError;
use crate::fixed::{SCALE, fits_i64, div_away_from_zero, div_round_out, div_toward_zero, div_trunc};
use crate::clock::TimeSource;
use crate::pendulum::{Pendulum, PendulumView, SimConfig};
use crate::trig::{sin_fx, sin_nano};

verus! {

/// Angular acceleration `-(g / length) * sin(angle)`, in nanoradians per
/// second squared.
pub open spec fn acceleration(p: PendulumView, cfg: SimConfig) -> int {
    -div_toward_zero(cfg.g * sin_fx(p.angle), p.length)
}

/// The velocity after the acceleration update.
pub open spec fn accelerated_velocity(p: PendulumView, cfg: SimConfig, dt: int) -> int {
    p.angular_velocity + div_toward_zero(acceleration(p, cfg) * dt, SCALE as int)
}

/// The velocity factor `1 - damping_rate * dt`, in billionths. The loss
/// `damping_rate * dt` is rounded away from zero, so that any damping at
/// all takes something off the velocity.
pub open spec fn damping_factor(cfg: SimConfig, dt: int) -> int {
    SCALE - div_away_from_zero(cfg.damping_rate * dt, SCALE as int)
}

/// The velocity after damping.
pub open spec fn damped_velocity(p: PendulumView, cfg: SimConfig, dt: int) -> int {
    div_toward_zero(accelerated_velocity(p, cfg, dt) * damping_factor(cfg, dt), SCALE as int)
}

/// The angle after moving with the damped velocity.
pub open spec fn moved_angle(p: PendulumView, cfg: SimConfig, dt: int) -> int {
    p.angle + div_toward_zero(damped_velocity(p, cfg, dt) * dt, SCALE as int)
}

/// One semi-implicit Euler step of `dt` nanoseconds: velocity first, then
/// damping, then the angle from the new velocity. `None` where the rod
/// length is not positive or a stored quantity does not fit an `i64`.
pub open spec fn step_view(p: PendulumView, cfg: SimConfig, dt: int) -> Option<PendulumView> {
    if p.length <= 0 {
        None
    } else if fits_i64(acceleration(p, cfg)) && fits_i64(accelerated_velocity(p, cfg, dt))
        && fits_i64(damping_factor(cfg, dt)) && fits_i64(damped_velocity(p, cfg, dt))
        && fits_i64(moved_angle(p, cfg, dt)) {
        Some(
            PendulumView {
                angle: moved_angle(p, cfg, dt),
                angular_velocity: damped_velocity(p, cfg, dt),
                length: p.length,
            },
        )
    } else {
        None
    }
}

/// What a tick of `dt` nanoseconds makes of a pendulum: nothing moves
/// when `dt` is zero.
pub open spec fn tick_view(p: PendulumView, cfg: SimConfig, dt: int) -> Option<PendulumView> {
    if dt == 0 {
        Some(p)
    } else {
        step_view(p, cfg, dt)
    }
}

/// Whether every pendulum of the batch can be advanced by `dt`.
pub open spec fn batch_ok(ps: Seq<Pendulum>, cfg: SimConfig, dt: int) -> bool {
    forall|i: int| 0 <= i < ps.len() ==> (#[trigger] tick_view(ps[i]@, cfg, dt)) is Some
}

proof fn lemma_product_bound(x: int, y: int)
    requires
        fits_i64(x),
        fits_i64(y),
    ensures
        -0x4000_0000_0000_0000_0000_0000_0000_0000 <= x * y <= 0x4000_0000_0000_0000_0000_0000_0000_0000,
{
    assert(-0x4000_0000_0000_0000_0000_0000_0000_0000 <= x * y <= 0x4000_0000_0000_0000_0000_0000_0000_0000)
        by (nonlinear_arith)
        requires
            -0x8000_0000_0000_0000 <= x <= 0x7fff_ffff_ffff_ffff,
            -0x8000_0000_0000_0000 <= y <= 0x7fff_ffff_ffff_ffff,
    ;
}

fn narrow(x: i128) -> (r: Option<i64>)
    ensures
        r == (if fits_i64(x as int) { Some(x as i64) } else { None::<i64> }),
{
    if x < i64::MIN as i128 || x > i64::MAX as i128 {
        None
    } else {
        Some(x as i64)
    }
}

/// Advances one pendulum by one semi-implicit Euler step of `dt`
/// nanoseconds.
pub fn step(p: &Pendulum, cfg: &SimConfig, dt: i64) -> (r: Result<Pendulum, SimError>)
    ensures
        step_view(p@, *cfg, dt as int) matches Some(v) ==> r matches Ok(q) && q@ == v,
        step_view(p@, *cfg, dt as int) is None ==> r == Err::<Pendulum, SimError>(
            SimError::NumericalFault,
        ),
{
    p.establish_valid();
    let ghost v = p@;
    let s = sin_nano(p.angle());
    proof {
        lemma_product_bound(cfg.g as int, s as int);
    }
    let num: i128 = (cfg.g as i128) * (s as i128);
    let acc_wide: i128 = -div_trunc(num, p.length() as i128);
    let acc = match narrow(acc_wide) {
        Some(a) => a,
        None => return Err(SimError::NumericalFault),
    };
    assert(acc == acceleration(v, *cfg));
    proof {
        lemma_product_bound(acc as int, dt as int);
    }
    let v1_wide: i128 = (p.angular_velocity() as i128) + div_trunc(
        (acc as i128) * (dt as i128),
        SCALE as i128,
    );
    let v1 = match narrow(v1_wide) {
        Some(x) => x,
        None => return Err(SimError::NumericalFault),
    };
    proof {
        lemma_product_bound(cfg.damping_rate as int, dt as int);
    }
    let factor_wide: i128 = (SCALE as i128) - div_round_out(
        (cfg.damping_rate as i128) * (dt as i128),
        SCALE as i128,
    );
    let factor = match narrow(factor_wide) {
        Some(x) => x,
        None => return Err(SimError::NumericalFault),
    };
    proof {
        lemma_product_bound(v1 as int, factor as int);
    }
    let v2_wide: i128 = div_trunc((v1 as i128) * (factor as i128), SCALE as i128);
    let v2 = match narrow(v2_wide) {
        Some(x) => x,
        None => return Err(SimError::NumericalFault),
    };
    proof {
        lemma_product_bound(v2 as int, dt as int);
    }
    let a1_wide: i128 = (p.angle() as i128) + div_trunc((v2 as i128) * (dt as i128), SCALE as i128);
    let a1 = match narrow(a1_wide) {
        Some(x) => x,
        None => return Err(SimError::NumericalFault),
    };
    Ok(p.moved_to(a1, v2))
}

/// What advancing `before` by `dt` nanoseconds may end in: the sequence
/// `after` with the result `r`. A negative `dt` is refused; a zero one
/// changes nothing; otherwise the batch fails exactly when one of its
/// pendulums cannot be advanced, and on failure nothing changes.
pub open spec fn advance_outcome(
    before: Seq<Pendulum>,
    after: Seq<Pendulum>,
    cfg: SimConfig,
    dt: int,
    r: Result<(), SimError>,
) -> bool {
    &&& r is Ok <==> dt >= 0 && batch_ok(before, cfg, dt)
    &&& r == Err::<(), SimError>(SimError::InvalidTimeDelta) <==> dt < 0
    &&& r == Err::<(), SimError>(SimError::NumericalFault) <==> dt >= 0 && !batch_ok(before, cfg, dt)
    &&& r is Err || dt == 0 ==> after == before
    &&& after.len() == before.len()
    &&& r is Ok ==> forall|i: int|
        0 <= i < before.len() ==> tick_view(before[i]@, cfg, dt) == Some(#[trigger] after[i]@)
}

/// Advances every pendulum of the sequence by `dt` nanoseconds, each on
/// its own. A negative `dt` is refused before anything is touched; a zero
/// `dt` changes nothing; where any pendulum cannot be advanced, none is.
pub fn advance(pendulums: &mut Vec<Pendulum>, cfg: &SimConfig, dt: i64) -> (r: Result<(), SimError>)
    ensures
        advance_outcome(old(pendulums)@, final(pendulums)@, *cfg, dt as int, r),
{
    if dt < 0 {
        return Err(SimError::InvalidTimeDelta);
    }
    if dt == 0 {
        assert(batch_ok(pendulums@, *cfg, dt as int)) by {
            assert forall|j: int| 0 <= j < pendulums.len() implies (#[trigger] tick_view(
                pendulums[j]@,
                *cfg,
                dt as int,
            )) is Some by {}
        }
        return Ok(());
    }
    let mut next: Vec<Pendulum> = Vec::new();
    let mut i: usize = 0;
    while i < pendulums.len()
        invariant
            i <= pendulums.len(),
            dt > 0,
            next.len() == i,
            forall|j: int|
                0 <= j < i ==> tick_view(pendulums[j]@, *cfg, dt as int) == Some(
                    #[trigger] next[j]@,
                ),
        decreases pendulums.len() - i,
    {
        match step(&pendulums[i], cfg, dt) {
            Ok(q) => next.push(q),
            Err(e) => {
                assert(tick_view(pendulums[i as int]@, *cfg, dt as int) is None);
                return Err(e);
            },
        }
        i = i + 1;
    }
    assert(batch_ok(pendulums@, *cfg, dt as int)) by {
        assert forall|j: int| 0 <= j < pendulums.len() implies (#[trigger] tick_view(
            pendulums[j]@,
            *cfg,
            dt as int,
        )) is Some by {
            assert(tick_view(pendulums[j]@, *cfg, dt as int) == Some(next[j]@));
        }
    }
    *pendulums = next;
    Ok(())
}

/// One tick of the simulation: the time source yields the step, which
/// advances the whole sequence. A step the source refuses fails the tick
/// with the source's error and leaves the pendulums untouched.
pub fn tick(pendulums: &mut Vec<Pendulum>, cfg: &SimConfig, source: &mut TimeSource, reading: i64) -> (r:
    Result<(), SimError>)
    ensures
        old(source).dt_for(reading as int) matches Err(e) ==> r == Err::<(), SimError>(e)
            && final(pendulums)@ == old(pendulums)@,
        old(source).dt_for(reading as int) matches Ok(dt) ==> advance_outcome(
            old(pendulums)@,
            final(pendulums)@,
            *cfg,
            dt as int,
            r,
        ),
        old(source).dt_for(reading as int) is Err || *old(source) is External ==> *final(source)
            == *old(source),
        old(source).dt_for(reading as int) is Ok && *old(source) is WallClock ==> (*final(
            source
        ) matches TimeSource::WallClock(c) && c.last_spec() == reading),
{
    match source.next_dt(reading) {
        Ok(dt) => advance(pendulums, cfg, dt),
        Err(e) => Err(e),
    }
}

/// A tick of zero length succeeds on every batch and leaves every
/// pendulum as it was.
pub proof fn lemma_zero_tick_is_identity(ps: Seq<Pendulum>, cfg: SimConfig)
    ensures
        batch_ok(ps, cfg, 0),
        forall|i: int| 0 <= i < ps.len() ==> #[trigger] tick_view(ps[i]@, cfg, 0) == Some(ps[i]@),
{
    assert forall|i: int| 0 <= i < ps.len() implies (#[trigger] tick_view(ps[i]@, cfg, 0)) is Some by {}
}

/// A pendulum hanging at rest stays at rest, without damping, for every
/// non-negative time step.
pub proof fn lemma_equilibrium_is_fixed(p: PendulumView, g: i64, dt: int)
    requires
        p.angle == 0,
        p.angular_velocity == 0,
        p.length > 0,
        0 <= dt,
    ensures
        tick_view(p, SimConfig { g, damping_rate: 0 }, dt) == Some(p),
{
    let cfg = SimConfig { g, damping_rate: 0 };
    crate::trig::lemma_sin_zero();
    assert(cfg.g * sin_fx(p.angle) == 0);
    assert(acceleration(p, cfg) == 0);
    assert(accelerated_velocity(p, cfg, dt) == 0);
    assert(damping_factor(cfg, dt) == SCALE);
    assert(damped_velocity(p, cfg, dt) == 0);
    assert(moved_angle(p, cfg, dt) == 0);
}

proof fn lemma_shrink(v: int, f: int)
    requires
        v >= 0,
        0 <= f <= SCALE,
    ensures
        0 <= v * f / (SCALE as int) <= v,
        f < SCALE && v > 0 ==> v * f / (SCALE as int) < v,
{
    assert(0 <= v * f <= v * SCALE) by (nonlinear_arith)
        requires v >= 0, 0 <= f <= SCALE;
    if f < SCALE && v > 0 {
        assert(v * f < v * SCALE) by (nonlinear_arith)
            requires v > 0, 0 <= f < SCALE;
    }
    assert(v * f / (SCALE as int) <= v * SCALE / (SCALE as int)) by {
        vstd::arithmetic::div_mod::lemma_div_is_ordered(v * f, v * SCALE, SCALE as int);
    }
    assert(v * SCALE / (SCALE as int) == v) by {
        vstd::arithmetic::div_mod::lemma_div_by_multiple(v, SCALE as int);
    }
    if f < SCALE && v > 0 {
        assert(v * f / (SCALE as int) < v) by {
            vstd::arithmetic::div_mod::lemma_div_by_multiple_is_strongly_ordered(
                v * f,
                v * SCALE,
                v,
                SCALE as int,
            );
        }
    }
}

/// Damping dissipates: from the same state and over the same step, the
/// damped velocity is strictly smaller in magnitude than the undamped one
/// whenever the latter is not zero, as long as the step's damping
/// `damping_rate * dt` stays within a whole unit (a larger product makes
/// `1 - damping_rate * dt` negative, beyond the scheme's stable range).
pub proof fn lemma_damping_dissipates(p: PendulumView, g: i64, damping_rate: i64, dt: int)
    requires
        p.length > 0,
        dt > 0,
        damping_rate > 0,
        damping_rate * dt <= SCALE * SCALE,
    ensures
        ({
            let damped = SimConfig { g, damping_rate };
            let undamped = SimConfig { g, damping_rate: 0 };
            let v1 = accelerated_velocity(p, undamped, dt);
            &&& accelerated_velocity(p, damped, dt) == v1
            &&& damped_velocity(p, undamped, dt) == v1
            &&& crate::trig::magnitude(damped_velocity(p, damped, dt)) <= crate::trig::magnitude(v1)
            &&& (v1 != 0 ==> crate::trig::magnitude(damped_velocity(p, damped, dt))
                < crate::trig::magnitude(v1))
        }),
{
    let damped = SimConfig { g, damping_rate };
    let undamped = SimConfig { g, damping_rate: 0 };
    let v1 = accelerated_velocity(p, undamped, dt);
    assert(damping_factor(undamped, dt) == SCALE);
    let x = damping_rate * dt;
    assert(1 <= x) by (nonlinear_arith)
        requires damping_rate > 0, dt > 0, x == damping_rate * dt;
    vstd::arithmetic::div_mod::lemma_div_is_ordered(SCALE as int, x + SCALE - 1, SCALE as int);
    vstd::arithmetic::div_mod::lemma_div_is_ordered(
        x + SCALE - 1,
        SCALE * SCALE + SCALE - 1,
        SCALE as int,
    );
    vstd::arithmetic::div_mod::lemma_div_by_multiple(1, SCALE as int);
    assert((SCALE * SCALE + SCALE - 1) / (SCALE as int) == SCALE as int);
    let f = damping_factor(damped, dt);
    assert(0 <= f < SCALE);
    if v1 >= 0 {
        lemma_shrink(v1, SCALE as int);
        lemma_shrink(v1, f);
    } else {
        lemma_shrink(-v1, SCALE as int);
        lemma_shrink(-v1, f);
        assert(-(v1 * SCALE) == (-v1) * SCALE) by (nonlinear_arith);
        assert(-(v1 * f) == (-v1) * f) by (nonlinear_arith);
        assert(v1 * f <= 0) by (nonlinear_arith)
            requires v1 < 0, f >= 0;
    }
}

/// Pendulums do not act on one another: a batch that can be advanced has
/// each of its pendulums advanced exactly as a batch holding that
/// pendulum alone would be.
pub proof fn lemma_batch_is_independent(ps: Seq<Pendulum>, cfg: SimConfig, dt: int)
    requires
        batch_ok(ps, cfg, dt),
    ensures
        forall|i: int|
            0 <= i < ps.len() ==> batch_ok(#[trigger] seq![ps[i]], cfg, dt) && tick_view(
                seq![ps[i]][0]@,
                cfg,
                dt,
            ) == tick_view(ps[i]@, cfg, dt),
{
    assert forall|i: int| 0 <= i < ps.len() implies batch_ok(#[trigger] seq![ps[i]], cfg, dt)
        && tick_view(seq![ps[i]][0]@, cfg, dt) == tick_view(ps[i]@, cfg, dt) by {
        let single = seq![ps[i]];
        assert(single[0] == ps[i]);
        assert forall|j: int| 0 <= j < single.len() implies (#[trigger] tick_view(
            single[j]@,
            cfg,
            dt,
        )) is Some by {
            assert(tick_view(ps[i]@, cfg, dt) is Some);
        }
    }
}

} // verus!
