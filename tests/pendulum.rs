use pendulum::clock::{supplied_dt, TimeSource, WallClock};
use pendulum::error::SimError;
use pendulum::fixed::{degrees_to_radians, SCALE};
use pendulum::integrator::{advance, step, tick};
use pendulum::pendulum::{snapshot, Pendulum, SimConfig};
use pendulum::trig::sin_nano;

fn pend(angle: i64, vel: i64, length: i64) -> Pendulum {
    Pendulum::new(angle, vel, length).unwrap()
}

fn state(p: &Pendulum) -> (i64, i64, i64) {
    (p.angle(), p.angular_velocity(), p.length())
}

const EARTH: SimConfig = SimConfig { g: 9_810_000_000, damping_rate: 0 };

#[test]
fn zero_length_is_refused() {
    assert_eq!(Pendulum::new(0, 0, 0).err(), Some(SimError::NumericalFault));
    assert_eq!(Pendulum::new(5, 1, -3).err(), Some(SimError::NumericalFault));
    assert!(Pendulum::new(5, 1, 1).is_ok());
}

#[test]
fn zero_step_changes_nothing() {
    let mut ps = vec![pend(523_598_776, 0, 1_400_000_000), pend(-349_065_850, 2 * SCALE, 2_242_000_000)];
    let before: Vec<_> = ps.iter().map(state).collect();
    assert_eq!(advance(&mut ps, &EARTH, 0), Ok(()));
    let after: Vec<_> = ps.iter().map(state).collect();
    assert_eq!(before, after);
}

#[test]
fn equilibrium_is_kept() {
    for dt in [1, 1_000_000, 16_666_667, 3 * SCALE] {
        let mut ps = vec![pend(0, 0, 1_000_000_000)];
        assert_eq!(advance(&mut ps, &EARTH, dt), Ok(()));
        assert_eq!(state(&ps[0]), (0, 0, 1_000_000_000));
    }
}

#[test]
fn small_angle_period() {
    let start: i64 = 10_000_000;
    let mut ps = vec![pend(start, 0, SCALE)];
    let period = 2.0 * std::f64::consts::PI * (1.0f64 / 9.81).sqrt();
    let steps = (period / 0.001).round() as usize;
    assert_eq!(steps, 2006);
    for _ in 0..steps {
        assert_eq!(advance(&mut ps, &EARTH, 1_000_000), Ok(()));
    }
    let end = ps[0].angle();
    assert!((end - start).abs() <= start / 20, "angle after one period: {}", end);
}

#[test]
fn damping_slows_the_bob() {
    let damped_cfg = SimConfig { g: 9_810_000_000, damping_rate: 100_000_000 };
    let p = pend(523_598_776, 300_000_000, 1_400_000_000);
    let free = step(&p, &EARTH, 16_666_667).unwrap();
    let damped = step(&p, &damped_cfg, 16_666_667).unwrap();
    assert!(damped.angular_velocity().abs() < free.angular_velocity().abs());
}

#[test]
fn negative_step_is_refused() {
    let mut ps = vec![pend(523_598_776, 7, 1_400_000_000), pend(-1, 2, 3)];
    let before: Vec<_> = ps.iter().map(state).collect();
    assert_eq!(advance(&mut ps, &EARTH, -1), Err(SimError::InvalidTimeDelta));
    let after: Vec<_> = ps.iter().map(state).collect();
    assert_eq!(before, after);
}

#[test]
fn batch_matches_single() {
    let mut both = vec![pend(400_000_000, -50_000_000, 2 * SCALE), pend(400_000_000, -50_000_000, 2 * SCALE)];
    let mut one = vec![pend(400_000_000, -50_000_000, 2 * SCALE)];
    assert_eq!(advance(&mut both, &EARTH, 20_000_000), Ok(()));
    assert_eq!(advance(&mut one, &EARTH, 20_000_000), Ok(()));
    assert_eq!(state(&both[0]), state(&one[0]));
    assert_eq!(state(&both[1]), state(&one[0]));
    assert_ne!(state(&one[0]), (400_000_000, -50_000_000, 2 * SCALE));
}

#[test]
fn exact_step_without_gravity_torque() {
    let cfg = SimConfig { g: 9_810_000_000, damping_rate: 100_000_000 };
    let p = step(&pend(0, SCALE, SCALE), &cfg, SCALE).unwrap();
    assert_eq!(state(&p), (900_000_000, 900_000_000, SCALE));
    let q = step(&pend(0, SCALE, SCALE), &EARTH, SCALE).unwrap();
    assert_eq!(state(&q), (SCALE, SCALE, SCALE));
}

#[test]
fn exact_step_with_gravity() {
    // sin(pi/2) is one unit; acceleration -g/l = -2 rad/s^2 over half a second.
    let cfg = SimConfig { g: 2 * SCALE, damping_rate: 0 };
    let s = sin_nano(1_570_796_327);
    let p = step(&pend(1_570_796_327, 0, SCALE), &cfg, SCALE / 2).unwrap();
    let acc = -(2 * s as i128) as i64;
    let v = acc / 2;
    assert_eq!(p.angular_velocity(), v);
    assert_eq!(p.angle(), 1_570_796_327 + v / 2);
}

#[test]
fn overflow_is_a_fault_and_touches_nothing() {
    let cfg = SimConfig { g: i64::MAX, damping_rate: 0 };
    let mut ps = vec![pend(0, 0, SCALE), pend(1_570_796_327, 0, 1)];
    let before: Vec<_> = ps.iter().map(state).collect();
    assert_eq!(advance(&mut ps, &cfg, 1_000_000), Err(SimError::NumericalFault));
    let after: Vec<_> = ps.iter().map(state).collect();
    assert_eq!(before, after);
}

#[test]
fn sine_values() {
    assert_eq!(sin_nano(0), 0);
    for (x, want) in [(523_598_776i64, 0.5f64), (1_570_796_327, 1.0), (3_141_592_654, 0.0), (4_712_388_980, -1.0), (10_000_000, 0.01)] {
        let got = sin_nano(x) as f64 / 1e9;
        assert!((got - want).abs() < 1e-4, "sin({}) = {}", x, got);
        assert_eq!(sin_nano(-x), -sin_nano(x));
    }
    assert_eq!(sin_nano(6_283_185_308 + 523_598_776), sin_nano(523_598_776));
}

#[test]
fn degrees_convert_to_radians() {
    assert_eq!(degrees_to_radians(30 * SCALE), 523_598_775);
    assert_eq!(degrees_to_radians(-20 * SCALE), -349_065_850);
    assert_eq!(degrees_to_radians(0), 0);
}

#[test]
fn wall_clock_measures_and_refuses_rewinds() {
    let mut c = WallClock::new(100);
    assert_eq!(c.elapsed(250), Ok(150));
    assert_eq!(c.last_instant(), 250);
    assert_eq!(c.elapsed(249), Err(SimError::ClockRewound));
    assert_eq!(c.last_instant(), 250);
    assert_eq!(c.elapsed(250), Ok(0));
    let mut far = WallClock::new(i64::MIN);
    assert_eq!(far.elapsed(i64::MAX), Err(SimError::NumericalFault));
}

#[test]
fn time_sources() {
    let mut ext = TimeSource::External;
    assert_eq!(ext.next_dt(16), Ok(16));
    assert_eq!(ext.next_dt(-1), Err(SimError::InvalidTimeDelta));
    let mut wall = TimeSource::WallClock(WallClock::new(10));
    assert_eq!(wall.next_dt(30), Ok(20));
    assert_eq!(wall.next_dt(35), Ok(5));
    assert_eq!(wall.next_dt(1), Err(SimError::ClockRewound));
    assert_eq!(supplied_dt(0), Ok(0));
    assert_eq!(supplied_dt(-5), Err(SimError::InvalidTimeDelta));
}

#[test]
fn snapshot_keeps_order() {
    let ps = vec![pend(1, 2, 3), pend(4, 5, 6)];
    let s = snapshot(&ps);
    assert_eq!(s.len(), 2);
    assert_eq!((s[0].angle, s[0].length, s[1].angle, s[1].length), (1, 3, 4, 6));
}

#[test]
fn tick_takes_the_step_from_the_source() {
    let mut ps = vec![pend(0, SCALE, SCALE)];
    let mut src = TimeSource::WallClock(WallClock::new(0));
    assert_eq!(tick(&mut ps, &EARTH, &mut src, SCALE), Ok(()));
    assert_eq!(state(&ps[0]), (SCALE, SCALE, SCALE));
    assert_eq!(tick(&mut ps, &EARTH, &mut src, 0), Err(SimError::ClockRewound));
    assert_eq!(state(&ps[0]), (SCALE, SCALE, SCALE));
    let mut ext = TimeSource::External;
    assert_eq!(tick(&mut ps, &EARTH, &mut ext, -3), Err(SimError::InvalidTimeDelta));
    assert_eq!(state(&ps[0]), (SCALE, SCALE, SCALE));
}

#[test]
fn sine_exact_values() {
    assert_eq!(sin_nano(1_570_796_327), 1_000_000_001);
    assert_eq!(sin_nano(523_598_776), 500_000_000);
    assert_eq!(sin_nano(SCALE), 841_470_985);
    assert_eq!(sin_nano(-SCALE), -841_470_985);
    assert_eq!(sin_nano(10_000_000), 9_999_833);
}

#[test]
fn damped_step_exact_values() {
    let cfg = SimConfig { g: 9_810_000_000, damping_rate: 500_000_000 };
    let mut ps = vec![pend(1_570_796_327, 0, 9_810_000_000), pend(0, 2 * SCALE, SCALE)];
    assert_eq!(advance(&mut ps, &cfg, SCALE), Ok(()));
    assert_eq!(state(&ps[0]), (1_070_796_327, -500_000_000, 9_810_000_000));
    assert_eq!(state(&ps[1]), (SCALE, SCALE, SCALE));
}

#[test]
fn slight_damping_still_slows() {
    let damped_cfg = SimConfig { g: 9_810_000_000, damping_rate: 100 };
    let p = pend(0, SCALE, SCALE);
    let free = step(&p, &EARTH, 1_000_000).unwrap();
    let damped = step(&p, &damped_cfg, 1_000_000).unwrap();
    assert_eq!(state(&free), (1_000_000, SCALE, SCALE));
    assert_eq!(state(&damped), (999_999, 999_999_999, SCALE));
}
