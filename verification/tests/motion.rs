//! Rates and motion.

use cedar_server::cedar::CelestialCoord;
use cedar_server::motion_estimator::{MotionEstimator, State};
use cedar_server::rate_estimator::{RateEstimation, MAX_NOISE};

fn is_close(a: f64, b: f64, epsilon: f64) -> bool {
    (a - b).abs() <= epsilon
}

fn deg(x: f64) -> i64 {
    (x * 3.6e9).round() as i64
}

fn to_deg(x: i64) -> f64 {
    x as f64 / 3.6e9
}

#[test]
fn test_rate_estimation() {
    let mut time = 1_763_000_000_000_000;
    let second = 1_000_000;
    // Create with first point.
    let mut re = RateEstimation::new(5, time, deg(1.0));
    assert_eq!(re.count(), 1);

    // Add a second point, one second later and 0.1 higher.
    time += second;
    assert!(re.fits_trend(time, deg(1.1), 1000));
    re.add(time, deg(1.1), deg(0.1) as u64, None);
    assert_eq!(re.count(), 2);
    assert!(is_close(to_deg(re.slope()), 0.1, 0.001));

    // Add a third point, slightly displaced from the trend.
    time += second;
    assert!(re.fits_trend(time, deg(1.22), 1000));
    re.add(time, deg(1.22), deg(0.1) as u64, None);
    assert_eq!(re.count(), 3);
    assert!(is_close(to_deg(re.slope()), 0.11, 0.001));
    assert!(is_close(to_deg(re.rate_interval_bound() as i64), 0.07, 0.01));

    // Fourth point.
    time += second;
    assert!(!re.fits_trend(time, deg(1.25), 1000));
    assert!(re.fits_trend(time, deg(1.31), 1000));
}

#[test]
fn a_clock_set_back_adds_nothing() {
    let mut re = RateEstimation::new(2, 1000, 7);
    re.add(900, 8, 0, None);
    assert_eq!((re.count(), re.last_time()), (1, 900));
    re.add(2000, 9, 0, None);
    re.add(3000, 11, 0, Some(0));
    assert_eq!(re.count(), 2);
    assert_eq!((re.samples[0].x, re.samples[0].y), (2000, 11));
    assert_eq!(re.slope(), 2000);
    re.add(4000, 500, 0, None);
    assert_eq!(re.slope(), 2000);
}

#[test]
fn test_ra_change() {
    let ra_change = |a: f64, b: f64| to_deg(MotionEstimator::ra_change(deg(a), deg(b)));
    assert_eq!(ra_change(10.0, 15.0), 5.0);
    assert_eq!(ra_change(350.0, 355.0), 5.0);
    assert_eq!(ra_change(355.0, 360.0), 5.0);
    assert_eq!(ra_change(356.0, 1.0), 5.0);

    assert_eq!(ra_change(15.0, 10.0), -5.0);
    assert_eq!(ra_change(355.0, 350.0), -5.0);
    assert_eq!(ra_change(360.0, 355.0), -5.0);
    assert_eq!(ra_change(1.0, 356.0), -5.0);
}

fn sky(ra: f64, dec: f64) -> Option<CelestialCoord> {
    Some(CelestialCoord { ra: deg(ra), dec: deg(dec) })
}

#[test]
fn a_fixed_mount_drifts_at_a_steady_rate() {
    let second = 1_000_000;
    let mut estimator = MotionEstimator::new(3 * second, second);
    let rmse = Some(10_000_000);
    let rate = 15.04 / 3600.0;
    for i in 0..6u64 {
        estimator.add((i + 1) * second, sky(10.0 + rate * i as f64, 20.0), rmse, (None, None));
    }
    assert!(matches!(estimator.state, State::SteadyRate { .. }));
    let estimate = estimator.get_estimate().unwrap();
    assert!(is_close(to_deg(estimate.ra_rate), rate, 0.00001));
    assert!(is_close(to_deg(estimate.dec_rate), 0.0, 0.00001));

    // A short bump is passed over, a longer one is not.
    estimator.add(6 * second + 500_000, sky(50.0, 20.0), rmse, (None, None));
    assert!(estimator.get_estimate().is_some());
    estimator.add(8 * second, sky(50.0, 20.0), rmse, (None, None));
    assert!(matches!(estimator.state, State::Moving));
    assert!(estimator.get_estimate().is_none());

    // A gap is forgiven for a while.
    estimator.add(10 * second, None, None, (None, None));
    assert!(matches!(estimator.state, State::Moving));
    estimator.add(12 * second, None, None, (None, None));
    assert!(matches!(estimator.state, State::Unknown));
}

#[test]
fn a_gap_can_last_for_long() {
    let second = 1_000_000;
    let mut estimator = MotionEstimator::new(3 * second, second);
    let rmse = Some(10_000_000);
    for i in 1..7u64 {
        estimator.add(i * second, sky(10.0, 20.0), rmse, (None, None));
    }
    assert!(estimator.get_estimate().is_some());
    estimator.add(u64::MAX, None, None, (None, None));
    assert!(matches!(estimator.state, State::Unknown));
    assert!(estimator.get_estimate().is_none());
    // The next position starts anew, however late it comes.
    estimator.add(u64::MAX, sky(10.0, 20.0), rmse, (None, None));
    assert!(matches!(estimator.state, State::Moving));
}

#[test]
fn a_rate_keeps_as_many_points_as_asked() {
    let mut re = RateEstimation::new(2000, 1, 0);
    for i in 1..1500u64 {
        re.add(1 + i * 1000, 7 * i as i64, 0, None);
    }
    assert_eq!((re.count(), re.slope()), (1500, 7000));
}

#[test]
fn rates_may_be_steep() {
    let turn = deg(360.0);
    let mut re = RateEstimation::new(10, 1000, -turn);
    re.add(1001, 0, MAX_NOISE, None);
    re.add(1002, turn, MAX_NOISE, None);
    // A turn in a microsecond.
    assert_eq!(re.slope(), 1_296_000_000_000_000_000);
    // Later the trend is far away, and more so with time.
    assert!(re.fits_trend(1000 + 1_000_000_000_000, 0, u32::MAX));
    assert!(!re.fits_trend(1000 + 300_000_000_000_000, 0, u32::MAX));
}

#[test]
fn rates_may_span_years() {
    let mut re = RateEstimation::new(1000, 1, 0);
    re.add(1 + 1_600_000_000_000_000, 2_000_000_000_000, 0, None);
    assert_eq!(re.slope(), 1250);
}

#[test]
fn two_positions_at_once_are_no_stop() {
    let place = CelestialCoord { ra: 5, dec: 6 };
    assert!(!MotionEstimator::is_stopped(100, place, 0, 100, place));
    assert!(MotionEstimator::is_stopped(101, place, 0, 100, place));
}
