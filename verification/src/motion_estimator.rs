//! How the boresight moves: unknown, moving, stopped, or at a steady rate.
//!
//! Angles are in microarcseconds, times in microseconds, and rates in microarcseconds per second.

use vstd::prelude::*;

use crate::cedar::CelestialCoord;
use crate::rate_estimator::RateEstimation;
use crate::units::FULL_TURN;

verus! {

/// The rate at which the sky turns.
pub const SIDEREAL_RATE: u64 = 15_040_000;

/// The largest error of a position that is dealt with.
pub const MAX_RMSE: u64 = 1_125_899_906_842_624;

/// How many positions a rate keeps at most.
pub const RATE_POINTS: usize = 1000;

/// How far from the trend a position may be, in thousandths of its noise.
pub const TREND_SIGMA: u32 = 10_000;

/// How the boresight moves.
#[derive(Clone, Copy, Debug, PartialEq, Eq, Structural)]
pub struct MotionEstimate {
    /// The rate in right ascension, eastward.
    pub ra_rate: i64,
    /// How far off it may be.
    pub ra_rate_error: u128,
    /// The rate in declination, northward.
    pub dec_rate: i64,
    /// How far off it may be.
    pub dec_rate_error: u128,
}

/// What is known of the motion.
#[derive(Debug)]
pub enum State {
    /// Nothing yet, or nothing for too long.
    Unknown,
    /// There are positions, but they differ too much.
    Moving,
    /// Two positions were close enough for a mount that stands still or follows the sky.
    Stopped,
    /// So were the positions since. As long as they keep to the rates, these get better.
    SteadyRate {
        /// The rate in right ascension.
        ra_rate: RateEstimation,
        /// The rate in declination.
        dec_rate: RateEstimation,
    },
}

/// Follows the boresight.
#[derive(Debug)]
pub struct MotionEstimator {
    /// What is known of the motion.
    pub state: State,
    /// How long there may be no position until the state is unknown again.
    pub gap_tolerance: u64,
    /// How long positions may be off a steady rate until the state is moving again.
    pub bump_tolerance: u64,
    /// The time of the last position.
    pub prev_time: Option<u64>,
    /// The last position.
    pub prev_position: Option<CelestialCoord>,
}

/// Whether a position lies in the range that is dealt with.
pub open spec fn position_fits(position: CelestialCoord) -> bool {
    &&& -FULL_TURN <= position.ra <= FULL_TURN
    &&& -FULL_TURN <= position.dec <= FULL_TURN
}

/// The size of a number.
pub open spec fn size(n: int) -> int {
    if n < 0 {
        -n
    } else {
        n
    }
}

/// The change in right ascension, where close to the full turn it is taken across it.
pub open spec fn ra_change_value(prev_ra: int, cur_ra: int) -> int {
    let low = 45 * crate::units::MICROARCSECONDS_PER_DEGREE;
    let high = 315 * crate::units::MICROARCSECONDS_PER_DEGREE;
    if prev_ra < low && cur_ra > high {
        cur_ra - (prev_ra + FULL_TURN)
    } else if cur_ra < low && prev_ra > high {
        cur_ra + FULL_TURN - prev_ra
    } else {
        cur_ra - prev_ra
    }
}

/// The rate up to which the boresight counts as stopped: twice that of the sky, or, where
/// positions are that uncertain, eight times their error.
pub open spec fn stopped_rate(rmse: int) -> int {
    if rmse * 8 > SIDEREAL_RATE * 2 {
        rmse * 8
    } else {
        SIDEREAL_RATE * 2
    }
}

/// Whether the boresight counts as stopped between two positions.
pub open spec fn is_stopped_value(
    time: int,
    position: CelestialCoord,
    rmse: int,
    prev_time: int,
    prev_position: CelestialCoord,
) -> bool {
    let reach = stopped_rate(rmse) * (time - prev_time);
    &&& time > prev_time
    &&& size(position.dec - prev_position.dec) * 1_000_000 <= reach
    &&& size(ra_change_value(prev_position.ra as int, position.ra as int)) * 1_000_000 <= reach
}

/// Whether a rate is one that was just started with two positions.
pub open spec fn is_started(
    rate: RateEstimation,
    prev_time: u64,
    prev_value: i64,
    time: u64,
    value: i64,
    noise: int,
) -> bool {
    &&& rate.first == prev_time
    &&& rate.last == time
    &&& rate.samples@ == seq![
        crate::rate_estimator::DataPoint { x: 0, y: prev_value },
        crate::rate_estimator::DataPoint { x: (time - prev_time) as u64, y: value },
    ]
    &&& rate.is_fitted(noise)
}

/// How the boresight moves, as far as a state tells: where three positions kept to a steady rate.
pub open spec fn estimate_of(state: State) -> Option<MotionEstimate> {
    match state {
        State::SteadyRate { ra_rate, dec_rate } => if ra_rate.samples@.len() < 3 {
            None
        } else {
            Some(
                MotionEstimate {
                    ra_rate: ra_rate.slope,
                    ra_rate_error: ra_rate.slope_noise,
                    dec_rate: dec_rate.slope,
                    dec_rate_error: dec_rate.slope_noise,
                },
            )
        },
        _ => None,
    }
}

impl MotionEstimator {
    /// The last position and its time go together, and rates belong to positions up to the last.
    pub open spec fn wf(&self) -> bool {
        &&& self.prev_time is Some <==> self.prev_position is Some
        &&& self.prev_time matches Some(time) ==> time > 0
        &&& self.prev_position matches Some(position) ==> position_fits(position)
        &&& self.prev_time is None ==> self.state is Unknown
        &&& self.state matches State::SteadyRate { ra_rate, dec_rate } ==> {
            &&& ra_rate.wf() && dec_rate.wf()
            &&& ra_rate.in_order() && dec_rate.in_order()
            &&& ra_rate.first == dec_rate.first
            &&& ra_rate.last == dec_rate.last
            &&& ra_rate.capacity == RATE_POINTS && dec_rate.capacity == RATE_POINTS
            &&& ra_rate.samples@.len() == dec_rate.samples@.len()
            &&& ra_rate.samples@.len() >= 1
            &&& self.prev_time matches Some(time) && ra_rate.first <= ra_rate.last <= time
        }
    }

    /// Whether a time is not before the last one.
    pub open spec fn follows(&self, time: u64) -> bool {
        self.prev_time matches Some(prev) ==> prev <= time
    }

    /// Whether a position can come in at a time: where rates are summed up, not too long after
    /// their start.
    pub open spec fn accepts(&self, time: u64) -> bool {
        &&& time > 0
        &&& self.state is Stopped ==> (self.prev_time matches Some(prev) ==> time <= prev
            + crate::rate_estimator::span_of(RATE_POINTS as int))
        &&& self.state matches State::SteadyRate { ra_rate, dec_rate } ==> ra_rate.reaches(time)
    }

    /// Whether there was no position for too long.
    pub open spec fn is_gap(&self, time: u64) -> bool {
        self.prev_time matches Some(prev) && time - prev > self.gap_tolerance
    }

    /// Starts without knowing anything.
    pub fn new(gap_tolerance: u64, bump_tolerance: u64) -> (estimator: Self)
        ensures
            estimator.wf(),
            estimator.state is Unknown,
            estimator.gap_tolerance == gap_tolerance,
            estimator.bump_tolerance == bump_tolerance,
            estimator.prev_time is None,
            estimator.prev_position is None,
    {
        MotionEstimator {
            state: State::Unknown,
            gap_tolerance,
            bump_tolerance,
            prev_time: None,
            prev_position: None,
        }
    }

    /// What becomes of the state when a position comes in, after another.
    pub open spec fn is_next_state(
        &self,
        before: MotionEstimator,
        time: u64,
        position: CelestialCoord,
        rmse: u64,
        slots: (Option<usize>, Option<usize>),
    ) -> bool {
        let prev_time = before.prev_time->0;
        let prev = before.prev_position->0;
        let stopped = is_stopped_value(
            time as int,
            position,
            rmse as int,
            prev_time as int,
            prev,
        );
        match before.state {
            State::Unknown => self.state is Moving,
            State::Moving => if stopped {
                self.state is Stopped
            } else {
                self.state is Moving
            },
            State::Stopped => if stopped {
                self.state matches State::SteadyRate { ra_rate, dec_rate } && is_started(
                    ra_rate,
                    prev_time,
                    prev.ra,
                    time,
                    position.ra,
                    rmse as int,
                ) && is_started(
                    dec_rate,
                    prev_time,
                    prev.dec,
                    time,
                    position.dec,
                    rmse as int,
                )
            } else {
                self.state is Moving
            },
            State::SteadyRate { ra_rate, dec_rate } => if ra_rate.is_on_trend(
                time,
                position.ra,
                TREND_SIGMA as int,
            ) && dec_rate.is_on_trend(time, position.dec, TREND_SIGMA as int) {
                self.state matches State::SteadyRate { ra_rate: new_ra, dec_rate: new_dec }
                    && new_ra.is_after(ra_rate, time, position.ra, rmse as int, slots.0)
                    && new_dec.is_after(dec_rate, time, position.dec, rmse as int, slots.1)
            } else if time - ra_rate.last > before.bump_tolerance {
                self.state is Moving
            } else {
                self.state == before.state
            },
        }
    }

    /// Takes in the position at a time, with its error, or that there is none. `slots` are the
    /// choices of a sampler for the two rates, once they keep no more positions.
    pub fn add(
        &mut self,
        time: u64,
        position: Option<CelestialCoord>,
        position_rmse: Option<u64>,
        slots: (Option<usize>, Option<usize>),
    )
        requires
            old(self).wf(),
            old(self).follows(time),
            position is Some ==> old(self).accepts(time),
            position matches Some(position) ==> position_fits(position),
            position is Some && old(self).prev_time is Some ==> position_rmse is Some,
            position_rmse matches Some(rmse) ==> rmse <= MAX_RMSE,
            slots.0 matches Some(slot) ==> slot < RATE_POINTS,
            slots.1 matches Some(slot) ==> slot < RATE_POINTS,
        ensures
            final(self).wf(),
            final(self).gap_tolerance == old(self).gap_tolerance,
            final(self).bump_tolerance == old(self).bump_tolerance,
            position is Some ==> final(self).prev_time == Some(time) && final(self).prev_position
                == position,
            position is None ==> final(self).prev_time == old(self).prev_time,
            position is None ==> final(self).prev_position == old(self).prev_position,
            position is Some && old(self).prev_time is None ==> final(self).state is Moving,
            position is Some && old(self).prev_time is Some ==> final(self).is_next_state(
                *old(self),
                time,
                position->0,
                position_rmse->0,
                slots,
            ),
            position is None ==> (if old(self).is_gap(time) {
                final(self).state is Unknown && estimate_of(final(self).state) is None
            } else {
                final(self).state == old(self).state
            }),
    {
        let ghost before = *self;
        let prev_time: Option<u64> = self.prev_time;
        let prev_position: Option<CelestialCoord> = self.prev_position;
        let position: CelestialCoord = match position {
            Some(position) => position,
            None => {
                if let Some(prev) = prev_time {
                    if time - prev > self.gap_tolerance {
                        self.state = State::Unknown;
                    }
                }
                return;
            },
        };
        self.prev_time = Some(time);
        self.prev_position = Some(position);
        let (prev_time, prev) = match (prev_time, prev_position) {
            (Some(prev_time), Some(prev)) => (prev_time, prev),
            _ => {
                self.state = State::Moving;
                return;
            },
        };
        let rmse: u64 = match position_rmse {
            Some(rmse) => rmse,
            None => 0,
        };
        let stopped: bool = Self::is_stopped(time, position, rmse, prev_time, prev);
        let bump_tolerance: u64 = self.bump_tolerance;
        match &mut self.state {
            State::Unknown => {
                self.state = State::Moving;
            },
            State::Moving => {
                if stopped {
                    self.state = State::Stopped;
                }
            },
            State::Stopped => {
                if stopped {
                    let ra_rate: RateEstimation = Self::start_rate(
                        prev_time,
                        prev.ra,
                        time,
                        position.ra,
                        rmse,
                    );
                    let dec_rate: RateEstimation = Self::start_rate(
                        prev_time,
                        prev.dec,
                        time,
                        position.dec,
                        rmse,
                    );
                    self.state = State::SteadyRate { ra_rate, dec_rate };
                } else {
                    self.state = State::Moving;
                }
            },
            State::SteadyRate { ra_rate, dec_rate } => {
                if ra_rate.fits_trend(time, position.ra, TREND_SIGMA) && dec_rate.fits_trend(
                    time,
                    position.dec,
                    TREND_SIGMA,
                ) {
                    proof {
                        if time > ra_rate.last {
                            crate::rate_estimator::law_increasing_times_can_be_fitted(
                                *ra_rate,
                                time,
                                position.ra,
                                slots.0,
                            );
                            crate::rate_estimator::law_increasing_times_can_be_fitted(
                                *dec_rate,
                                time,
                                position.dec,
                                slots.1,
                            );
                        }
                    }
                    ra_rate.add(time, position.ra, rmse, slots.0);
                    dec_rate.add(time, position.dec, rmse, slots.1);
                } else if time - ra_rate.last_time() > bump_tolerance {
                    self.state = State::Moving;
                }
            },
        }
    }

    /// Starts a rate with two values.
    fn start_rate(prev_time: u64, prev_value: i64, time: u64, value: i64, rmse: u64) -> (rate:
        RateEstimation)
        requires
            0 < prev_time < time <= prev_time + crate::rate_estimator::span_of(RATE_POINTS as int),
            -FULL_TURN <= prev_value <= FULL_TURN,
            -FULL_TURN <= value <= FULL_TURN,
            rmse <= MAX_RMSE,
        ensures
            rate.wf(),
            rate.in_order(),
            rate.capacity == RATE_POINTS,
            is_started(rate, prev_time, prev_value, time, value, rmse as int),
    {
        let mut rate: RateEstimation = RateEstimation::new(RATE_POINTS, prev_time, prev_value);
        proof {
            crate::rate_estimator::law_increasing_times_can_be_fitted(rate, time, value, None);
        }
        rate.add(time, value, rmse, None);
        assert(rate.samples@ =~= seq![
            crate::rate_estimator::DataPoint { x: 0, y: prev_value },
            crate::rate_estimator::DataPoint { x: (time - prev_time) as u64, y: value },
        ]);
        rate
    }

    /// How the boresight moves: known once three positions kept to a steady rate.
    pub fn get_estimate(&self) -> (estimate: Option<MotionEstimate>)
        requires
            self.wf(),
        ensures
            estimate == estimate_of(self.state),
    {
        match &self.state {
            State::SteadyRate { ra_rate, dec_rate } => {
                if ra_rate.count() < 3 {
                    None
                } else {
                    Some(
                        MotionEstimate {
                            ra_rate: ra_rate.slope(),
                            ra_rate_error: ra_rate.rate_interval_bound(),
                            dec_rate: dec_rate.slope(),
                            dec_rate_error: dec_rate.rate_interval_bound(),
                        },
                    )
                }
            },
            _ => None,
        }
    }

    /// Whether the boresight counts as stopped between two positions.
    pub fn is_stopped(
        time: u64,
        position: CelestialCoord,
        rmse: u64,
        prev_time: u64,
        prev_position: CelestialCoord,
    ) -> (stopped: bool)
        requires
            position_fits(position),
            position_fits(prev_position),
            rmse <= MAX_RMSE,
        ensures
            stopped == is_stopped_value(
                time as int,
                position,
                rmse as int,
                prev_time as int,
                prev_position,
            ),
    {
        if time <= prev_time {
            return false;
        }
        let max_rate: i128 = if rmse * 8 > SIDEREAL_RATE * 2 {
            rmse as i128 * 8
        } else {
            SIDEREAL_RATE as i128 * 2
        };
        let elapsed: i128 = time as i128 - prev_time as i128;
        assert(0 <= max_rate * elapsed <= 10_000_000_000_000_000 * 0xffff_ffff_ffff_ffff)
            by (nonlinear_arith)
            requires
                0 <= max_rate <= 10_000_000_000_000_000,
                0 <= elapsed <= 0xffff_ffff_ffff_ffff,
        ;
        let reach: i128 = max_rate * elapsed;
        let dec_change: i64 = position.dec - prev_position.dec;
        let dec_size: i128 = if dec_change < 0 { -(dec_change as i128) } else { dec_change as i128 };
        if dec_size * 1_000_000 > reach {
            return false;
        }
        let ra_change: i64 = Self::ra_change(prev_position.ra, position.ra);
        let ra_size: i128 = if ra_change < 0 { -(ra_change as i128) } else { ra_change as i128 };
        ra_size * 1_000_000 <= reach
    }

    /// The change in right ascension, where close to the full turn it is taken across it.
    pub fn ra_change(prev_ra: i64, cur_ra: i64) -> (change: i64)
        requires
            -FULL_TURN <= prev_ra <= FULL_TURN,
            -FULL_TURN <= cur_ra <= FULL_TURN,
        ensures
            change == ra_change_value(prev_ra as int, cur_ra as int),
    {
        let low: i64 = 45 * 3_600_000_000;
        let high: i64 = 315 * 3_600_000_000;
        let mut prev_ra: i64 = prev_ra;
        let mut cur_ra: i64 = cur_ra;
        if prev_ra < low && cur_ra > high {
            prev_ra = prev_ra + FULL_TURN;
        }
        if cur_ra < low && prev_ra > high {
            cur_ra = cur_ra + FULL_TURN;
        }
        cur_ra - prev_ra
    }
}

/// The change in right ascension is the difference, up to a full turn, and the way back is as
/// long. Between two places close to where right ascension starts anew it is the shorter way.
pub proof fn law_ra_change_is_difference(prev_ra: int, cur_ra: int)
    requires
        0 <= prev_ra < FULL_TURN,
        0 <= cur_ra < FULL_TURN,
    ensures
        (ra_change_value(prev_ra, cur_ra) - (cur_ra - prev_ra)) % FULL_TURN as int == 0,
        ra_change_value(cur_ra, prev_ra) == -ra_change_value(prev_ra, cur_ra),
        prev_ra < FULL_TURN / 8 && cur_ra > FULL_TURN - FULL_TURN / 8 ==> -FULL_TURN / 4
            <= ra_change_value(prev_ra, cur_ra) <= 0,
{
}

/// The boresight counts as stopped exactly where time went on and neither coordinate changed
/// faster than thirty arc seconds and a bit in a second, which is twice as fast as the sky turns,
/// or than eight times the error of the positions, where that is more. Right ascension changes
/// the shorter way round.
pub proof fn law_stopped_means_slow(
    time: u64,
    position: CelestialCoord,
    rmse: u64,
    prev_time: u64,
    prev_position: CelestialCoord,
    stopped: bool,
)
    requires
        call_ensures(
            MotionEstimator::is_stopped,
            (time, position, rmse, prev_time, prev_position),
            stopped,
        ),
    ensures
        stopped ==> time > prev_time,
        ({
            let elapsed = time - prev_time;
            let by_sky = 30_080_000 * elapsed;
            let by_error = 8 * rmse * elapsed;
            let north = (position.dec - prev_position.dec) * 1_000_000;
            let east = (position.ra - prev_position.ra) * 1_000_000;
            let turn = 1_296_000_000_000 * 1_000_000;
            let slow_north = (-by_sky <= north <= by_sky) || (-by_error <= north <= by_error);
            let slow_east = (-by_sky <= east <= by_sky) || (-by_error <= east <= by_error);
            let slow_over = (-by_sky <= east - turn <= by_sky) || (-by_error <= east - turn
                <= by_error);
            let slow_under = (-by_sky <= east + turn <= by_sky) || (-by_error <= east + turn
                <= by_error);
            &&& stopped ==> slow_north && (slow_east || slow_over || slow_under)
            &&& time > prev_time && slow_north && slow_east && -turn <= 2 * east <= turn
                ==> stopped
            &&& time > prev_time && slow_north && slow_over && 8 * east > 7 * turn
                && prev_position.ra >= 0 && position.ra < FULL_TURN ==> stopped
            &&& time > prev_time && slow_north && slow_under && 8 * east < -7 * turn
                && position.ra >= 0 && prev_position.ra < FULL_TURN ==> stopped
        }),
{
    let elapsed = time - prev_time;
    assert((8 * rmse) * elapsed == (rmse * 8) * elapsed) by (nonlinear_arith);
    if time > prev_time {
        assert(8 * rmse > 30_080_000 ==> (8 * rmse) * elapsed > 30_080_000 * elapsed)
            by (nonlinear_arith)
            requires
                elapsed > 0,
        ;
        assert(8 * rmse <= 30_080_000 ==> (8 * rmse) * elapsed <= 30_080_000 * elapsed)
            by (nonlinear_arith)
            requires
                elapsed > 0,
        ;
    }
}

/// How the state goes on when a position comes in after another, here with no turn to cross: the
/// first that is close to the one before makes it stopped, the second starts a steady rate, and a
/// fast one makes it moving again. A steady rate stands a bump for a while.
pub proof fn law_motion_goes_on(
    estimator: &mut MotionEstimator,
    time: u64,
    position: CelestialCoord,
    rmse: u64,
    slots: (Option<usize>, Option<usize>),
    prev_time: u64,
    prev: CelestialCoord,
)
    requires
        old(estimator).wf(),
        old(estimator).prev_time == Some(prev_time),
        old(estimator).prev_position == Some(prev),
        prev_time < time,
        -FULL_TURN <= 2 * (position.ra - prev.ra) <= FULL_TURN,
        call_ensures(
            MotionEstimator::add,
            (estimator, time, Some(position), Some(rmse), slots),
            (),
        ),
    ensures
        ({
            let elapsed = time - prev_time;
            let by_sky = 30_080_000 * elapsed;
            let by_error = 8 * rmse * elapsed;
            let north = (position.dec - prev.dec) * 1_000_000;
            let east = (position.ra - prev.ra) * 1_000_000;
            let slow = ((-by_sky <= north <= by_sky) || (-by_error <= north <= by_error)) && ((
            -by_sky <= east <= by_sky) || (-by_error <= east <= by_error));
            &&& old(estimator).state is Unknown ==> final(estimator).state is Moving
            &&& old(estimator).state is Moving ==> (slow <==> final(estimator).state is Stopped)
                && (!slow <==> final(estimator).state is Moving)
            &&& old(estimator).state is Stopped
                ==> (slow <==> final(estimator).state is SteadyRate)
                && (!slow <==> final(estimator).state is Moving)
            &&& old(estimator).state matches State::SteadyRate { ra_rate, .. } ==> {
                &&& final(estimator).state is SteadyRate || final(estimator).state is Moving
                &&& final(estimator).state is Moving
                    ==> time - ra_rate.last > old(estimator).bump_tolerance
            }
        }),
        final(estimator).prev_time == Some(time),
        final(estimator).prev_position == Some(position),
{
    let elapsed = time - prev_time;
    assert((8 * rmse) * elapsed == (rmse * 8) * elapsed) by (nonlinear_arith);
    assert(8 * rmse > 30_080_000 ==> (8 * rmse) * elapsed > 30_080_000 * elapsed)
        by (nonlinear_arith)
        requires
            elapsed > 0,
    ;
    assert(8 * rmse <= 30_080_000 ==> (8 * rmse) * elapsed <= 30_080_000 * elapsed)
        by (nonlinear_arith)
        requires
            elapsed > 0,
    ;
    assert(size(ra_change_value(prev.ra as int, position.ra as int)) == size(
        position.ra - prev.ra,
    ));
}

/// Without a position the state stays until that has lasted too long; then nothing is known.
pub proof fn law_gaps_forget(estimator: &mut MotionEstimator, time: u64, prev_time: u64)
    requires
        old(estimator).prev_time == Some(prev_time),
        call_ensures(
            MotionEstimator::add,
            (
                estimator,
                time,
                None::<CelestialCoord>,
                None::<u64>,
                (None::<usize>, None::<usize>),
            ),
            (),
        ),
    ensures
        time - prev_time > old(estimator).gap_tolerance ==> final(estimator).state is Unknown,
        time - prev_time <= old(estimator).gap_tolerance ==> final(estimator).state
            == old(estimator).state,
        final(estimator).prev_time == Some(prev_time),
{
}

/// A steady rate starts with the change between two positions: in right ascension and declination
/// alike, the rate times the time between them is the change.
pub proof fn law_steady_rate_is_the_change(
    estimator: &mut MotionEstimator,
    time: u64,
    position: CelestialCoord,
    rmse: u64,
    slots: (Option<usize>, Option<usize>),
    prev_time: u64,
    prev: CelestialCoord,
)
    requires
        old(estimator).state is Stopped,
        old(estimator).prev_time == Some(prev_time),
        old(estimator).prev_position == Some(prev),
        call_ensures(
            MotionEstimator::add,
            (estimator, time, Some(position), Some(rmse), slots),
            (),
        ),
    ensures
        final(estimator).state matches State::SteadyRate { ra_rate, dec_rate } ==> {
            let elapsed = time - prev_time;
            &&& ra_rate.slope * elapsed <= (position.ra - prev.ra) * 1_000_000 < (ra_rate.slope
                + 1) * elapsed
            &&& dec_rate.slope * elapsed <= (position.dec - prev.dec) * 1_000_000 < (dec_rate.slope
                + 1) * elapsed
        },
{
    if let State::SteadyRate { ra_rate, dec_rate } = final(estimator).state {
        crate::rate_estimator::law_two_points_have_their_slope(ra_rate.samples@);
        crate::rate_estimator::law_two_points_have_their_slope(dec_rate.samples@);
    }
}

/// While a rate is steady, a position close to both trends is added to both, and one that is off
/// either is not. Off a trend is what is ten times its noise away from it and more, once there are
/// three positions.
pub proof fn law_steady_rate_follows_the_trend(
    estimator: &mut MotionEstimator,
    time: u64,
    position: CelestialCoord,
    rmse: u64,
    slots: (Option<usize>, Option<usize>),
    ra_before: RateEstimation,
    dec_before: RateEstimation,
)
    requires
        old(estimator).wf(),
        old(estimator).state == (State::SteadyRate { ra_rate: ra_before, dec_rate: dec_before }),
        ra_before.last < time,
        ra_before.samples@.len() < 1000,
        call_ensures(
            MotionEstimator::add,
            (estimator, time, Some(position), Some(rmse), slots),
            (),
        ),
    ensures
        ({
            let count = ra_before.samples@.len();
            let x = time - ra_before.first;
            let ra_line = ra_before.intercept + ra_before.slope * x / 1_000_000;
            let dec_line = dec_before.intercept + dec_before.slope * x / 1_000_000;
            let ra_reach = 10 * ra_before.y_noise;
            let dec_reach = 10 * dec_before.y_noise;
            let close = -ra_reach < position.ra - ra_line < ra_reach && -dec_reach < position.dec
                - dec_line < dec_reach;
            &&& count < 3 || close
                ==> (final(estimator).state matches State::SteadyRate { ra_rate, dec_rate } && {
                &&& ra_rate.samples@.len() == count + 1 && dec_rate.samples@.len() == count + 1
                &&& ra_rate.samples@.last().y == position.ra && ra_rate.samples@.last().x == x
                &&& dec_rate.samples@.last().y == position.dec && dec_rate.samples@.last().x == x
                &&& ra_rate.last == time && dec_rate.last == time
            })
            &&& count >= 3 && !close ==> final(estimator).state is Moving || final(estimator).state
                == old(estimator).state
            &&& count >= 3 && !close && time - ra_before.last > old(estimator).bump_tolerance
                ==> final(estimator).state is Moving
        }),
{
}

/// An estimate is there exactly once three positions kept to a steady rate, and is that rate.
pub proof fn law_estimate_takes_three_positions(
    estimator: MotionEstimator,
    estimate: Option<MotionEstimate>,
)
    requires
        call_ensures(MotionEstimator::get_estimate, (&estimator,), estimate),
    ensures
        estimate is Some <==> (estimator.state matches State::SteadyRate { ra_rate, .. }
            && ra_rate.samples@.len() >= 3),
        estimate matches Some(estimate) ==> (
        estimator.state matches State::SteadyRate { ra_rate, dec_rate } && {
            &&& estimate.ra_rate == ra_rate.slope
            &&& estimate.dec_rate == dec_rate.slope
            &&& estimate.ra_rate_error == ra_rate.slope_noise
            &&& estimate.dec_rate_error == dec_rate.slope_noise
        }),
{
}

/// The change in right ascension leads from the one to the other, up to a full turn, and is never
/// more than seven eighths of a turn.
pub proof fn law_ra_change_leads_there(prev_ra: i64, cur_ra: i64, change: i64)
    requires
        0 <= prev_ra < FULL_TURN,
        0 <= cur_ra < FULL_TURN,
        call_ensures(MotionEstimator::ra_change, (prev_ra, cur_ra), change),
    ensures
        prev_ra + change == cur_ra || prev_ra + change == cur_ra + 1_296_000_000_000 || prev_ra
            + change == cur_ra - 1_296_000_000_000,
        -7 * FULL_TURN <= 8 * change <= 7 * FULL_TURN,
        -FULL_TURN <= 2 * (cur_ra - prev_ra) <= FULL_TURN ==> change == cur_ra - prev_ra,
{
}

} // verus!
