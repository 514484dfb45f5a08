//! The rate at which a value changes with time, by linear regression.
//!
//! Values are in microarcseconds, times in microseconds, and rates in microarcseconds per second.

use vstd::prelude::*;

use crate::numbers::{divide_down, square_root};

verus! {

/// The longest time that all points together may lie after the first, so that the products of
/// their sums can be computed with.
pub const MAX_TOTAL: u64 = 1_759_218_604_441_600_000;

/// The largest value that is dealt with, either way.
pub const MAX_VALUE: i64 = 2_199_023_255_552;

/// The largest rate that values in that range can have, either way: from one end to the other
/// within a microsecond.
pub const MAX_SLOPE: i64 = 4_398_046_511_104_000_000;

/// How far a point that the line was fitted to can be off it, at most.
pub const MAX_RESIDUAL: i128 = 1_125_899_906_842_624;

/// The largest noise that is dealt with.
pub const MAX_NOISE: u64 = 4_611_686_018_427_387_904;

/// How many points are kept at most.
pub const MAX_CAPACITY: usize = 100_000;

/// A value at a time.
#[derive(Clone, Copy, Debug, PartialEq, Eq, Structural)]
pub struct DataPoint {
    /// The time since the first point.
    pub x: u64,
    /// The value.
    pub y: i64,
}

/// Models values over time by a constant rate of change. The rate is estimated from observations,
/// and its uncertainty from their noise.
#[derive(Debug)]
pub struct RateEstimation {
    /// The time of the first point.
    pub first: u64,
    /// The time of the point that was added last.
    pub last: u64,
    /// How many points are kept at most.
    pub capacity: usize,
    /// The points that are kept.
    pub samples: Vec<DataPoint>,
    /// The sum of their times.
    pub x_sum: i128,
    /// The sum of their values.
    pub y_sum: i128,
    /// The rate.
    pub slope: i64,
    /// The value on the trend at the time of the first point.
    pub intercept: i128,
    /// How far values deviate from the trend.
    pub y_noise: u64,
    /// How far off the rate may be.
    pub slope_noise: u128,
}

/// The sum of times.
pub open spec fn sum_x(points: Seq<DataPoint>) -> int
    decreases points.len(),
{
    if points.len() == 0 {
        0
    } else {
        sum_x(points.drop_last()) + points.last().x
    }
}

/// The sum of values.
pub open spec fn sum_y(points: Seq<DataPoint>) -> int
    decreases points.len(),
{
    if points.len() == 0 {
        0
    } else {
        sum_y(points.drop_last()) + points.last().y
    }
}

/// The sum of squared times.
pub open spec fn sum_xx(points: Seq<DataPoint>) -> int
    decreases points.len(),
{
    if points.len() == 0 {
        0
    } else {
        sum_xx(points.drop_last()) + points.last().x * points.last().x
    }
}

/// The sum of times multiplied by values.
pub open spec fn sum_xy(points: Seq<DataPoint>) -> int
    decreases points.len(),
{
    if points.len() == 0 {
        0
    } else {
        sum_xy(points.drop_last()) + points.last().x * points.last().y
    }
}

/// How far times are spread: the sum of their squared distances from the mean, times their number.
pub open spec fn spread(points: Seq<DataPoint>) -> int {
    points.len() * sum_xx(points) - sum_x(points) * sum_x(points)
}

/// How far values go along with times: the sum of the products of their distances from the means,
/// times their number.
pub open spec fn covariance(points: Seq<DataPoint>) -> int {
    points.len() * sum_xy(points) - sum_x(points) * sum_y(points)
}

/// The rate of change: that of the line with the least squared distances.
pub open spec fn slope_of(points: Seq<DataPoint>) -> int {
    covariance(points) * 1_000_000 / spread(points)
}

/// The value of the line at the time of the first point.
pub open spec fn intercept_of(points: Seq<DataPoint>, slope: int) -> int {
    (sum_y(points) * 1_000_000 - slope * sum_x(points)) / (points.len() as int * 1_000_000)
}

/// The value of the line at a time.
pub open spec fn value_on_line(intercept: int, slope: int, x: int) -> int {
    intercept + slope * x / 1_000_000
}

/// How far a value deviates from the line.
pub open spec fn deviation_of(intercept: int, slope: int, point: DataPoint) -> int {
    let line = value_on_line(intercept, slope, point.x as int);
    if point.y < line {
        line - point.y
    } else {
        point.y - line
    }
}

/// The sum of squared deviations from the line.
pub open spec fn variance_of(points: Seq<DataPoint>, intercept: int, slope: int) -> int
    decreases points.len(),
{
    if points.len() == 0 {
        0
    } else {
        variance_of(points.drop_last(), intercept, slope) + deviation_of(
            intercept,
            slope,
            points.last(),
        ) * deviation_of(intercept, slope, points.last())
    }
}

/// The larger of the sum of squared deviations and the square of the noise that is expected.
pub open spec fn adjusted_variance(
    points: Seq<DataPoint>,
    intercept: int,
    slope: int,
    noise: int,
) -> int {
    let variance = variance_of(points, intercept, slope);
    if variance < noise * noise {
        noise * noise
    } else {
        variance
    }
}

/// The root mean square deviation.
pub open spec fn y_noise_of(variance: int, count: int) -> int {
    crate::numbers::whole_root(variance / count)
}

/// The standard error of the rate.
pub open spec fn slope_noise_of(variance: int, count: int, spread: int) -> int {
    let root = crate::numbers::whole_root((count - 2) * spread / count);
    crate::numbers::whole_root(variance) * 1_000_000 / (if root < 1 {
        1
    } else {
        root
    })
}

/// The points that are kept once one more was offered. While there is room it is added. After
/// that a sampler decides: the point takes the place of another, or is dropped.
pub open spec fn with_point(
    points: Seq<DataPoint>,
    capacity: int,
    point: DataPoint,
    slot: Option<usize>,
) -> Seq<DataPoint> {
    if points.len() < capacity {
        points.push(point)
    } else {
        match slot {
            Some(slot) => points.update(slot as int, point),
            None => points,
        }
    }
}

/// How long after the first point others may lie, where so many are kept.
pub open spec fn span_of(capacity: int) -> int {
    MAX_TOTAL as int / capacity
}

/// Whether all points lie in the range that is dealt with: within a span of the first one.
pub open spec fn points_fit(points: Seq<DataPoint>, span: int) -> bool {
    forall|i: int|
        0 <= i < points.len() ==> (#[trigger] points[i]).x <= span && -MAX_VALUE <= points[i].y
            <= MAX_VALUE
}

/// So many points as are kept lie no later, all together, than can be computed with.
proof fn lemma_span(capacity: int, n: int)
    requires
        1 <= capacity,
        0 <= n <= capacity,
    ensures
        0 <= span_of(capacity) <= MAX_TOTAL,
        0 <= n * span_of(capacity) <= MAX_TOTAL,
{
    let span = span_of(capacity);
    let all = MAX_TOTAL as int;
    let left = all % capacity;
    vstd::arithmetic::div_mod::lemma_fundamental_div_mod(all, capacity);
    assert(0 <= span && n * span <= capacity * span && span <= capacity * span)
        by (nonlinear_arith)
        requires
            all == capacity * span + left,
            0 <= left < capacity,
            0 < all,
            1 <= capacity,
            0 <= n <= capacity,
    ;
    assert(0 <= n * span) by (nonlinear_arith)
        requires
            0 <= n,
            0 <= span,
    ;
}

impl RateEstimation {
    /// The sums are those of the points, and everything lies in the range that is dealt with.
    pub open spec fn wf(&self) -> bool {
        &&& 1 <= self.capacity <= MAX_CAPACITY
        &&& self.samples@.len() <= self.capacity
        &&& points_fit(self.samples@, span_of(self.capacity as int))
        &&& self.samples@.len() >= 2 ==> spread(self.samples@) > 0
        &&& self.x_sum == sum_x(self.samples@)
        &&& self.y_sum == sum_y(self.samples@)
        &&& -MAX_SLOPE <= self.slope <= MAX_SLOPE
        &&& -0x1000_0000_0000_0000_0000_0000_0000 <= self.intercept
            <= 0x1000_0000_0000_0000_0000_0000_0000
    }

    /// No point that is kept is later than the last one.
    pub open spec fn in_order(&self) -> bool {
        forall|i: int|
            0 <= i < self.samples@.len() ==> self.first + (#[trigger] self.samples@[i]).x
                <= self.last
    }

    /// Whether a time lies in the range that is dealt with.
    pub open spec fn reaches(&self, time: u64) -> bool {
        self.first <= time <= self.first + span_of(self.capacity as int)
    }

    /// Whether the rate and the noise are those of the points that are kept.
    pub open spec fn is_fitted(&self, noise: int) -> bool {
        let points = self.samples@;
        let variance = adjusted_variance(points, self.intercept as int, self.slope as int, noise);
        &&& self.slope == slope_of(points)
        &&& self.intercept == intercept_of(points, self.slope as int)
        &&& self.y_noise == y_noise_of(variance, points.len() as int)
        &&& self.slope_noise == slope_noise_of(variance, points.len() as int, spread(points))
    }

    /// Whether this is what another becomes when a point is added. A point that is not later than
    /// the one before leaves everything but the time of the last as it is.
    pub open spec fn is_after(
        &self,
        before: RateEstimation,
        time: u64,
        value: i64,
        noise: int,
        slot: Option<usize>,
    ) -> bool {
        &&& self.first == before.first
        &&& self.capacity == before.capacity
        &&& self.last == time
        &&& time <= before.last ==> {
            &&& self.samples@ == before.samples@
            &&& self.slope == before.slope
            &&& self.intercept == before.intercept
            &&& self.y_noise == before.y_noise
            &&& self.slope_noise == before.slope_noise
        }
        &&& time > before.last ==> {
            let point = DataPoint { x: (time - before.first) as u64, y: value };
            &&& self.samples@ == with_point(
                before.samples@,
                before.capacity as int,
                point,
                slot,
            )
            &&& self.samples@.len() >= 2 ==> self.is_fitted(noise)
        }
    }

    /// Whether a point lies on the trend. `sigma` is in thousandths.
    pub open spec fn is_on_trend(&self, time: u64, value: i64, sigma: int) -> bool {
        self.samples@.len() < 3 || deviation_of(
            self.intercept as int,
            self.slope as int,
            DataPoint { x: (time - self.first) as u64, y: value },
        ) * 1000 < sigma * self.y_noise
    }

    /// Starts with a first point. `capacity` says how many points are kept; the rate keeps
    /// getting better with the time that they span.
    pub fn new(capacity: usize, time: u64, value: i64) -> (estimation: Self)
        requires
            1 <= capacity <= MAX_CAPACITY,
            time > 0,
            -MAX_VALUE <= value <= MAX_VALUE,
        ensures
            estimation.wf(),
            estimation.in_order(),
            estimation.first == time,
            estimation.last == time,
            estimation.capacity == capacity,
            estimation.samples@ == seq![DataPoint { x: 0, y: value }],
    {
        let mut estimation = RateEstimation {
            first: time,
            last: 0,
            capacity,
            samples: Vec::new(),
            x_sum: 0,
            y_sum: 0,
            slope: 0,
            intercept: 0,
            y_noise: 0,
            slope_noise: 0,
        };
        estimation.add(time, value, 0, None);
        assert(estimation.samples@ =~= seq![DataPoint { x: 0, y: value }]);
        estimation
    }

    /// Adds a point. `noise_estimate` is the noise to expect of it, at least. A point that is not
    /// later than the one before is not kept: its time is only taken note of. That happens when
    /// the clock was set back. `slot` is the choice of a sampler once there is no more room: the
    /// point that gives way, if any.
    pub fn add(&mut self, time: u64, value: i64, noise_estimate: u64, slot: Option<usize>)
        requires
            old(self).wf(),
            -MAX_VALUE <= value <= MAX_VALUE,
            noise_estimate <= MAX_NOISE,
            slot matches Some(slot) ==> slot < old(self).capacity,
            time > old(self).last ==> old(self).reaches(time),
            time > old(self).last ==> ({
                let point = DataPoint { x: (time - old(self).first) as u64, y: value };
                let kept = with_point(
                    old(self).samples@,
                    old(self).capacity as int,
                    point,
                    slot,
                );
                kept.len() >= 2 ==> spread(kept) > 0
            }),
        ensures
            final(self).wf(),
            final(self).is_after(*old(self), time, value, noise_estimate as int, slot),
            old(self).in_order() && time >= old(self).last ==> final(self).in_order(),
    {
        if time <= self.last {
            self.last = time;
            return;
        }
        self.last = time;
        let point = DataPoint { x: time - self.first, y: value };
        let ghost before = self.samples@;
        proof {
            lemma_span(self.capacity as int, before.len() as int);
            lemma_sum_bounds(before, span_of(self.capacity as int));
        }
        if self.samples.len() < self.capacity {
            self.samples.push(point);
            assert(self.samples@.drop_last() =~= before);
            self.x_sum = self.x_sum + point.x as i128;
            self.y_sum = self.y_sum + point.y as i128;
        } else if let Some(slot) = slot {
            let removed: DataPoint = self.samples[slot];
            self.x_sum = self.x_sum - removed.x as i128 + point.x as i128;
            self.y_sum = self.y_sum - removed.y as i128 + point.y as i128;
            self.samples.set(slot, point);
            proof {
                lemma_sums_after_update(before, slot as int, point);
            }
        }
        self.fit(noise_estimate);
    }

    /// Fits the line to the points that are kept, where there are two and more.
    fn fit(&mut self, noise_estimate: u64)
        requires
            old(self).wf(),
            noise_estimate <= MAX_NOISE,
        ensures
            final(self).wf(),
            final(self).first == old(self).first,
            final(self).last == old(self).last,
            final(self).capacity == old(self).capacity,
            final(self).samples@ == old(self).samples@,
            final(self).samples@.len() >= 2 ==> final(self).is_fitted(noise_estimate as int),
    {
        let total: usize = self.samples.len();
        if total < 2 {
            return;
        }
        let (xx_sum, xy_sum) = product_sums(&self.samples, self.capacity);
        let count: i128 = total as i128;
        proof {
            lemma_span(self.capacity as int, total as int);
            lemma_sum_bounds(self.samples@, span_of(self.capacity as int));
            lemma_product_bounds(self.samples@, span_of(self.capacity as int));
        }
        let spread_value: i128 = count * xx_sum - self.x_sum * self.x_sum;
        let covariance_value: i128 = count * xy_sum - self.x_sum * self.y_sum;
        proof {
            lemma_slope_bound(self.samples@, span_of(self.capacity as int));
        }
        self.slope = divide_for_slope(covariance_value, spread_value);
        assert(self.slope == slope_of(self.samples@));
        proof {
            lemma_slope_product(self.slope as int, self.x_sum as int);
        }
        let rise: i128 = self.y_sum * 1_000_000 - self.slope as i128 * self.x_sum;
        self.intercept = divide_down(rise, count * 1_000_000);
        assert(-0x1000_0000_0000_0000_0000_0000_0000 <= self.intercept
            <= 0x1000_0000_0000_0000_0000_0000_0000) by (nonlinear_arith)
            requires
                self.intercept == rise as int / (count * 1_000_000),
                count >= 2,
                -8_000_000_000_000_000_000_000_000_000_000_000_000 <= rise,
                rise <= 8_000_000_000_000_000_000_000_000_000_000_000_000,
        ;
        let mut variance: u128 = self.variance();
        assert(0 <= noise_estimate * noise_estimate
            <= 21_300_000_000_000_000_000_000_000_000_000_000_000) by (nonlinear_arith)
            requires
                0 <= noise_estimate <= 4_611_686_018_427_387_904,
        ;
        let least: u128 = noise_estimate as u128 * noise_estimate as u128;
        if variance < least {
            variance = least;
        }
        self.y_noise = square_root(variance / total as u128);
        proof {
            lemma_split_product(count as int, spread_value as int);
        }
        let parts: i128 = spread_value / count;
        let left: i128 = spread_value % count;
        let width: u64 = square_root(((count - 2) * parts + (count - 2) * left / count) as u128);
        let divisor: u128 = if width < 1 { 1 } else { width as u128 };
        let root: u64 = square_root(variance);
        self.slope_noise = root as u128 * 1_000_000 / divisor;
    }

    /// How far a point deviates from the line.
    fn deviation(&self, point: DataPoint) -> (deviation: i128)
        requires
            self.wf(),
            point.x <= MAX_TOTAL,
            -MAX_VALUE <= point.y <= MAX_VALUE,
        ensures
            deviation == deviation_of(self.intercept as int, self.slope as int, point),
            0 <= deviation <= 0x2000_0000_0000_0000_0000_0000_0000,
    {
        proof {
            lemma_slope_product(self.slope as int, point.x as int);
        }
        let line: i128 = self.intercept + divide_down(
            self.slope as i128 * point.x as i128,
            1_000_000,
        );
        let y: i128 = point.y as i128;
        if y < line {
            line - y
        } else {
            y - line
        }
    }

    /// Sums up the squared deviations from the line, which was fitted to the points.
    fn variance(&self) -> (variance: u128)
        requires
            self.wf(),
            self.samples@.len() >= 2,
            self.slope == slope_of(self.samples@),
            self.intercept == intercept_of(self.samples@, self.slope as int),
        ensures
            variance == variance_of(self.samples@, self.intercept as int, self.slope as int),
            variance <= 127_000_000_000_000_000_000_000_000_000_000_000,
    {
        let mut variance: u128 = 0;
        let total: usize = self.samples.len();
        let mut i: usize = 0;
        while i < total
            invariant
                self.wf(),
                self.samples@.len() >= 2,
                self.slope == slope_of(self.samples@),
                self.intercept == intercept_of(self.samples@, self.slope as int),
                i <= total,
                total == self.samples@.len(),
                variance == variance_of(
                    self.samples@.take(i as int),
                    self.intercept as int,
                    self.slope as int,
                ),
                variance <= i * 1_270_000_000_000_000_000_000_000_000_000,
            decreases total - i,
        {
            let point: DataPoint = self.samples[i];
            assert(self.samples@.take(i + 1).drop_last() =~= self.samples@.take(i as int));
            assert(self.samples@.take(i + 1).last() == point);
            proof {
                lemma_span(self.capacity as int, 1);
            }
            let deviation: u128 = self.deviation(point) as u128;
            proof {
                lemma_span(self.capacity as int, total as int);
                lemma_residual(self.samples@, span_of(self.capacity as int), i as int);
                lemma_small_square(deviation as int);
            }
            variance = variance + deviation * deviation;
            i = i + 1;
        }
        assert(self.samples@.take(total as int) =~= self.samples@);
        variance
    }

    /// How many points are kept.
    pub fn count(&self) -> (count: usize)
        ensures
            count == self.samples@.len(),
    {
        self.samples.len()
    }

    /// The time of the point that was added last.
    pub fn last_time(&self) -> (time: u64)
        ensures
            time == self.last,
    {
        self.last
    }

    /// Whether a point lies on the trend: it deviates from it by less than the noise times
    /// `sigma`, which is in thousandths. With fewer than three points everything does.
    pub fn fits_trend(&self, time: u64, value: i64, sigma: u32) -> (fits: bool)
        requires
            self.wf(),
            self.reaches(time),
            -MAX_VALUE <= value <= MAX_VALUE,
        ensures
            fits == self.is_on_trend(time, value, sigma as int),
    {
        if self.samples.len() < 3 {
            return true;
        }
        proof {
            lemma_span(self.capacity as int, 1);
        }
        let deviation: i128 = self.deviation(DataPoint { x: time - self.first, y: value });
        assert(0 <= sigma * self.y_noise <= 0xffff_ffff * 0xffff_ffff_ffff_ffff)
            by (nonlinear_arith)
            requires
                0 <= sigma <= 0xffff_ffff,
                0 <= self.y_noise <= 0xffff_ffff_ffff_ffff,
        ;
        deviation * 1000 < sigma as i128 * self.y_noise as i128
    }

    /// The rate of change. It takes two points.
    pub fn slope(&self) -> (slope: i64)
        requires
            self.samples@.len() > 1,
        ensures
            slope == self.slope,
    {
        self.slope
    }

    /// How far off the rate may be to either side. It takes three points.
    pub fn rate_interval_bound(&self) -> (bound: u128)
        requires
            self.samples@.len() > 2,
        ensures
            bound == self.slope_noise,
    {
        self.slope_noise
    }
}

/// The quotient of two numbers in millionths, rounded down. The digits are found one by one, as in
/// long division.
fn divide_for_slope(covariance: i128, spread: i128) -> (slope: i64)
    requires
        0 < spread <= 10_000_000_000_000_000_000_000_000_000_000_000_000,
        -10_000_000_000_000_000_000_000_000_000_000_000_000 <= covariance,
        covariance <= 10_000_000_000_000_000_000_000_000_000_000_000_000,
        -(4_398_046_511_104 * spread) <= covariance <= 4_398_046_511_104 * spread,
    ensures
        slope == covariance * 1_000_000 / spread as int,
        -MAX_SLOPE <= slope <= MAX_SLOPE,
{
    let ghost b = spread as int;
    let mut quotient: i128 = divide_down(covariance, spread);
    proof {
        lemma_quotient_bound(covariance as int, b);
    }
    let mut rest: i128 = covariance - quotient * spread;
    let mut scale: i128 = 1;
    let mut i: u32 = 0;
    while i < 6
        invariant
            i <= 6,
            b == spread,
            0 < spread <= 10_000_000_000_000_000_000_000_000_000_000_000_000,
            i == 0 ==> scale == 1,
            i == 1 ==> scale == 10,
            i == 2 ==> scale == 100,
            i == 3 ==> scale == 1_000,
            i == 4 ==> scale == 10_000,
            i == 5 ==> scale == 100_000,
            i == 6 ==> scale == 1_000_000,
            0 <= rest < spread,
            covariance * scale == quotient * b + rest,
            -4_398_046_511_104 * scale <= quotient <= 4_398_046_511_104 * scale,
            quotient == 4_398_046_511_104 * scale ==> rest == 0,
        decreases 6 - i,
    {
        let ghost q = quotient as int;
        let ghost r = rest as int;
        let digit: i128 = rest * 10 / spread;
        proof {
            vstd::arithmetic::div_mod::lemma_fundamental_div_mod(r * 10, b);
            assert(0 <= digit <= 9) by (nonlinear_arith)
                requires
                    digit == r * 10 / b,
                    0 <= r < b,
            ;
            let c = covariance as int;
            let s = scale as int;
            assert(c * (s * 10) == (q * 10 + digit) * b + (r * 10) % b) by (nonlinear_arith)
                requires
                    c * s == q * b + r,
                    r * 10 == b * digit + (r * 10) % b,
            ;
        }
        rest = rest * 10 % spread;
        quotient = quotient * 10 + digit;
        scale = scale * 10;
        i = i + 1;
    }
    proof {
        vstd::arithmetic::div_mod::lemma_fundamental_div_mod_converse(
            covariance * 1_000_000,
            b,
            quotient as int,
            rest as int,
        );
    }
    quotient as i64
}

/// A quotient is no farther from zero than a factor that the divisor times it reaches.
proof fn lemma_quotient_bound(a: int, b: int)
    requires
        b > 0,
        -(4_398_046_511_104 * b) <= a <= 4_398_046_511_104 * b,
    ensures
        -4_398_046_511_104 <= a / b <= 4_398_046_511_104,
        0 <= a - (a / b) * b < b,
        a / b == 4_398_046_511_104 ==> a - (a / b) * b == 0,
{
    let q = a / b;
    let r = a % b;
    vstd::arithmetic::div_mod::lemma_fundamental_div_mod(a, b);
    assert(q * b == b * q) by (nonlinear_arith);
    assert(-4_398_046_511_104 <= q <= 4_398_046_511_104) by (nonlinear_arith)
        requires
            b > 0,
            -(4_398_046_511_104 * b) <= a <= 4_398_046_511_104 * b,
            a == b * q + r,
            0 <= r < b,
    ;
}

/// A product divided by a number, put together from the quotient and the remainder.
proof fn lemma_split_product(n: int, spread: int)
    requires
        2 <= n <= 100_000,
        0 < spread <= 10_000_000_000_000_000_000_000_000_000_000_000_000,
    ensures
        (n - 2) * spread / n == (n - 2) * (spread / n) + (n - 2) * (spread % n) / n,
        0 <= (n - 2) * (spread / n) <= spread,
        0 <= (n - 2) * (spread % n) <= 10_000_000_000,
        0 <= (n - 2) * (spread % n) / n <= 10_000_000_000,
{
    let q = spread / n;
    let r = spread % n;
    vstd::arithmetic::div_mod::lemma_fundamental_div_mod(spread, n);
    let part = (n - 2) * r;
    assert(0 <= q) by (nonlinear_arith)
        requires
            spread == n * q + r,
            0 < spread,
            0 <= r < n,
    ;
    assert(0 <= (n - 2) * q <= n * q) by (nonlinear_arith)
        requires
            n >= 2,
            q >= 0,
    ;
    assert(0 <= part <= 10_000_000_000) by (nonlinear_arith)
        requires
            part == (n - 2) * r,
            2 <= n <= 100_000,
            0 <= r < n,
    ;
    vstd::arithmetic::div_mod::lemma_fundamental_div_mod(part, n);
    let t = part / n;
    let u = part % n;
    assert(0 <= t <= part) by (nonlinear_arith)
        requires
            part == n * t + u,
            0 <= u < n,
            n >= 2,
            part >= 0,
    ;
    assert((n - 2) * spread == ((n - 2) * q + t) * n + u) by (nonlinear_arith)
        requires
            spread == n * q + r,
            (n - 2) * r == n * t + u,
    ;
    vstd::arithmetic::div_mod::lemma_fundamental_div_mod_converse(
        (n - 2) * spread,
        n,
        (n - 2) * q + t,
        u,
    );
}

/// Sums up the squared times, and the times multiplied by values.
fn product_sums(points: &Vec<DataPoint>, capacity: usize) -> (sums: (i128, i128))
    requires
        points_fit(points@, span_of(capacity as int)),
        points@.len() <= capacity,
        1 <= capacity <= MAX_CAPACITY,
    ensures
        sums.0 == sum_xx(points@),
        sums.1 == sum_xy(points@),
{
    let mut xx_sum: i128 = 0;
    let mut xy_sum: i128 = 0;
    let total: usize = points.len();
    let mut i: usize = 0;
    while i < total
        invariant
            i <= total,
            total == points@.len(),
            total <= capacity,
            1 <= capacity <= MAX_CAPACITY,
            points_fit(points@, span_of(capacity as int)),
            xx_sum == sum_xx(points@.take(i as int)),
            xy_sum == sum_xy(points@.take(i as int)),
        decreases total - i,
    {
        let point: DataPoint = points[i];
        assert(points@.take(i + 1).drop_last() =~= points@.take(i as int));
        assert(points@.take(i + 1).last() == point);
        proof {
            let span = span_of(capacity as int);
            let front = points@.take(i as int);
            let more = points@.take(i + 1);
            assert forall|j: int| 0 <= j < more.len() implies (#[trigger] more[j]).x <= span
                && -MAX_VALUE <= more[j].y <= MAX_VALUE by {
                assert(more[j] == points@[j]);
            }
            assert forall|j: int| 0 <= j < front.len() implies (#[trigger] front[j]).x <= span
                && -MAX_VALUE <= front[j].y <= MAX_VALUE by {
                assert(front[j] == points@[j]);
            }
            lemma_span(capacity as int, 1);
            lemma_span(capacity as int, i as int);
            lemma_span(capacity as int, i + 1);
            lemma_sums_fit(front, span);
            lemma_sums_fit(more, span);
            lemma_products(point, span);
            lemma_span_products(1, span);
        }
        xx_sum = xx_sum + point.x as i128 * point.x as i128;
        xy_sum = xy_sum + point.x as i128 * point.y as i128;
        i = i + 1;
    }
    assert(points@.take(total as int) =~= points@);
    (xx_sum, xy_sum)
}

/// The products of a time and a value in range stay in bounds.
proof fn lemma_products(point: DataPoint, span: int)
    requires
        point.x <= span,
        -MAX_VALUE <= point.y <= MAX_VALUE,
    ensures
        0 <= point.x * point.x <= span * span,
        -(span * 2_199_023_255_552) <= point.x * point.y <= span * 2_199_023_255_552,
{
    let x = point.x as int;
    let y = point.y as int;
    assert(0 <= x * x <= span * span) by (nonlinear_arith)
        requires
            0 <= x <= span,
    ;
    assert(-(span * 2_199_023_255_552) <= x * y <= span * 2_199_023_255_552) by (nonlinear_arith)
        requires
            0 <= x <= span,
            -2_199_023_255_552 <= y <= 2_199_023_255_552,
    ;
}

/// What times of a span multiply to, over so many points, stays in bounds.
proof fn lemma_span_products(n: int, span: int)
    requires
        0 <= n,
        0 <= span <= MAX_TOTAL,
        n * span <= MAX_TOTAL,
    ensures
        0 <= n * (span * span) <= 3_094_850_098_213_450_687_247_810_560_000_000_000,
        0 <= n * (span * 2_199_023_255_552) <= 3_868_562_622_766_813_359_059_763_200_000,
{
    let w = n * span;
    assert(n * (span * span) == w * span) by (nonlinear_arith)
        requires
            w == n * span,
    ;
    assert(0 <= w) by (nonlinear_arith)
        requires
            w == n * span,
            n >= 0,
            span >= 0,
    ;
    assert(0 <= w * span <= 3_094_850_098_213_450_687_247_810_560_000_000_000) by (nonlinear_arith)
        requires
            0 <= w <= 1_759_218_604_441_600_000,
            0 <= span <= 1_759_218_604_441_600_000,
    ;
    assert(n * (span * 2_199_023_255_552) == w * 2_199_023_255_552) by (nonlinear_arith)
        requires
            w == n * span,
    ;
}

/// The sums of products over points in range stay in bounds.
proof fn lemma_sums_fit(points: Seq<DataPoint>, span: int)
    requires
        points_fit(points, span),
        0 <= span <= MAX_TOTAL,
        points.len() * span <= MAX_TOTAL,
    ensures
        0 <= sum_xx(points) <= 3_094_850_098_213_450_687_247_810_560_000_000_000,
        -3_868_562_622_766_813_359_059_763_200_000 <= sum_xy(points),
        sum_xy(points) <= 3_868_562_622_766_813_359_059_763_200_000,
{
    lemma_sum_bounds(points, span);
    lemma_span_products(points.len() as int, span);
}

/// The square of a deviation stays in bounds.
proof fn lemma_small_square(n: int)
    requires
        0 <= n <= MAX_RESIDUAL,
    ensures
        0 <= n * n <= 1_270_000_000_000_000_000_000_000_000_000,
{
    assert(0 <= n * n <= 1_270_000_000_000_000_000_000_000_000_000) by (nonlinear_arith)
        requires
            0 <= n <= 1_125_899_906_842_624,
    ;
}

/// A rate multiplied by a sum of times stays in bounds.
proof fn lemma_slope_product(slope: int, x: int)
    requires
        -MAX_SLOPE <= slope <= MAX_SLOPE,
        0 <= x <= 1_759_218_604_441_600_000,
    ensures
        -7_740_000_000_000_000_000_000_000_000_000_000_000 <= slope * x,
        slope * x <= 7_740_000_000_000_000_000_000_000_000_000_000_000,
{
    assert(-7_740_000_000_000_000_000_000_000_000_000_000_000 <= slope * x
        <= 7_740_000_000_000_000_000_000_000_000_000_000_000) by (nonlinear_arith)
        requires
            -4_398_046_511_104_000_000 <= slope <= 4_398_046_511_104_000_000,
            0 <= x <= 1_759_218_604_441_600_000,
    ;
}

/// Sums over points in range stay in bounds.
pub proof fn lemma_sum_bounds(points: Seq<DataPoint>, span: int)
    requires
        points_fit(points, span),
    ensures
        0 <= sum_x(points) <= points.len() * span,
        -(points.len() * 2_199_023_255_552) <= sum_y(points),
        sum_y(points) <= points.len() * 2_199_023_255_552,
        0 <= sum_xx(points) <= points.len() * (span * span),
        -(points.len() * (span * 2_199_023_255_552)) <= sum_xy(points),
        sum_xy(points) <= points.len() * (span * 2_199_023_255_552),
    decreases points.len(),
{
    if points.len() > 0 {
        let front = points.drop_last();
        assert forall|i: int| 0 <= i < front.len() implies (#[trigger] front[i]).x <= span
            && -MAX_VALUE <= front[i].y <= MAX_VALUE by {
            assert(front[i] == points[i]);
        }
        lemma_sum_bounds(front, span);
        assert(points.last() == points[points.len() - 1]);
        lemma_products(points.last(), span);
        let n = front.len() as int;
        let square = span * span;
        let reach = span * 2_199_023_255_552;
        assert((n + 1) * span == n * span + span) by (nonlinear_arith);
        assert((n + 1) * square == n * square + square) by (nonlinear_arith);
        assert((n + 1) * reach == n * reach + reach) by (nonlinear_arith);
    } else {
        assert(0 * span == 0 && 0 * (span * span) == 0 && 0 * (span * 2_199_023_255_552) == 0)
            by (nonlinear_arith);
    }
}

/// The products that the fit takes stay in bounds.
proof fn lemma_product_bounds(points: Seq<DataPoint>, span: int)
    requires
        points_fit(points, span),
        points.len() <= MAX_CAPACITY,
        0 <= span <= MAX_TOTAL,
        points.len() * span <= MAX_TOTAL,
    ensures
        0 <= sum_x(points) <= MAX_TOTAL,
        0 <= points.len() * sum_xx(points) <= 3_094_850_098_213_450_687_247_810_560_000_000_000,
        0 <= sum_x(points) * sum_x(points) <= 3_094_850_098_213_450_687_247_810_560_000_000_000,
        -386_856_262_276_681_335_905_976_320_000_000_000 <= points.len() * sum_xy(points),
        points.len() * sum_xy(points) <= 386_856_262_276_681_335_905_976_320_000_000_000,
        -386_856_262_276_681_335_905_976_320_000_000_000 <= sum_x(points) * sum_y(points),
        sum_x(points) * sum_y(points) <= 386_856_262_276_681_335_905_976_320_000_000_000,
{
    lemma_sum_bounds(points, span);
    lemma_sums_fit(points, span);
    let n = points.len() as int;
    let x = sum_x(points);
    let y = sum_y(points);
    let xx = sum_xx(points);
    let xy = sum_xy(points);
    let w = n * span;
    assert(n * (n * (span * span)) == w * w) by (nonlinear_arith)
        requires
            w == n * span,
    ;
    assert(0 <= n * xx <= n * (n * (span * span))) by (nonlinear_arith)
        requires
            0 <= n,
            0 <= xx <= n * (span * span),
    ;
    assert(0 <= w * w <= 3_094_850_098_213_450_687_247_810_560_000_000_000) by (nonlinear_arith)
        requires
            0 <= w <= 1_759_218_604_441_600_000,
    ;
    assert(0 <= x * x <= 3_094_850_098_213_450_687_247_810_560_000_000_000) by (nonlinear_arith)
        requires
            0 <= x <= 1_759_218_604_441_600_000,
    ;
    assert(-386_856_262_276_681_335_905_976_320_000_000_000 <= n * xy
        <= 386_856_262_276_681_335_905_976_320_000_000_000) by (nonlinear_arith)
        requires
            0 <= n <= 100_000,
            -3_868_562_622_766_813_359_059_763_200_000 <= xy
                <= 3_868_562_622_766_813_359_059_763_200_000,
    ;
    assert(-386_856_262_276_681_335_905_976_320_000_000_000 <= x * y
        <= 386_856_262_276_681_335_905_976_320_000_000_000) by (nonlinear_arith)
        requires
            0 <= x <= 1_759_218_604_441_600_000,
            -219_902_325_555_200_000 <= y <= 219_902_325_555_200_000,
    ;
}

/// Replacing a point changes the sums by the difference.
pub proof fn lemma_sums_after_update(points: Seq<DataPoint>, i: int, point: DataPoint)
    requires
        0 <= i < points.len(),
    ensures
        sum_x(points.update(i, point)) == sum_x(points) - points[i].x + point.x,
        sum_y(points.update(i, point)) == sum_y(points) - points[i].y + point.y,
    decreases points.len(),
{
    let updated = points.update(i, point);
    if i == points.len() - 1 {
        assert(updated.drop_last() =~= points.drop_last());
    } else {
        assert(updated.drop_last() =~= points.drop_last().update(i, point));
        lemma_sums_after_update(points.drop_last(), i, point);
    }
}

/// The sum of squared distances of times from one time.
pub open spec fn distances_from(points: Seq<DataPoint>, x: int) -> int {
    sum_xx(points) - 2 * x * sum_x(points) + points.len() * x * x
}

/// Squared distances sum up to more than nothing, unless all times are that one.
proof fn lemma_distances(points: Seq<DataPoint>, x: int)
    ensures
        distances_from(points, x) >= 0,
        (exists|i: int| 0 <= i < points.len() && (#[trigger] points[i]).x != x) ==> distances_from(
            points,
            x,
        ) > 0,
    decreases points.len(),
{
    if points.len() > 0 {
        let front = points.drop_last();
        let a = points.last().x as int;
        let n = front.len() as int;
        lemma_distances(front, x);
        assert(sum_xx(front) + a * a - 2 * x * (sum_x(front) + a) + (n + 1) * x * x == sum_xx(front)
            - 2 * x * sum_x(front) + n * x * x + (a - x) * (a - x)) by (nonlinear_arith);
        assert(points.len() * x * x == (n + 1) * x * x);
        assert(distances_from(points, x) == distances_from(front, x) + (a - x) * (a - x));
        assert((a - x) * (a - x) >= 0) by (nonlinear_arith);
        assert(a != x ==> (a - x) * (a - x) > 0) by (nonlinear_arith);
        if exists|i: int| 0 <= i < points.len() && (#[trigger] points[i]).x != x {
            let i = choose|i: int| 0 <= i < points.len() && (#[trigger] points[i]).x != x;
            if i < front.len() {
                assert(front[i].x != x);
            }
        }
    } else {
        assert(0 * x * x == 0) by (nonlinear_arith);
    }
}

/// Points are never spread by less than nothing, and by more unless all times are the same.
proof fn lemma_spread(points: Seq<DataPoint>)
    ensures
        spread(points) >= 0,
        (exists|i: int, j: int|
            0 <= i < points.len() && 0 <= j < points.len() && (#[trigger] points[i]).x != (
            #[trigger] points[j]).x) ==> spread(points) > 0,
    decreases points.len(),
{
    if points.len() > 0 {
        let front = points.drop_last();
        let a = points.last().x as int;
        let n = front.len() as int;
        let p = sum_x(front);
        let q = sum_xx(front);
        lemma_spread(front);
        lemma_distances(front, a);
        assert((n + 1) * (q + a * a) - (p + a) * (p + a) == n * q - p * p + (q - 2 * a * p + n * a
            * a)) by (nonlinear_arith);
        assert(spread(points) == spread(front) + distances_from(front, a));
        if exists|i: int, j: int|
            0 <= i < points.len() && 0 <= j < points.len() && (#[trigger] points[i]).x != (
            #[trigger] points[j]).x {
            let (i, j) = choose|i: int, j: int|
                0 <= i < points.len() && 0 <= j < points.len() && (#[trigger] points[i]).x != (
                #[trigger] points[j]).x;
            if i < n && front[i].x != a {
                assert(distances_from(front, a) > 0);
            } else if j < n && front[j].x != a {
                assert(distances_from(front, a) > 0);
            }
        }
    }
}

/// How far values go along with times, seen from one point: the sum of the products of the
/// distances from it.
pub open spec fn codistances_from(points: Seq<DataPoint>, x: int, y: int) -> int {
    sum_xy(points) - x * sum_y(points) - y * sum_x(points) + points.len() * (x * y)
}

/// Seen from a point in range, values go along with times no more than times are spread, but for
/// a factor that is the width of the range.
proof fn lemma_codistances(points: Seq<DataPoint>, span: int, x: int, y: int)
    requires
        points_fit(points, span),
        -MAX_VALUE <= y <= MAX_VALUE,
    ensures
        -(4_398_046_511_104 * distances_from(points, x)) <= codistances_from(points, x, y),
        codistances_from(points, x, y) <= 4_398_046_511_104 * distances_from(points, x),
    decreases points.len(),
{
    if points.len() > 0 {
        let front = points.drop_last();
        let a = points.last().x as int;
        let b = points.last().y as int;
        let n = front.len() as int;
        assert(points.last() == points[n]);
        assert forall|i: int| 0 <= i < front.len() implies (#[trigger] front[i]).x <= span
            && -MAX_VALUE <= front[i].y <= MAX_VALUE by {
            assert(front[i] == points[i]);
        }
        lemma_codistances(front, span, x, y);
        let sx = sum_x(front);
        let sy = sum_y(front);
        let sxx = sum_xx(front);
        let sxy = sum_xy(front);
        let z = x * y;
        assert(x * (sy + b) == x * sy + x * b) by (nonlinear_arith);
        assert(y * (sx + a) == y * sx + y * a) by (nonlinear_arith);
        assert((n + 1) * z == n * z + z) by (nonlinear_arith);
        assert((a - x) * (b - y) == a * b - x * b - y * a + z) by (nonlinear_arith)
            requires
                z == x * y,
        ;
        assert(sxx + a * a - 2 * x * (sx + a) + (n + 1) * x * x == sxx - 2 * x * sx + n * x * x + (a
            - x) * (a - x)) by (nonlinear_arith);
        lemma_step_product(a - x, b - y);
    } else {
        assert(x * 0 == 0 && y * 0 == 0 && 0 * (x * y) == 0 && 2 * x * 0 == 0 && 0 * x * x == 0)
            by (nonlinear_arith);
    }
}

/// A whole number times one in range is no larger than its square times the range.
proof fn lemma_step_product(u: int, v: int)
    requires
        -4_398_046_511_104 <= v <= 4_398_046_511_104,
    ensures
        -(4_398_046_511_104 * (u * u)) <= u * v <= 4_398_046_511_104 * (u * u),
{
    let w: int = if u < 0 { -u } else { u };
    assert(w * w == u * u) by (nonlinear_arith)
        requires
            w == u || w == -u,
    ;
    assert(w <= w * w) by (nonlinear_arith)
        requires
            w >= 0,
    ;
    assert(-(w * 4_398_046_511_104) <= u * v <= w * 4_398_046_511_104) by (nonlinear_arith)
        requires
            w >= 0,
            w == u || w == -u,
            -4_398_046_511_104 <= v <= 4_398_046_511_104,
    ;
}

/// Values go along with times no more than times are spread, but for a factor that is the width of
/// the range.
proof fn lemma_slope_bound(points: Seq<DataPoint>, span: int)
    requires
        points_fit(points, span),
    ensures
        -(4_398_046_511_104 * spread(points)) <= covariance(points),
        covariance(points) <= 4_398_046_511_104 * spread(points),
    decreases points.len(),
{
    if points.len() > 0 {
        let front = points.drop_last();
        let a = points.last().x as int;
        let b = points.last().y as int;
        let n = front.len() as int;
        assert(points.last() == points[n]);
        assert forall|i: int| 0 <= i < front.len() implies (#[trigger] front[i]).x <= span
            && -MAX_VALUE <= front[i].y <= MAX_VALUE by {
            assert(front[i] == points[i]);
        }
        lemma_slope_bound(front, span);
        lemma_codistances(front, span, a, b);
        let p = sum_x(front);
        let q = sum_xx(front);
        let v = sum_y(front);
        let w = sum_xy(front);
        assert((n + 1) * (q + a * a) - (p + a) * (p + a) == n * q - p * p + (q - 2 * a * p + n * a
            * a)) by (nonlinear_arith);
        let t = a * b;
        assert((n + 1) * (w + t) == n * w + n * t + w + t) by (nonlinear_arith);
        assert((p + a) * (v + b) == p * v + b * p + a * v + t) by (nonlinear_arith)
            requires
                t == a * b,
        ;
        assert(spread(points) == spread(front) + distances_from(front, a));
        assert(covariance(points) == covariance(front) + codistances_from(front, a, b));
    }
}

/// The sum of squared values.
pub open spec fn sum_yy(points: Seq<DataPoint>) -> int
    decreases points.len(),
{
    if points.len() == 0 {
        0
    } else {
        sum_yy(points.drop_last()) + points.last().y * points.last().y
    }
}

/// A weighted sum of a point's value and time, with a constant.
pub open spec fn weighted(point: DataPoint, p: int, q: int, c: int) -> int {
    p * point.y + q * point.x + c
}

/// The sum of squared weighted sums.
pub open spec fn sum_weighted(points: Seq<DataPoint>, p: int, q: int, c: int) -> int
    decreases points.len(),
{
    if points.len() == 0 {
        0
    } else {
        sum_weighted(points.drop_last(), p, q, c) + weighted(points.last(), p, q, c) * weighted(
            points.last(),
            p,
            q,
            c,
        )
    }
}

/// One square is no larger than the sum of all.
proof fn lemma_one_of_sum(points: Seq<DataPoint>, p: int, q: int, c: int, i: int)
    requires
        0 <= i < points.len(),
    ensures
        weighted(points[i], p, q, c) * weighted(points[i], p, q, c) <= sum_weighted(
            points,
            p,
            q,
            c,
        ),
    decreases points.len(),
{
    let front = points.drop_last();
    let w = weighted(points.last(), p, q, c);
    assert(w * w >= 0) by (nonlinear_arith);
    lemma_sum_not_negative(front, p, q, c);
    if i < front.len() {
        assert(front[i] == points[i]);
        lemma_one_of_sum(front, p, q, c, i);
    }
}

/// Squares do not add up to less than nothing.
proof fn lemma_sum_not_negative(points: Seq<DataPoint>, p: int, q: int, c: int)
    ensures
        sum_weighted(points, p, q, c) >= 0,
    decreases points.len(),
{
    if points.len() > 0 {
        let w = weighted(points.last(), p, q, c);
        assert(w * w >= 0) by (nonlinear_arith);
        lemma_sum_not_negative(points.drop_last(), p, q, c);
    }
}

/// The sum of squared weighted sums, by the sums over the points.
proof fn lemma_weighted_sums(points: Seq<DataPoint>, p: int, q: int, c: int)
    ensures
        sum_weighted(points, p, q, c) == (p * p) * sum_yy(points) + (q * q) * sum_xx(points) + (2 * p
            * q) * sum_xy(points) + (2 * p * c) * sum_y(points) + (2 * q * c) * sum_x(points) + (c
            * c) * points.len(),
    decreases points.len(),
{
    if points.len() > 0 {
        let front = points.drop_last();
        lemma_weighted_sums(front, p, q, c);
        let x = points.last().x as int;
        let y = points.last().y as int;
        let n = front.len() as int;
        let yy = sum_yy(front);
        let xx = sum_xx(front);
        let xy = sum_xy(front);
        let sy = sum_y(front);
        let sx = sum_x(front);
        let v = p * y;
        let w = q * x;
        assert((v + w + c) * (v + w + c) == v * v + w * w + 2 * (v * w) + 2 * (v * c) + 2 * (w * c)
            + c * c) by (nonlinear_arith);
        assert(v * v == (p * p) * (y * y)) by (nonlinear_arith)
            requires
                v == p * y,
        ;
        assert(w * w == (q * q) * (x * x)) by (nonlinear_arith)
            requires
                w == q * x,
        ;
        assert(2 * (v * w) == (2 * p * q) * (x * y)) by (nonlinear_arith)
            requires
                v == p * y,
                w == q * x,
        ;
        assert(2 * (v * c) == (2 * p * c) * y) by (nonlinear_arith)
            requires
                v == p * y,
        ;
        assert(2 * (w * c) == (2 * q * c) * x) by (nonlinear_arith)
            requires
                w == q * x,
        ;
        assert((p * p) * (yy + y * y) == (p * p) * yy + (p * p) * (y * y)) by (nonlinear_arith);
        assert((q * q) * (xx + x * x) == (q * q) * xx + (q * q) * (x * x)) by (nonlinear_arith);
        assert((2 * p * q) * (xy + x * y) == (2 * p * q) * xy + (2 * p * q) * (x * y))
            by (nonlinear_arith);
        assert((2 * p * c) * (sy + y) == (2 * p * c) * sy + (2 * p * c) * y) by (nonlinear_arith);
        assert((2 * q * c) * (sx + x) == (2 * q * c) * sx + (2 * q * c) * x) by (nonlinear_arith);
        assert((c * c) * (n + 1) == (c * c) * n + c * c) by (nonlinear_arith);
    } else {
        assert((p * p) * 0 == 0 && (q * q) * 0 == 0 && (2 * p * q) * 0 == 0 && (2 * p * c) * 0 == 0
            && (2 * q * c) * 0 == 0 && (c * c) * 0 == 0) by (nonlinear_arith);
    }
}

/// Squared values add up to no more than so many times the largest.
proof fn lemma_sum_yy_bound(points: Seq<DataPoint>, span: int)
    requires
        points_fit(points, span),
    ensures
        0 <= sum_yy(points) <= points.len() * 4_835_703_278_458_516_698_824_704,
    decreases points.len(),
{
    if points.len() > 0 {
        let front = points.drop_last();
        assert forall|i: int| 0 <= i < front.len() implies (#[trigger] front[i]).x <= span
            && -MAX_VALUE <= front[i].y <= MAX_VALUE by {
            assert(front[i] == points[i]);
        }
        lemma_sum_yy_bound(front, span);
        assert(points.last() == points[points.len() - 1]);
        let y = points.last().y as int;
        assert(0 <= y * y <= 4_835_703_278_458_516_698_824_704) by (nonlinear_arith)
            requires
                -2_199_023_255_552 <= y <= 2_199_023_255_552,
        ;
    }
}

/// Rounding the slope down costs the squared deviations no more than the spread.
proof fn lemma_rounded_slope(m: int, s: int, rest: int)
    requires
        0 <= rest < s,
    ensures
        (m * m) * s - 2 * m * (m * s + rest) <= s,
{
    assert((m * m) * s - 2 * m * (m * s + rest) == -((m * m) * s) - 2 * (m * rest))
        by (nonlinear_arith);
    if m >= 0 {
        assert((m * m) * s >= 0 && m * rest >= 0) by (nonlinear_arith)
            requires
                m >= 0,
                s > 0,
                rest >= 0,
        ;
    } else {
        let a = -m;
        assert(-((m * m) * s) - 2 * (m * rest) == 2 * (a * rest) - (a * a) * s) by (nonlinear_arith)
            requires
                a == -m,
        ;
        assert(a * rest <= a * s) by (nonlinear_arith)
            requires
                a >= 1,
                rest < s,
        ;
        assert(2 * (a * s) - (a * a) * s <= s) by (nonlinear_arith)
            requires
                s > 0,
        ;
    }
}

/// A point that the line was fitted to is not far off it.
proof fn lemma_residual(points: Seq<DataPoint>, span: int, i: int)
    requires
        points_fit(points, span),
        2 <= points.len() <= MAX_CAPACITY,
        0 <= span <= MAX_TOTAL,
        points.len() * span <= MAX_TOTAL,
        spread(points) > 0,
        0 <= i < points.len(),
    ensures
        ({
            let slope = slope_of(points);
            deviation_of(intercept_of(points, slope), slope, points[i]) <= MAX_RESIDUAL
        }),
{
    let k = 1_000_000int;
    let n = points.len() as int;
    let m = slope_of(points);
    let x = sum_x(points);
    let y = sum_y(points);
    let s = spread(points);
    let cov = covariance(points);
    let p = k * n;
    let q = -(m * n);
    let c = m * x - k * y;
    let point = points[i];
    let u = weighted(point, p, q, c);
    lemma_one_of_sum(points, p, q, c, i);
    lemma_weighted_sums(points, p, q, c);
    lemma_sum_yy_bound(points, span);
    lemma_product_bounds(points, span);
    let yy = sum_yy(points);
    let xx = sum_xx(points);
    let xy = sum_xy(points);
    let total = sum_weighted(points, p, q, c);
    lemma_weighted_total(k, n, m, x, y, xx, xy, yy);
    assert(total == n * (k * k * (n * yy - y * y) + (m * m * s - 2 * m * (k * cov))));
    vstd::arithmetic::div_mod::lemma_fundamental_div_mod(cov * k, s);
    let rest = (cov * k) % s;
    assert(k * cov == m * s + rest) by (nonlinear_arith)
        requires
            cov * k == s * m + rest,
    ;
    lemma_rounded_slope(m, s, rest);
    assert(u * u <= n * n * 483_573_422_695_949_883_333_157_647_810_560_000_000_000) by {
        let inner = k * k * (n * yy - y * y) + (m * m * s - 2 * m * (k * cov));
        let nn = n * n;
        assert(y * y >= 0 && x * x >= 0) by (nonlinear_arith);
        assert(n * yy <= nn * 4_835_703_278_458_516_698_824_704) by (nonlinear_arith)
            requires
                nn == n * n,
                0 <= yy <= n * 4_835_703_278_458_516_698_824_704,
                n >= 2,
        ;
        assert(inner <= nn * 4_835_703_278_458_516_698_824_704_000_000_000_000 + 3_094_850_098_213_450_687_247_810_560_000_000_000);
        assert(n * inner <= nn * 483_573_422_695_949_883_333_157_647_810_560_000_000_000) by (nonlinear_arith)
            requires
                2 <= n <= 100_000,
                nn == n * n,
                inner <= nn * 4_835_703_278_458_516_698_824_704_000_000_000_000 + 3_094_850_098_213_450_687_247_810_560_000_000_000,
        ;
    }
    lemma_off_the_line(n, m, x, y, point, u);
}

/// The sum of squared distances from a line, by the spread of times and values and how they go
/// along.
proof fn lemma_weighted_total(
    k: int,
    n: int,
    m: int,
    x: int,
    y: int,
    xx: int,
    xy: int,
    yy: int,
)
    ensures
        ({
            let p = k * n;
            let q = -(m * n);
            let c = m * x - k * y;
            (p * p) * yy + (q * q) * xx + (2 * p * q) * xy + (2 * p * c) * y + (2 * q * c) * x + (c
                * c) * n == n * (k * k * (n * yy - y * y) + (m * m * (n * xx - x * x) - 2 * m * (k * (
            n * xy - x * y))))
        }),
{
    let p = k * n;
    let q = -(m * n);
    let c = m * x - k * y;
    assert((p * p) * yy == n * (k * k * (n * yy))) by (nonlinear_arith)
        requires
            p == k * n,
    ;
    assert((q * q) * xx == n * (m * m * (n * xx))) by (nonlinear_arith)
        requires
            q == -(m * n),
    ;
    assert((2 * p * q) * xy == -(n * (2 * m * (k * (n * xy))))) by (nonlinear_arith)
        requires
            p == k * n,
            q == -(m * n),
    ;
    let v = m * x;
    let w = k * y;
    assert((2 * p * c) * y == 2 * (n * (c * w))) by (nonlinear_arith)
        requires
            p == k * n,
            w == k * y,
    ;
    assert((2 * q * c) * x == -(2 * (n * (c * v)))) by (nonlinear_arith)
        requires
            q == -(m * n),
            v == m * x,
    ;
    assert(2 * (n * (c * w)) - 2 * (n * (c * v)) + (c * c) * n == -(n * (c * c)))
        by (nonlinear_arith)
        requires
            c == v - w,
    ;
    assert(n * (c * c) == n * (v * v) + n * (w * w) - n * (2 * (v * w))) by (nonlinear_arith)
        requires
            c == v - w,
    ;
    assert(v * v == m * m * (x * x)) by (nonlinear_arith)
        requires
            v == m * x,
    ;
    assert(w * w == k * k * (y * y)) by (nonlinear_arith)
        requires
            w == k * y,
    ;
    assert(2 * (v * w) == 2 * m * (k * (x * y))) by (nonlinear_arith)
        requires
            v == m * x,
            w == k * y,
    ;
    assert(n * (k * k * (n * yy - y * y)) == n * (k * k * (n * yy)) - n * (k * k * (y * y)))
        by (nonlinear_arith);
    assert(n * (m * m * (n * xx - x * x)) == n * (m * m * (n * xx)) - n * (m * m * (x * x)))
        by (nonlinear_arith);
    assert(n * (2 * m * (k * (n * xy - x * y))) == n * (2 * m * (k * (n * xy))) - n * (2 * m * (k * (
    x * y)))) by (nonlinear_arith);
    let a = k * k * (n * yy - y * y);
    let b = m * m * (n * xx - x * x);
    let d = 2 * m * (k * (n * xy - x * y));
    assert(n * (a + (b - d)) == n * a + n * b - n * d) by (nonlinear_arith);
}

/// A point whose weighted sum is small lies close to the line.
proof fn lemma_off_the_line(n: int, m: int, x: int, y: int, point: DataPoint, u: int)
    requires
        n >= 2,
        u == weighted(point, 1_000_000 * n, -(m * n), m * x - 1_000_000 * y),
        u * u <= n * n * 483_573_422_695_949_883_333_157_647_810_560_000_000_000,
    ensures
        deviation_of((y * 1_000_000 - m * x) / (n * 1_000_000), m, point) <= MAX_RESIDUAL,
{
    let start = (y * 1_000_000 - m * x) / (n * 1_000_000);
    let e1 = (y * 1_000_000 - m * x) % (n * 1_000_000);
    let px = point.x as int;
    let py = point.y as int;
    let rise = m * px / 1_000_000;
    let e2 = (m * px) % 1_000_000;
    vstd::arithmetic::div_mod::lemma_fundamental_div_mod(y * 1_000_000 - m * x, n * 1_000_000);
    vstd::arithmetic::div_mod::lemma_fundamental_div_mod(m * px, 1_000_000);
    let off = py - (start + rise);
    assert(1_000_000 * (n * off) == u + e1 + n * e2) by (nonlinear_arith)
        requires
            u == 1_000_000 * n * py + -(m * n) * px + (m * x - 1_000_000 * y),
            y * 1_000_000 - m * x == n * 1_000_000 * start + e1,
            m * px == 1_000_000 * rise + e2,
            off == py - (start + rise),
    ;
    assert(0 <= n * e2 <= n * 1_000_000) by (nonlinear_arith)
        requires
            0 <= e2 < 1_000_000,
            n >= 2,
    ;
    let limit = 1_125_899_906_842_624int;
    let far = n * 1_125_899_906_842_622_000_000;
    if off > limit {
        assert(1_000_000 * (n * off) >= 1_000_000 * (n * limit)) by (nonlinear_arith)
            requires
                off > limit,
                n >= 2,
        ;
        assert(u >= far);
    } else if off < -limit {
        assert(1_000_000 * (n * off) <= -(1_000_000 * (n * limit))) by (nonlinear_arith)
            requires
                off < -limit,
                n >= 2,
        ;
        assert(u <= -far);
    }
    if off > limit || off < -limit {
        assert(u * u >= far * far) by (nonlinear_arith)
            requires
                u >= far || u <= -far,
                far >= 0,
        ;
        assert(far * far > n * n * 483_573_422_695_949_883_333_157_647_810_560_000_000_000) by (nonlinear_arith)
            requires
                far == n * 1_125_899_906_842_622_000_000,
                n >= 2,
        ;
    }
}

/// Where times go up, a point that is added always leaves enough to fit a line to.
pub proof fn law_increasing_times_can_be_fitted(
    estimation: RateEstimation,
    time: u64,
    value: i64,
    slot: Option<usize>,
)
    requires
        estimation.wf(),
        estimation.in_order(),
        time > estimation.last,
        estimation.reaches(time),
        slot matches Some(slot) ==> slot < estimation.capacity,
    ensures
        ({
            let point = DataPoint { x: (time - estimation.first) as u64, y: value };
            let kept = with_point(
                estimation.samples@,
                estimation.capacity as int,
                point,
                slot,
            );
            kept.len() >= 2 ==> spread(kept) > 0
        }),
{
    let points = estimation.samples@;
    let point = DataPoint { x: (time - estimation.first) as u64, y: value };
    let kept = with_point(points, estimation.capacity as int, point, slot);
    if kept.len() >= 2 {
        if points.len() < estimation.capacity {
            assert(kept[0] == points[0]);
            assert(kept[kept.len() - 1] == point);
            assert(kept[0].x != kept[kept.len() - 1].x);
        } else if let Some(slot) = slot {
            let other: int = if slot == 0 { 1 } else { 0 };
            assert(kept[other] == points[other]);
            assert(kept[slot as int] == point);
            assert(kept[other].x != kept[slot as int].x);
        }
        lemma_spread(kept);
    }
}

/// Points on a line have the rate of the line, which is given per microsecond.
pub proof fn law_line_has_its_slope(points: Seq<DataPoint>, rate: int, start: int)
    requires
        points.len() >= 2,
        spread(points) > 0,
        forall|i: int| 0 <= i < points.len() ==> (#[trigger] points[i]).y == start + rate
            * points[i].x,
    ensures
        slope_of(points) == rate * 1_000_000,
{
    lemma_line_sums(points, rate, start);
    let n = points.len() as int;
    let x = sum_x(points);
    let xx = sum_xx(points);
    assert(n * (start * x + rate * xx) - x * (n * start + rate * x) == rate * (n * xx - x * x))
        by (nonlinear_arith);
    let sp = spread(points);
    assert(rate * sp * 1_000_000 == (rate * 1_000_000) * sp) by (nonlinear_arith);
    assert((rate * 1_000_000) * sp == sp * (rate * 1_000_000)) by (nonlinear_arith);
    vstd::arithmetic::div_mod::lemma_div_multiples_vanish(rate * 1_000_000, sp);
}

/// The sums over points on a line.
proof fn lemma_line_sums(points: Seq<DataPoint>, rate: int, start: int)
    requires
        forall|i: int| 0 <= i < points.len() ==> (#[trigger] points[i]).y == start + rate
            * points[i].x,
    ensures
        sum_y(points) == points.len() * start + rate * sum_x(points),
        sum_xy(points) == start * sum_x(points) + rate * sum_xx(points),
    decreases points.len(),
{
    if points.len() > 0 {
        let front = points.drop_last();
        let last = points.last();
        assert forall|i: int| 0 <= i < front.len() implies (#[trigger] front[i]).y == start + rate
            * front[i].x by {
            assert(front[i] == points[i]);
        }
        lemma_line_sums(front, rate, start);
        assert(last == points[points.len() - 1]);
        let n = front.len() as int;
        let a = last.x as int;
        let x = sum_x(front);
        let xx = sum_xx(front);
        assert(n * start + rate * x + (start + rate * a) == (n + 1) * start + rate * (x + a))
            by (nonlinear_arith);
        assert(start * x + rate * xx + a * (start + rate * a) == start * (x + a) + rate * (xx + a
            * a)) by (nonlinear_arith);
    } else {
        assert(0 * start + rate * 0 == 0) by (nonlinear_arith);
        assert(start * 0 + rate * 0 == 0) by (nonlinear_arith);
    }
}

/// Through two points goes one line, and its rate times the time between them is the change from
/// the one to the other.
pub proof fn law_two_points_have_their_slope(points: Seq<DataPoint>)
    requires
        points.len() == 2,
        points[0].x == 0,
        points[1].x > 0,
    ensures
        ({
            let change = (points[1].y - points[0].y) * 1_000_000;
            slope_of(points) * points[1].x <= change < (slope_of(points) + 1) * points[1].x
        }),
{
    reveal_with_fuel(sum_x, 3);
    reveal_with_fuel(sum_y, 3);
    reveal_with_fuel(sum_xx, 3);
    reveal_with_fuel(sum_xy, 3);
    let front = points.drop_last();
    assert(front.last() == points[0]);
    assert(front.drop_last() =~= Seq::empty());
    let e = points[1].x as int;
    let a = points[0].y as int;
    let b = points[1].y as int;
    assert(sum_x(points) == e && sum_y(points) == a + b);
    assert(0 * 0 == 0 && 0 * a == 0) by (nonlinear_arith);
    assert(sum_xx(points) == e * e && sum_xy(points) == e * b);
    assert(2 * (e * e) - e * e == e * e) by (nonlinear_arith);
    assert(2 * (e * b) - e * (a + b) == e * (b - a)) by (nonlinear_arith);
    assert(spread(points) == e * e && covariance(points) == e * (b - a));
    let n = e * (b - a) * 1_000_000;
    let q = n / (e * e);
    assert(e * e > 0) by (nonlinear_arith)
        requires
            e > 0,
    ;
    vstd::arithmetic::div_mod::lemma_fundamental_div_mod(n, e * e);
    let rest = n % (e * e);
    let change = (b - a) * 1_000_000;
    assert(n == e * change) by (nonlinear_arith)
        requires
            n == e * (b - a) * 1_000_000,
            change == (b - a) * 1_000_000,
    ;
    assert(q * e <= change < (q + 1) * e) by (nonlinear_arith)
        requires
            e * change == (e * e) * q + rest,
            0 <= rest < e * e,
            e > 0,
    ;
}

/// The fit goes through points that lie on a line: a value of the line is what the line had, and
/// with no noise expected there is none.
pub proof fn law_fit_goes_through_a_line(
    estimation: RateEstimation,
    rate: int,
    start: int,
    x: int,
    noise: int,
)
    requires
        estimation.samples@.len() >= 2,
        spread(estimation.samples@) > 0,
        estimation.is_fitted(noise),
        noise >= 0,
        forall|i: int|
            0 <= i < estimation.samples@.len() ==> (#[trigger] estimation.samples@[i]).y == start
                + rate * estimation.samples@[i].x,
    ensures
        estimation.slope == rate * 1_000_000,
        estimation.intercept == start,
        value_on_line(estimation.intercept as int, estimation.slope as int, x) == start + rate * x,
        noise == 0 ==> estimation.y_noise == 0 && estimation.slope_noise == 0,
        ({
            let n = estimation.samples@.len() as int;
            let root = estimation.y_noise as int;
            n * (root * root) <= noise * noise < n * ((root + 1) * (root + 1))
        }),
{
    let points = estimation.samples@;
    let n = points.len() as int;
    law_line_has_its_slope(points, rate, start);
    lemma_line_sums(points, rate, start);
    let sx = sum_x(points);
    let slope = rate * 1_000_000;
    assert((n * start + rate * sx) * 1_000_000 - slope * sx == (n * 1_000_000) * start)
        by (nonlinear_arith)
        requires
            slope == rate * 1_000_000,
    ;
    vstd::arithmetic::div_mod::lemma_div_multiples_vanish(start, n * 1_000_000);
    assert(slope * x == 1_000_000 * (rate * x)) by (nonlinear_arith)
        requires
            slope == rate * 1_000_000,
    ;
    vstd::arithmetic::div_mod::lemma_div_multiples_vanish(rate * x, 1_000_000);
    lemma_no_variance(points, rate, start);
    assert(noise * noise >= 0) by (nonlinear_arith);
    let v = noise * noise;
    assert(adjusted_variance(points, start, slope, noise) == v);
    let mean = v / n;
    vstd::arithmetic::div_mod::lemma_fundamental_div_mod(v, n);
    let rest = v % n;
    assert(mean >= 0) by (nonlinear_arith)
        requires
            v == n * mean + rest,
            0 <= rest < n,
            v >= 0,
    ;
    crate::numbers::lemma_whole_root(mean);
    let root = crate::numbers::whole_root(mean);
    assert(n * (root * root) <= v < n * ((root + 1) * (root + 1))) by (nonlinear_arith)
        requires
            root * root <= mean,
            mean < (root + 1) * (root + 1),
            v == n * mean + rest,
            0 <= rest < n,
    ;
    if noise == 0 {
        assert(v == 0) by (nonlinear_arith)
            requires
                v == noise * noise,
                noise == 0,
        ;
        crate::numbers::lemma_whole_root(0);
        let zero = crate::numbers::whole_root(0);
        assert(zero == 0) by (nonlinear_arith)
            requires
                zero * zero <= 0,
                0 <= zero,
        ;
        assert(root == 0) by (nonlinear_arith)
            requires
                n * (root * root) <= 0,
                n >= 2,
                root >= 0,
        ;
        let other = crate::numbers::whole_root((n - 2) * spread(points) / n);
        let den = if other < 1 {
            1
        } else {
            other
        };
        vstd::arithmetic::div_mod::lemma_div_multiples_vanish(0, den);
        assert(zero * 1_000_000 == 0);
        assert(0int / den == 0);
    }
}

/// Points on a line do not vary about it.
proof fn lemma_no_variance(points: Seq<DataPoint>, rate: int, start: int)
    requires
        forall|i: int| 0 <= i < points.len() ==> (#[trigger] points[i]).y == start + rate
            * points[i].x,
    ensures
        variance_of(points, start, rate * 1_000_000) == 0,
    decreases points.len(),
{
    if points.len() > 0 {
        let front = points.drop_last();
        assert forall|i: int| 0 <= i < front.len() implies (#[trigger] front[i]).y == start + rate
            * front[i].x by {
            assert(front[i] == points[i]);
        }
        lemma_no_variance(front, rate, start);
        let last = points.last();
        assert(last == points[points.len() - 1]);
        let x = last.x as int;
        assert((rate * 1_000_000) * x == 1_000_000 * (rate * x)) by (nonlinear_arith);
        vstd::arithmetic::div_mod::lemma_div_multiples_vanish(rate * x, 1_000_000);
    }
}

/// Points that all lie higher by the same amount have the same rate.
pub proof fn law_higher_points_have_the_same_slope(
    points: Seq<DataPoint>,
    higher: Seq<DataPoint>,
    by: int,
)
    requires
        points.len() == higher.len(),
        forall|i: int|
            0 <= i < points.len() ==> (#[trigger] higher[i]).x == points[i].x && higher[i].y
                == points[i].y + by,
    ensures
        slope_of(higher) == slope_of(points),
{
    lemma_higher_sums(points, higher, by);
    let n = points.len() as int;
    let x = sum_x(points);
    let y = sum_y(points);
    let xy = sum_xy(points);
    assert(n * (xy + by * x) - x * (y + n * by) == n * xy - x * y) by (nonlinear_arith);
}

/// The sums over points that all lie higher.
proof fn lemma_higher_sums(points: Seq<DataPoint>, higher: Seq<DataPoint>, by: int)
    requires
        points.len() == higher.len(),
        forall|i: int|
            0 <= i < points.len() ==> (#[trigger] higher[i]).x == points[i].x && higher[i].y
                == points[i].y + by,
    ensures
        sum_x(higher) == sum_x(points),
        sum_xx(higher) == sum_xx(points),
        sum_y(higher) == sum_y(points) + points.len() * by,
        sum_xy(higher) == sum_xy(points) + by * sum_x(points),
    decreases points.len(),
{
    if points.len() > 0 {
        let n = points.len() as int;
        let p = points.drop_last();
        let h = higher.drop_last();
        assert forall|i: int| 0 <= i < p.len() implies (#[trigger] h[i]).x == p[i].x && h[i].y
            == p[i].y + by by {
            assert(h[i] == higher[i]);
        }
        lemma_higher_sums(p, h, by);
        let last = points.last();
        assert(higher[n - 1].x == last.x && higher[n - 1].y == last.y + by);
        assert((n - 1) * by + by == n * by) by (nonlinear_arith);
        let a = last.x as int;
        let b = last.y as int;
        let x = sum_x(p);
        assert(by * x + a * (b + by) == by * (x + a) + a * b) by (nonlinear_arith);
    } else {
        assert(0 * by == 0 && by * 0 == 0) by (nonlinear_arith);
    }
}

/// A point is taken in only where it is later than the one before; it is the newest then, where
/// there is room, and takes the place that a sampler gives it otherwise.
pub proof fn law_points_are_kept(
    estimation: &mut RateEstimation,
    time: u64,
    value: i64,
    noise_estimate: u64,
    slot: Option<usize>,
)
    requires
        old(estimation).wf(),
        slot matches Some(slot) ==> slot < old(estimation).capacity,
        call_ensures(RateEstimation::add, (estimation, time, value, noise_estimate, slot), ()),
    ensures
        final(estimation).last == time,
        final(estimation).first == old(estimation).first,
        final(estimation).capacity == old(estimation).capacity,
        time <= old(estimation).last ==> {
            &&& final(estimation).samples@ == old(estimation).samples@
            &&& final(estimation).slope == old(estimation).slope
            &&& final(estimation).y_noise == old(estimation).y_noise
        },
        time > old(estimation).last ==> {
            let before = old(estimation).samples@;
            let after = final(estimation).samples@;
            let room = before.len() < old(estimation).capacity;
            let x = time - old(estimation).first;
            &&& room ==> after.len() == before.len() + 1 && after.last().x == x as u64
                && after.last().y == value
            &&& !room ==> after.len() == before.len()
            &&& forall|i: int|
                0 <= i < before.len() && (room || slot is None || i != slot->0)
                    ==> #[trigger] after[i] == before[i]
            &&& !room && slot is Some ==> after[slot->0 as int].y == value
                && after[slot->0 as int].x
                == x as u64
        },
{
}

/// A point fits the trend where there are fewer than three points, and else where its distance
/// from the line is less than so many thousandths of the noise.
pub proof fn law_trend_is_about_the_line(
    estimation: RateEstimation,
    time: u64,
    value: i64,
    sigma: u32,
    fits: bool,
)
    requires
        estimation.first <= time,
        call_ensures(RateEstimation::fits_trend, (&estimation, time, value, sigma), fits),
    ensures
        estimation.samples@.len() < 3 ==> fits,
        estimation.samples@.len() >= 3 ==> {
            let line = estimation.intercept + estimation.slope * (time - estimation.first)
                / 1_000_000;
            let reach = sigma * estimation.y_noise;
            fits <==> -reach < (value - line) * 1000 < reach
        },
{
}

/// What is asked of an estimate is what it has: how many points, the last time, the slope and its
/// bound.
pub proof fn law_estimate_is_read_out(
    estimate: RateEstimation,
    count: usize,
    time: u64,
    slope: i64,
    bound: u128,
)
    requires
        call_ensures(RateEstimation::count, (&estimate,), count),
        call_ensures(RateEstimation::last_time, (&estimate,), time),
        call_ensures(RateEstimation::slope, (&estimate,), slope),
        call_ensures(RateEstimation::rate_interval_bound, (&estimate,), bound),
    ensures
        count == estimate.samples@.len(),
        time == estimate.last,
        slope == estimate.slope,
        bound == estimate.slope_noise,
{
}

/// Deviations add up: one more point adds the square of its distance from the line, above or below.
pub proof fn law_deviations_add_up(
    points: Seq<DataPoint>,
    point: DataPoint,
    intercept: int,
    slope: int,
)
    ensures
        variance_of(Seq::<DataPoint>::empty(), intercept, slope) == 0,
        ({
            let off = point.y - (intercept + slope * point.x / 1_000_000);
            variance_of(points.push(point), intercept, slope) == variance_of(
                points,
                intercept,
                slope,
            ) + off * off
        }),
{
    assert(points.push(point).drop_last() =~= points);
    let off = point.y - (intercept + slope * point.x / 1_000_000);
    assert((-off) * (-off) == off * off) by (nonlinear_arith);
}

/// Three times are spread by the squares of what lies between any two of them.
pub proof fn law_spread_is_what_lies_between(points: Seq<DataPoint>)
    requires
        points.len() == 3,
    ensures
        ({
            let a = points[0].x as int;
            let b = points[1].x as int;
            let c = points[2].x as int;
            spread(points) == (a - b) * (a - b) + (a - c) * (a - c) + (b - c) * (b - c)
        }),
{
    let two = points.drop_last();
    let one = two.drop_last();
    let none = one.drop_last();
    assert(none =~= Seq::<DataPoint>::empty());
    assert(sum_x(none) == 0 && sum_xx(none) == 0);
    let a = points[0].x as int;
    let b = points[1].x as int;
    let c = points[2].x as int;
    assert(one.last().x == a && two.last().x == b && points.last().x == c);
    assert(sum_x(one) == a && sum_xx(one) == a * a);
    assert(sum_x(two) == a + b && sum_xx(two) == a * a + b * b);
    assert(sum_x(points) == a + b + c && sum_xx(points) == a * a + b * b + c * c);
    assert(3 * (a * a + b * b + c * c) - (a + b + c) * (a + b + c) == (a - b) * (a - b) + (a - c)
        * (a - c) + (b - c) * (b - c)) by (nonlinear_arith);
}

/// The noise of a fit is the root of the mean squared deviation, but no less than what is expected
/// of the values, and the error of the rate is the root of all of it over the root of how far the
/// times are spread, less for every point beyond two.
pub proof fn law_noise_goes_by_the_deviations(
    estimation: &mut RateEstimation,
    time: u64,
    value: i64,
    noise: u64,
    slot: Option<usize>,
    w: int,
    r: int,
)
    requires
        old(estimation).wf(),
        old(estimation).last < time,
        call_ensures(RateEstimation::add, (estimation, time, value, noise, slot), ()),
        final(estimation).samples@.len() >= 2,
    ensures
        ({
            let points = final(estimation).samples@;
            let n = points.len() as int;
            let seen = variance_of(
                points,
                final(estimation).intercept as int,
                final(estimation).slope as int,
            );
            let all = if seen < noise * noise {
                noise * noise
            } else {
                seen
            };
            let y = final(estimation).y_noise as int;
            let s = final(estimation).slope_noise as int;
            &&& y * y <= all / n < (y + 1) * (y + 1)
            &&& 0 <= w && w * w <= all < (w + 1) * (w + 1) && 1 <= r && r * r <= (n - 2) * spread(
                points,
            ) / n < (r + 1) * (r + 1) ==> s * r <= w * 1_000_000 < (s + 1) * r
        }),
{
    let points = final(estimation).samples@;
    let n = points.len() as int;
    let intercept = final(estimation).intercept as int;
    let slope = final(estimation).slope as int;
    let seen = variance_of(points, intercept, slope);
    lemma_variance_not_negative(points, intercept, slope);
    let all = adjusted_variance(points, intercept, slope, noise as int);
    assert(all / n >= 0) by (nonlinear_arith)
        requires
            all >= 0,
            n > 0,
    ;
    crate::numbers::lemma_whole_root(all / n);
    if 0 <= w && w * w <= all < (w + 1) * (w + 1) && 1 <= r && r * r <= (n - 2) * spread(points) / n
        < (r + 1) * (r + 1) {
        let inner = (n - 2) * spread(points) / n;
        assert(inner >= 0) by (nonlinear_arith)
            requires
                1 <= r,
                r * r <= inner,
        ;
        assert(crate::numbers::is_root(w, all));
        assert(crate::numbers::is_root(r, inner));
        crate::numbers::lemma_whole_root(all);
        crate::numbers::lemma_whole_root(inner);
        crate::numbers::lemma_one_root(w, crate::numbers::whole_root(all), all);
        crate::numbers::lemma_one_root(r, crate::numbers::whole_root(inner), inner);
        let s = final(estimation).slope_noise as int;
        assert(s * r <= w * 1_000_000 < (s + 1) * r) by (nonlinear_arith)
            requires
                r >= 1,
                s == w * 1_000_000 / r,
        ;
    }
}

/// Squares add up to nothing negative.
proof fn lemma_variance_not_negative(points: Seq<DataPoint>, intercept: int, slope: int)
    ensures
        variance_of(points, intercept, slope) >= 0,
    decreases points.len(),
{
    if points.len() > 0 {
        lemma_variance_not_negative(points.drop_last(), intercept, slope);
        let off = deviation_of(intercept, slope, points.last());
        assert(off * off >= 0) by (nonlinear_arith);
    }
}

} // verus!
