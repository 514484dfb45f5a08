//! The detector: its settings, auto-exposure, and the parts of the image that it looks at.
//!
//! Durations are in nanoseconds.

use vstd::prelude::*;

use crate::astro_util::ImageCoord;
use crate::image_utils::{scale_image_mut, GrayImage, Rectangle};
use crate::serve_engine::FocusAid;
use crate::solve_engine::cut_closeup;
use crate::units::MICROPIXELS_PER_PIXEL;

verus! {

/// One star, in the fixed-point form of the moving average of star counts.
pub const ONE_STAR: u128 = 4_294_967_296;

/// What other parts of the server tell the detector, and what it remembers from image to image.
#[derive(Clone, Copy, Debug, PartialEq, Eq, Structural)]
pub struct DetectEngine {
    /// Whether the exposure is adjusted. It is not while calibrating.
    pub autoexposure_enabled: bool,
    /// Whether to help the user focus.
    pub focus_mode: bool,
    /// Whether the camera looks at something bright. There are no stars to detect then.
    pub daylight_mode: bool,
    /// How many pixels across are binned into one.
    pub binning: u32,
    /// Whether the display image is sampled down once more.
    pub display_sampling: bool,
    /// The exposure found by a calibration.
    pub calibrated_exposure_duration: Option<u64>,
    /// An exposure that gave about the number of stars wanted.
    pub auto_exposure_duration: Option<u64>,
    /// How long the camera needs to process an image.
    pub camera_processing_duration: Option<u64>,
    /// The point that the user wants to see enlarged in daylight.
    pub daylight_focus_point: Option<ImageCoord>,
    /// The number of stars, averaged over recent images; zero where there is none yet.
    pub star_count_moving_average: u128,
}

impl DetectEngine {
    /// What the detector starts with.
    pub open spec fn initial() -> DetectEngine {
        DetectEngine {
            autoexposure_enabled: true,
            focus_mode: false,
            daylight_mode: false,
            binning: 1,
            display_sampling: false,
            calibrated_exposure_duration: None,
            auto_exposure_duration: None,
            camera_processing_duration: None,
            daylight_focus_point: None,
            star_count_moving_average: 0,
        }
    }

    /// What the detector starts with.
    pub fn new() -> (state: Self)
        ensures
            state == DetectEngine::initial(),
    {
        DetectEngine {
            autoexposure_enabled: true,
            focus_mode: false,
            daylight_mode: false,
            binning: 1,
            display_sampling: false,
            calibrated_exposure_duration: None,
            auto_exposure_duration: None,
            camera_processing_duration: None,
            daylight_focus_point: None,
            star_count_moving_average: 0,
        }
    }

    /// Forgets what was learned with another camera.
    pub fn replace_camera(&mut self)
        ensures
            *final(self) == (DetectEngine {
                auto_exposure_duration: None,
                camera_processing_duration: None,
                star_count_moving_average: 0,
                ..*old(self)
            }),
    {
        self.auto_exposure_duration = None;
        self.camera_processing_duration = None;
        self.star_count_moving_average = 0;
    }

    /// Turns auto-exposure on or off.
    pub fn set_autoexposure_enabled(&mut self, enabled: bool)
        ensures
            *final(self) == (DetectEngine {
                autoexposure_enabled: enabled,
                auto_exposure_duration: None,
                ..*old(self)
            }),
    {
        self.autoexposure_enabled = enabled;
        self.auto_exposure_duration = None;
    }

    /// Sets how images are binned.
    pub fn set_binning(&mut self, binning: u32, display_sampling: bool)
        ensures
            *final(self) == (DetectEngine { binning, display_sampling, ..*old(self) }),
    {
        self.binning = binning;
        self.display_sampling = display_sampling;
    }

    /// Turns help with focusing on or off. When it goes off stars are counted anew.
    pub fn set_focus_mode(&mut self, enabled: bool)
        ensures
            *final(self) == (DetectEngine {
                focus_mode: enabled,
                star_count_moving_average: if enabled {
                    old(self).star_count_moving_average
                } else {
                    0
                },
                ..*old(self)
            }),
    {
        self.focus_mode = enabled;
        if !enabled {
            self.star_count_moving_average = 0;
        }
    }

    /// Turns daylight mode on or off. When it goes off stars are counted anew.
    pub fn set_daylight_mode(&mut self, enabled: bool)
        ensures
            *final(self) == (DetectEngine {
                daylight_mode: enabled,
                auto_exposure_duration: None,
                star_count_moving_average: if enabled {
                    old(self).star_count_moving_average
                } else {
                    0
                },
                ..*old(self)
            }),
    {
        self.daylight_mode = enabled;
        if !enabled {
            self.star_count_moving_average = 0;
        }
        self.auto_exposure_duration = None;
    }

    /// Sets the point that the user wants to see enlarged in daylight.
    pub fn set_daylight_focus_point(&mut self, point: ImageCoord)
        ensures
            *final(self) == (DetectEngine { daylight_focus_point: Some(point), ..*old(self) }),
    {
        self.daylight_focus_point = Some(point);
    }

    /// Sets the exposure found by a calibration.
    pub fn set_calibrated_exposure_duration(&mut self, calibrated_exposure_duration: Option<u64>)
        ensures
            *final(self) == (DetectEngine { calibrated_exposure_duration, ..*old(self) }),
    {
        self.calibrated_exposure_duration = calibrated_exposure_duration;
    }

    /// Takes note of how long the camera needs to process an image, once.
    pub fn note_processing_duration(&mut self, duration: Option<u64>)
        ensures
            *final(self) == (DetectEngine {
                camera_processing_duration: match old(self).camera_processing_duration {
                    Some(known) => Some(known),
                    None => duration,
                },
                ..*old(self)
            }),
    {
        if self.camera_processing_duration.is_none() {
            self.camera_processing_duration = duration;
        }
    }
}

/// The moving average of star counts after one more image: the mean of the average before and
/// the count, or the count where there was no average.
pub open spec fn averaged(average: int, stars: int) -> int {
    if average == 0 {
        stars * ONE_STAR
    } else {
        (stars * ONE_STAR + average) / 2
    }
}

/// Takes a star count into the moving average.
pub fn update_star_count_moving_average(state: &mut DetectEngine, stars: usize) -> (average: u128)
    ensures
        average == averaged(old(state).star_count_moving_average as int, stars as int),
        *final(state) == (DetectEngine { star_count_moving_average: average, ..*old(state) }),
{
    let counted: u128 = stars as u128 * ONE_STAR;
    if state.star_count_moving_average == 0 {
        state.star_count_moving_average = counted;
    } else {
        state.star_count_moving_average = counted / 2 + state.star_count_moving_average / 2;
    }
    state.star_count_moving_average
}

/// An average that only counts of four stars and more went into is never below four.
pub proof fn law_average_stays_above_four(average: int, stars: int)
    requires
        average == 0 || average >= 4 * ONE_STAR,
        stars >= 4,
    ensures
        averaged(average, stars) >= 4 * ONE_STAR,
{
}

/// A duration times a fraction, to the nearest nanosecond.
pub open spec fn times_fraction(duration: int, num: int, den: int) -> int {
    (duration * num * 2 + den) / (den * 2)
}

/// A duration times a fraction.
fn multiply(duration: u64, num: u64, den: u128) -> (r: u128)
    requires
        num <= 0x7fff_ffff * ONE_STAR,
        0 < den,
    ensures
        r == times_fraction(duration as int, num as int, den as int),
{
    proof {
        assert(duration * num <= 0xffff_ffff_ffff_ffff * 0x7fff_ffff_0000_0000)
            by (nonlinear_arith)
            requires
                0 <= duration <= 0xffff_ffff_ffff_ffff,
                0 <= num <= 0x7fff_ffff_0000_0000,
        ;
    }
    let product: u128 = duration as u128 * num as u128;
    let whole: u128 = product / den;
    let rest: u128 = product % den;
    proof {
        let p = product as int;
        let d = den as int;
        let q = whole as int;
        let r = rest as int;
        vstd::arithmetic::div_mod::lemma_fundamental_div_mod(p, d);
        let up: int = if r >= d - r { 1 } else { 0 };
        assert(p * 2 + d == (q + up) * (d * 2) + (2 * r + d - up * (d * 2))) by (nonlinear_arith)
            requires
                p == d * q + r,
        ;
        assert(up * (d * 2) == (if r >= d - r { d * 2 } else { 0 })) by (nonlinear_arith)
            requires
                up == (if r >= d - r { 1int } else { 0int }),
        ;
        vstd::arithmetic::div_mod::lemma_fundamental_div_mod_converse(
            p * 2 + d,
            d * 2,
            q + up,
            2 * r + d - up * (d * 2),
        );
        assert(q <= p) by (nonlinear_arith)
            requires
                p == d * q + r,
                r >= 0,
                d >= 1,
                p >= 0,
        ;
    }
    if rest >= den - rest {
        whole + 1
    } else {
        whole
    }
}

/// The fraction by which daylight mode corrects the exposure: the bright part of the image is
/// pushed towards an upper middle level; where it is saturated the exposure goes down fast.
pub open spec fn daylight_correction(bright_value: u8) -> (int, int) {
    if bright_value > 250 {
        (1, 10)
    } else {
        (220, bright_value as int)
    }
}

/// The fraction by which focus assist mode corrects the exposure, from the mean of the image and
/// the brightest point, both in thousandths. A bright sky is kept from whiting out the image;
/// otherwise the brightest point is aimed at a moderate level, which allows short exposures.
pub open spec fn focus_correction(mean: int, peak: int) -> (int, int) {
    if mean > 250_000 {
        (1, 20)
    } else if mean > 32_000 {
        (32_000, mean)
    } else {
        (64_000, if peak < 1_000 { 1_000 } else { peak })
    }
}

/// The exposure corrected by a fraction, unless the fraction is close to one.
pub open spec fn corrected(exposure: int, correction: (int, int)) -> int {
    if correction.0 * 10 < correction.1 * 7 || correction.0 * 10 > correction.1 * 13 {
        times_fraction(exposure, correction.0, correction.1)
    } else {
        exposure
    }
}

/// What auto-exposure goes by.
#[derive(Clone, Copy, Debug, PartialEq, Eq, Structural)]
pub struct ExposureInput {
    /// The exposure of the image.
    pub exposure: u64,
    /// Whether the image was taken with the camera's current settings.
    pub params_accurate: bool,
    /// How many stars were detected.
    pub stars: usize,
    /// How many stars are wanted.
    pub star_count_goal: i32,
    /// The mean of the image, cut off to a whole pixel value.
    pub mean: u8,
    /// The exposure to start with.
    pub initial_exposure: u64,
    /// The shortest exposure.
    pub min_exposure: u64,
    /// The longest exposure.
    pub max_exposure: u64,
}

/// The mean above which an exposure is not made longer to find more stars.
pub const BRIGHTNESS_LIMIT: u8 = 192;

/// The exposure to start from: the calibrated one, or else the initial one.
pub open spec fn baseline(state: DetectEngine, input: ExposureInput) -> int {
    match state.calibrated_exposure_duration {
        Some(calibrated) => calibrated as int,
        None => input.initial_exposure as int,
    }
}

/// The exposure to fall back on: one that was good, or else the one to start from.
pub open spec fn fallback(state: DetectEngine, input: ExposureInput) -> int {
    match state.auto_exposure_duration {
        Some(good) => good as int,
        None => baseline(state, input),
    }
}

/// Whether the average is below the number of stars wanted.
pub open spec fn below_goal(average: int, goal: int) -> bool {
    goal < 0 || (goal > 0 && average < goal * ONE_STAR)
}

/// Whether the average is too far from the number of stars wanted: below eight tenths of it, or
/// above sixteen tenths.
pub open spec fn far_from_goal(average: int, goal: int) -> bool {
    goal <= 0 || average * 10 < goal * 8 * ONE_STAR || average * 10 > goal * 16 * ONE_STAR
}

/// The exposure that should give the number of stars wanted, where stars are as many as the
/// exposure is long. Bounded to three stops from the calibrated exposure, and no shorter than
/// the camera needs to process an image.
pub open spec fn proportional(state: DetectEngine, input: ExposureInput, average: int) -> int {
    let wanted = if input.star_count_goal <= 0 {
        0
    } else {
        times_fraction(input.exposure as int, input.star_count_goal * ONE_STAR, average)
    };
    let base = baseline(state, input);
    let bounded = match state.calibrated_exposure_duration {
        Some(_) => if wanted > base * 8 {
            base * 8
        } else if wanted < (base + 4) / 8 {
            (base + 4) / 8
        } else {
            wanted
        },
        None => wanted,
    };
    match state.camera_processing_duration {
        Some(needed) => if bounded < needed {
            needed as int
        } else {
            bounded
        },
        None => bounded,
    }
}

/// The exposure that the stars of an image ask for. With fewer than four, likely during a slew,
/// a known good one is used.
pub open spec fn star_exposure(state: DetectEngine, input: ExposureInput) -> int {
    let average = averaged(state.star_count_moving_average as int, input.stars as int);
    let goal = input.star_count_goal as int;
    if input.stars < 4 {
        fallback(state, input)
    } else if !input.params_accurate {
        input.exposure as int
    } else if average < 4 * ONE_STAR {
        fallback(state, input)
    } else if below_goal(average, goal) && input.mean > BRIGHTNESS_LIMIT {
        fallback(state, input)
    } else if far_from_goal(average, goal) {
        proportional(state, input, average)
    } else {
        input.exposure as int
    }
}

/// Whether the exposure of an image is good enough to be remembered.
pub open spec fn is_good_exposure(state: DetectEngine, input: ExposureInput) -> bool {
    let average = averaged(state.star_count_moving_average as int, input.stars as int);
    let goal = input.star_count_goal as int;
    &&& input.stars >= 4
    &&& input.params_accurate
    &&& average >= 4 * ONE_STAR
    &&& !(below_goal(average, goal) && input.mean > BRIGHTNESS_LIMIT)
    &&& !far_from_goal(average, goal)
}

/// An exposure within the limits.
pub open spec fn within_limits(exposure: int, input: ExposureInput) -> int {
    let longer = if exposure < input.min_exposure {
        input.min_exposure as int
    } else {
        exposure
    };
    if longer > input.max_exposure {
        input.max_exposure as int
    } else {
        longer
    }
}

/// The exposure to set, if it is to be changed.
pub open spec fn exposure_to_set(
    enabled: bool,
    update: bool,
    input: ExposureInput,
    wanted: int,
) -> Option<u64> {
    let new = within_limits(wanted, input);
    if update && enabled && new != input.exposure {
        Some(new as u64)
    } else {
        None
    }
}

/// Decides whether to change the exposure.
fn decide_exposure(enabled: bool, update: bool, input: &ExposureInput, wanted: u128) -> (r: Option<
    u64,
>)
    ensures
        r == exposure_to_set(enabled, update, *input, wanted as int),
{
    let mut new: u128 = wanted;
    if new < input.min_exposure as u128 {
        new = input.min_exposure as u128;
    }
    if new > input.max_exposure as u128 {
        new = input.max_exposure as u128;
    }
    if update && enabled && new != input.exposure as u128 {
        Some(new as u64)
    } else {
        None
    }
}

/// What a detector learns from the stars of an image: their number, where the image shows the
/// camera's current settings and there are four at least, and a good exposure.
pub open spec fn engine_after_stars(state: DetectEngine, input: ExposureInput) -> DetectEngine {
    DetectEngine {
        star_count_moving_average: if input.stars >= 4 && input.params_accurate {
            averaged(state.star_count_moving_average as int, input.stars as int) as u128
        } else {
            state.star_count_moving_average
        },
        auto_exposure_duration: if is_good_exposure(state, input) {
            Some(input.exposure)
        } else {
            state.auto_exposure_duration
        },
        ..state
    }
}

/// Decides the exposure by the stars of an image, and takes note of what is learned. While the
/// image does not show the camera's current settings only a lack of stars changes the exposure.
pub fn auto_expose_for_stars(state: &mut DetectEngine, input: &ExposureInput) -> (r: Option<u64>)
    ensures
        r == exposure_to_set(
            old(state).autoexposure_enabled,
            input.params_accurate || input.stars < 4,
            *input,
            star_exposure(*old(state), *input),
        ),
        *final(state) == engine_after_stars(*old(state), *input),
{
    let base: u64 = match state.calibrated_exposure_duration {
        Some(calibrated) => calibrated,
        None => input.initial_exposure,
    };
    let known_good: u64 = match state.auto_exposure_duration {
        Some(good) => good,
        None => base,
    };
    let enabled: bool = state.autoexposure_enabled;
    if input.stars < 4 {
        return decide_exposure(enabled, true, input, known_good as u128);
    }
    if !input.params_accurate {
        return decide_exposure(enabled, false, input, input.exposure as u128);
    }
    let average: u128 = update_star_count_moving_average(state, input.stars);
    if average < 4 * ONE_STAR {
        return decide_exposure(enabled, true, input, known_good as u128);
    }
    let goal: i128 = input.star_count_goal as i128 * 4_294_967_296;
    let far: u128 = 0x10_0000_0000_0000_0000_0000;
    let count: i128 = if average < far { average as i128 } else { far as i128 };
    let below: bool = input.star_count_goal < 0 || (input.star_count_goal > 0 && count < goal);
    if below && input.mean > BRIGHTNESS_LIMIT {
        return decide_exposure(enabled, true, input, known_good as u128);
    }
    if input.star_count_goal <= 0 || count * 10 < goal * 8 || count * 10 > goal * 16 {
        let mut wanted: u128 = 0;
        if input.star_count_goal > 0 {
            wanted = multiply(input.exposure, input.star_count_goal as u64 * 4_294_967_296, average);
        }
        if state.calibrated_exposure_duration.is_some() {
            let most: u128 = base as u128 * 8;
            let least: u128 = (base as u128 + 4) / 8;
            if wanted > most {
                wanted = most;
            } else if wanted < least {
                wanted = least;
            }
        }
        if let Some(needed) = state.camera_processing_duration {
            if wanted < needed as u128 {
                wanted = needed as u128;
            }
        }
        assert(wanted == proportional(*old(state), *input, average as int));
        return decide_exposure(enabled, true, input, wanted);
    }
    state.auto_exposure_duration = Some(input.exposure);
    decide_exposure(enabled, true, input, input.exposure as u128)
}

/// The exposure that focusing or daylight asks for.
pub open spec fn aid_exposure(
    daylight_mode: bool,
    exposure: int,
    bright_value: u8,
    mean: int,
    peak: int,
) -> int {
    corrected(
        exposure,
        if daylight_mode {
            daylight_correction(if bright_value < 1 { 1 } else { bright_value })
        } else {
            focus_correction(mean, peak)
        },
    )
}

/// Decides the exposure while focusing or in daylight: from the pixel value that nine tenths of
/// the image stay below, from the mean of the image and from its brightest point, the latter two
/// in thousandths.
pub fn auto_expose_for_aid(
    state: &DetectEngine,
    input: &ExposureInput,
    bright_value: u8,
    mean: u32,
    peak: u32,
) -> (r: Option<u64>)
    ensures
        r == exposure_to_set(
            state.autoexposure_enabled,
            input.params_accurate,
            *input,
            aid_exposure(
                state.daylight_mode,
                input.exposure as int,
                bright_value,
                mean as int,
                peak as int,
            ),
        ),
{
    let (num, den): (u64, u128) = if state.daylight_mode {
        let bright: u8 = if bright_value < 1 { 1 } else { bright_value };
        if bright > 250 {
            (1, 10)
        } else {
            (220, bright as u128)
        }
    } else if mean > 250_000 {
        (1, 20)
    } else if mean > 32_000 {
        (32_000, mean as u128)
    } else {
        (64_000, if peak < 1_000 { 1_000 } else { peak as u128 })
    };
    let mut wanted: u128 = input.exposure as u128;
    if num as u128 * 10 < den * 7 || num as u128 * 10 > den * 13 {
        wanted = multiply(input.exposure, num, den);
    }
    decide_exposure(state.autoexposure_enabled, input.params_accurate, input, wanted)
}

/// An exposure that is set lies within the limits, and differs from the one before.
pub proof fn law_exposure_within_limits(
    enabled: bool,
    update: bool,
    input: ExposureInput,
    wanted: int,
)
    requires
        input.min_exposure <= input.max_exposure,
    ensures
        exposure_to_set(enabled, update, input, wanted) matches Some(new) ==> {
            &&& input.min_exposure <= new <= input.max_exposure
            &&& new != input.exposure
            &&& enabled && update
        },
{
}

/// Where the exposure was calibrated, the one that the stars ask for lies within three stops of
/// it, unless the camera's processing takes longer.
pub proof fn law_exposure_near_calibrated(state: DetectEngine, input: ExposureInput, average: int)
    requires
        state.calibrated_exposure_duration is Some,
        average >= 4 * ONE_STAR,
    ensures
        ({
            let base = baseline(state, input);
            let new = proportional(state, input, average);
            ||| (base + 4) / 8 <= new <= base * 8
            ||| (base < 1 && new <= 1)
            ||| state.camera_processing_duration == Some(new as u64)
        }),
{
}

/// The pixel value to show as white: the mean of the peaks of the ten brightest stars, or the
/// largest value where there are none.
pub open spec fn display_peak(peaks: Seq<u8>) -> int {
    if peaks.len() == 0 {
        255
    } else {
        let count: int = if peaks.len() < 10 { peaks.len() as int } else { 10 };
        sum_of(peaks.take(count)) / count
    }
}

/// The sum of pixel values.
pub open spec fn sum_of(values: Seq<u8>) -> int
    decreases values.len(),
{
    if values.len() == 0 {
        0
    } else {
        sum_of(values.drop_last()) + values.last()
    }
}

/// The pixel values to show as black and as white, from the peaks of the stars, the brightest
/// star first, and the level of the background. Black never lies above white.
pub fn display_levels(peaks: &Vec<u8>, background: u8) -> (r: (u8, u8))
    ensures
        r.1 == display_peak(peaks@),
        peaks@.len() == 0 ==> r.1 == 255,
        r.0 == (if background > r.1 {
            r.1
        } else {
            background
        }),
{
    let mut peak_value: u8 = 255;
    if peaks.len() > 0 {
        let count: usize = if peaks.len() < 10 { peaks.len() } else { 10 };
        let mut sum: u32 = 0;
        let mut i: usize = 0;
        while i < count
            invariant
                i <= count <= peaks@.len(),
                count <= 10,
                sum == sum_of(peaks@.take(i as int)),
                sum <= 255 * i,
            decreases count - i,
        {
            assert(peaks@.take(i + 1).drop_last() =~= peaks@.take(i as int));
            sum = sum + peaks[i] as u32;
            i = i + 1;
        }
        assert(sum as int / count as int <= 255) by (nonlinear_arith)
            requires
                0 <= sum <= 255 * count,
                count > 0,
        ;
        peak_value = (sum / count as u32) as u8;
    }
    (if background > peak_value { peak_value } else { background }, peak_value)
}

/// How strong the contrast is, in thousandths: none where dark equals bright, full where dark is
/// black.
pub fn contrast_ratio(peak_value: u8, black_level: u8) -> (ratio: u32)
    requires
        black_level <= peak_value,
        peak_value > 0,
    ensures
        ratio == (peak_value - black_level) * 1000 / peak_value as int,
        ratio <= 1000,
{
    let ratio: u32 = (peak_value - black_level) as u32 * 1000 / peak_value as u32;
    assert((peak_value - black_level) * 1000 / (peak_value as int) <= 1000) by (nonlinear_arith)
        requires
            0 <= peak_value - black_level <= peak_value,
            peak_value > 0,
    ;
    ratio
}

/// The part that two rectangles share, if any.
pub open spec fn shared_part(a: Rectangle, b: Rectangle) -> Option<Rectangle> {
    let left = if a.origin_x > b.origin_x { a.origin_x as int } else { b.origin_x as int };
    let top = if a.origin_y > b.origin_y { a.origin_y as int } else { b.origin_y as int };
    let a_right = a.origin_x + a.width;
    let b_right = b.origin_x + b.width;
    let a_bottom = a.origin_y + a.height;
    let b_bottom = b.origin_y + b.height;
    let right = if a_right < b_right { a_right } else { b_right };
    let bottom = if a_bottom < b_bottom { a_bottom } else { b_bottom };
    if right > left && bottom > top {
        Some(
            Rectangle {
                origin_x: left as i32,
                origin_y: top as i32,
                width: (right - left) as i32,
                height: (bottom - top) as i32,
            },
        )
    } else {
        None
    }
}

/// Whether a rectangle stays within the range of its numbers.
pub open spec fn rectangle_fits(r: Rectangle) -> bool {
    &&& 0 <= r.width
    &&& 0 <= r.height
    &&& -0x3fff_ffff <= r.origin_x <= 0x3fff_ffff
    &&& -0x3fff_ffff <= r.origin_y <= 0x3fff_ffff
    &&& r.width <= 0x3fff_ffff
    &&& r.height <= 0x3fff_ffff
}

/// Finds the part that two rectangles share.
pub fn intersect(a: Rectangle, b: Rectangle) -> (shared: Option<Rectangle>)
    requires
        rectangle_fits(a),
        rectangle_fits(b),
    ensures
        shared == shared_part(a, b),
{
    let left: i32 = if a.origin_x > b.origin_x { a.origin_x } else { b.origin_x };
    let top: i32 = if a.origin_y > b.origin_y { a.origin_y } else { b.origin_y };
    let a_right: i32 = a.origin_x + a.width;
    let b_right: i32 = b.origin_x + b.width;
    let a_bottom: i32 = a.origin_y + a.height;
    let b_bottom: i32 = b.origin_y + b.height;
    let right: i32 = if a_right < b_right { a_right } else { b_right };
    let bottom: i32 = if a_bottom < b_bottom { a_bottom } else { b_bottom };
    if right > left && bottom > top {
        Some(
            Rectangle {
                origin_x: left,
                origin_y: top,
                width: right - left,
                height: bottom - top,
            },
        )
    } else {
        None
    }
}

/// Whether a pixel lies in a rectangle.
pub open spec fn has_pixel(r: Rectangle, x: int, y: int) -> bool {
    &&& r.origin_x <= x < r.origin_x + r.width
    &&& r.origin_y <= y < r.origin_y + r.height
}

/// A pixel lies in the shared part exactly when it lies in both rectangles.
pub proof fn law_shared_part(a: Rectangle, b: Rectangle, x: int, y: int)
    requires
        rectangle_fits(a),
        rectangle_fits(b),
    ensures
        has_pixel(a, x, y) && has_pixel(b, x, y) <==> (shared_part(a, b) matches Some(shared)
            && has_pixel(shared, x, y)),
{
}

/// How far the region of interest stays away from the edges of the central square.
pub open spec fn inset_for(binning: int, display_sampling: bool) -> int {
    8 * adjusted_binning(binning, display_sampling)
}

/// How many pixels across make a pixel of the display image.
pub open spec fn adjusted_binning(binning: int, display_sampling: bool) -> int {
    if display_sampling {
        binning * 2
    } else {
        binning
    }
}

/// The region that focusing and daylight mode look at: the central square, inset a little.
pub open spec fn region_of_interest(width: int, height: int, inset: int) -> Rectangle {
    Rectangle {
        origin_x: ((width - height) / 2 + inset) as i32,
        origin_y: inset as i32,
        width: (height - 2 * inset) as i32,
        height: (height - 2 * inset) as i32,
    }
}

/// Finds the region that focusing and daylight mode look at.
pub fn roi_region(width: u32, height: u32, binning: u32, display_sampling: bool) -> (region:
    Rectangle)
    requires
        height <= width <= 0x3fff_ffff,
        2 * inset_for(binning as int, display_sampling) < height,
    ensures
        region == region_of_interest(
            width as int,
            height as int,
            inset_for(binning as int, display_sampling),
        ),
        rectangle_fits(region),
        region.width > 0,
        region.origin_x + region.width <= width,
        region.origin_y + region.height <= height,
{
    let adjusted: i32 = if display_sampling { binning as i32 * 2 } else { binning as i32 };
    let inset: i32 = 8 * adjusted;
    let size: i32 = height as i32 - 2 * inset;
    Rectangle {
        origin_x: ((width - height) / 2) as i32 + inset,
        origin_y: inset,
        width: size,
        height: size,
    }
}

/// The central part of the image by which contrast is judged: an eighth as high.
pub fn contrast_region(width: u32, height: u32) -> (region: Rectangle)
    requires
        height / 8 <= width <= 0x3fff_ffff,
        height <= 0x3fff_ffff,
    ensures
        region.width == height / 8,
        region.height == height / 8,
        region.origin_x == (width - height / 8) / 2,
        region.origin_y == (height - height / 8) / 2,
{
    let size: u32 = height / 8;
    Rectangle {
        origin_x: ((width - size) / 2) as i32,
        origin_y: ((height - size) / 2) as i32,
        width: size as i32,
        height: size as i32,
    }
}

/// The part of the image around its brightest point, given in whole pixels, that is shown
/// enlarged while focusing.
pub fn peak_region(
    peak_x: i32,
    peak_y: i32,
    width: u32,
    height: u32,
    binning: u32,
    display_sampling: bool,
) -> (region: Option<Rectangle>)
    requires
        width <= 0x3fff_ffff,
        height <= 0x3fff_ffff,
        0 <= peak_x < width,
        0 <= peak_y < height,
        1 <= binning,
        15 * adjusted_binning(binning as int, display_sampling) <= 0x3fff_ffff,
    ensures
        ({
            let size = 15 * adjusted_binning(binning as int, display_sampling);
            region == shared_part(
                Rectangle {
                    origin_x: (peak_x - size / 2) as i32,
                    origin_y: (peak_y - size / 2) as i32,
                    width: size as i32,
                    height: size as i32,
                },
                Rectangle {
                    origin_x: 0,
                    origin_y: 0,
                    width: width as i32,
                    height: height as i32,
                },
            )
        }),
        region matches Some(r) && has_pixel(r, peak_x as int, peak_y as int) && lies_in(
            r,
            width,
            height,
        ),
{
    let adjusted: i32 = if display_sampling { binning as i32 * 2 } else { binning as i32 };
    let size: i32 = 15 * adjusted;
    let around = Rectangle {
        origin_x: peak_x - size / 2,
        origin_y: peak_y - size / 2,
        width: size,
        height: size,
    };
    let image = Rectangle { origin_x: 0, origin_y: 0, width: width as i32, height: height as i32 };
    intersect(around, image)
}

/// A number kept from below a least one, and then from above a greatest one.
pub open spec fn bounded(value: int, least: int, most: int) -> int {
    let up = if value < least {
        least
    } else {
        value
    };
    if up > most {
        most
    } else {
        up
    }
}

/// The part of the image around a point, given in whole pixels, that is shown enlarged in
/// daylight, kept within the region of interest. Without a point its center is taken.
pub open spec fn daylight_zoom_region(roi: Rectangle, point: Option<(i32, i32)>, size: int)
    -> Option<Rectangle> {
    let x = match point {
        Some(p) => p.0 as int,
        None => roi.origin_x + roi.width / 2,
    };
    let y = match point {
        Some(p) => p.1 as int,
        None => roi.origin_y + roi.height / 2,
    };
    shared_part(
        Rectangle {
            origin_x: bounded(
                x - size / 2,
                roi.origin_x as int,
                roi.origin_x + roi.width - 1 - size,
            ) as i32,
            origin_y: bounded(
                y - size / 2,
                roi.origin_y as int,
                roi.origin_y + roi.height - 1 - size,
            ) as i32,
            width: size as i32,
            height: size as i32,
        },
        roi,
    )
}

/// Finds the part of the image that is shown enlarged in daylight.
pub fn daylight_region(
    roi: Rectangle,
    point: Option<(i32, i32)>,
    binning: u32,
    display_sampling: bool,
) -> (region: Option<Rectangle>)
    requires
        rectangle_fits(roi),
        roi.origin_x >= 0,
        roi.origin_y >= 0,
        roi.width > 1,
        roi.height > 1,
        roi.origin_x + roi.width <= 0x3fff_ffff,
        roi.origin_y + roi.height <= 0x3fff_ffff,
        1 <= binning,
        30 * adjusted_binning(binning as int, display_sampling) <= 0x3fff_ffff,
        point matches Some(p) ==> -0x3fff_ffff <= p.0 <= 0x3fff_ffff && -0x3fff_ffff <= p.1
            <= 0x3fff_ffff,
    ensures
        region == daylight_zoom_region(
            roi,
            point,
            30 * adjusted_binning(binning as int, display_sampling),
        ),
        region matches Some(r) && {
            &&& r.width > 0 && r.height > 0
            &&& r.origin_x >= roi.origin_x && r.origin_y >= roi.origin_y
            &&& r.origin_x + r.width <= roi.origin_x + roi.width
            &&& r.origin_y + r.height <= roi.origin_y + roi.height
        },
{
    let adjusted: i32 = if display_sampling { binning as i32 * 2 } else { binning as i32 };
    let size: i32 = 30 * adjusted;
    let (x, y): (i32, i32) = match point {
        Some(p) => p,
        None => (roi.origin_x + roi.width / 2, roi.origin_y + roi.height / 2),
    };
    let mut left: i32 = x - size / 2;
    if left < roi.origin_x {
        left = roi.origin_x;
    }
    if left > roi.origin_x + roi.width - 1 - size {
        left = roi.origin_x + roi.width - 1 - size;
    }
    let mut top: i32 = y - size / 2;
    if top < roi.origin_y {
        top = roi.origin_y;
    }
    if top > roi.origin_y + roi.height - 1 - size {
        top = roi.origin_y + roi.height - 1 - size;
    }
    intersect(Rectangle { origin_x: left, origin_y: top, width: size, height: size }, roi)
}

/// Whether stars are looked for: not while focusing or in daylight.
pub fn looks_for_stars(engine: &DetectEngine) -> (looks: bool)
    ensures
        looks == (!engine.focus_mode && !engine.daylight_mode),
{
    !engine.focus_mode && !engine.daylight_mode
}

/// Whether an exposure that is set, if one is, keeps to the limits, where these are in order. None
/// is set while auto-exposure is off, nor the one that the image had.
pub open spec fn is_exposure_kept(
    engine: DetectEngine,
    input: ExposureInput,
    set: Option<u64>,
) -> bool {
    set matches Some(exposure) ==> {
        &&& engine.autoexposure_enabled
        &&& exposure != input.exposure
        &&& input.min_exposure <= input.max_exposure ==> input.min_exposure <= exposure
            <= input.max_exposure
    }
}

/// What comes of an image in which stars were looked for.
#[derive(Clone, Copy, Debug, PartialEq, Eq, Structural)]
pub struct StarCycle {
    /// The exposure to set, if it is to be changed.
    pub exposure: Option<u64>,
    /// The pixel value to show as black.
    pub black_level: u8,
    /// The pixel value to show as white.
    pub peak_value: u8,
}

/// Deals with an image in which stars were looked for: from the peaks of the stars, the brightest
/// star first, and the level of the background.
pub fn star_cycle(
    engine: &mut DetectEngine,
    input: &ExposureInput,
    peaks: &Vec<u8>,
    background: u8,
) -> (cycle: StarCycle)
    requires
        !old(engine).focus_mode,
        !old(engine).daylight_mode,
        input.stars == peaks@.len(),
    ensures
        cycle.exposure == exposure_to_set(
            old(engine).autoexposure_enabled,
            input.params_accurate || input.stars < 4,
            *input,
            star_exposure(*old(engine), *input),
        ),
        cycle.peak_value == display_peak(peaks@),
        input.stars == 0 ==> cycle.peak_value == 255,
        cycle.black_level == (if background > cycle.peak_value {
            cycle.peak_value
        } else {
            background
        }),
        *final(engine) == engine_after_stars(*old(engine), *input),
        is_exposure_kept(*old(engine), *input, cycle.exposure),
{
    let (black_level, peak_value) = display_levels(peaks, background);
    let exposure: Option<u64> = auto_expose_for_stars(engine, input);
    StarCycle { exposure, black_level, peak_value }
}

/// What was measured in an image while focusing or in daylight.
#[derive(Clone, Copy, Debug, PartialEq, Eq, Structural)]
pub struct FocusLevels {
    /// The level that nearly all of the region of interest stays below.
    pub peak_level: u8,
    /// The level of its background.
    pub background_level: u8,
    /// The level that nine tenths of it stay below.
    pub bright_level: u8,
    /// Its mean, in thousandths.
    pub mean: u32,
    /// The value of its brightest point, in thousandths.
    pub peak_value: u32,
    /// Where its brightest point is.
    pub peak_position: ImageCoord,
    /// The level that nearly all of the contrast region stays below.
    pub contrast_peak: u8,
    /// The level of the contrast region's background.
    pub contrast_background: u8,
}

/// Whether a function gives the level that some parts in a thousand of the pixels stay below: for
/// every number of parts, always alike, and none lower for more parts.
pub open spec fn is_level_function<F: Fn(u32) -> u8>(level: F) -> bool {
    &&& forall|parts: (u32,)| #[trigger] call_requires(level, parts)
    &&& forall|a: (u32,), b: (u32,), x: u8, y: u8|
        #[trigger] call_ensures(level, a, x) && #[trigger] call_ensures(level, b, y) && a.0 <= b.0
            ==> x <= y
}

/// The level that some parts in a thousand of the pixels stay below.
pub open spec fn level_at<F: Fn(u32) -> u8>(level: F, parts: u32) -> u8 {
    choose|r: u8| call_ensures(level, (parts,), r)
}

/// What is measured while focusing or in daylight, from the levels of the region of interest and
/// of the contrast region. The background of a dark sky is most of the image, in daylight it is
/// what hardly anything is darker than.
pub open spec fn focus_levels_of<F: Fn(u32) -> u8, G: Fn(u32) -> u8>(
    daylight_mode: bool,
    level: F,
    contrast_level: G,
    mean: u32,
    peak_value: u32,
    peak_position: ImageCoord,
) -> FocusLevels {
    FocusLevels {
        peak_level: level_at(level, 999),
        background_level: level_at(level, if daylight_mode { 1 } else { 800 }),
        bright_level: level_at(level, 900),
        mean,
        peak_value,
        peak_position,
        contrast_peak: level_at(contrast_level, 990),
        contrast_background: level_at(contrast_level, if daylight_mode { 10 } else { 600 }),
    }
}

/// Measures an image while focusing or in daylight.
pub fn measure_levels<F: Fn(u32) -> u8, G: Fn(u32) -> u8>(
    daylight_mode: bool,
    level: &F,
    contrast_level: &G,
    mean: u32,
    peak_value: u32,
    peak_position: ImageCoord,
) -> (levels: FocusLevels)
    requires
        is_level_function(*level),
        is_level_function(*contrast_level),
    ensures
        levels == focus_levels_of(
            daylight_mode,
            *level,
            *contrast_level,
            mean,
            peak_value,
            peak_position,
        ),
        levels.contrast_background <= levels.contrast_peak,
{
    let dark: u32 = if daylight_mode { 1 } else { 800 };
    let dim: u32 = if daylight_mode { 10 } else { 600 };
    FocusLevels {
        peak_level: level(999),
        background_level: level(dark),
        bright_level: level(900),
        mean,
        peak_value,
        peak_position,
        contrast_peak: contrast_level(990),
        contrast_background: contrast_level(dim),
    }
}

/// The levels between which the part that is shown enlarged in daylight is stretched, from those
/// of that part: what hardly anything is darker or brighter than.
pub fn daylight_stretch<F: Fn(u32) -> u8>(level: &F) -> (r: (u8, u8))
    requires
        is_level_function(*level),
    ensures
        r == (level_at(*level, 1), above_black(level_at(*level, 999))),
{
    let black: u8 = level(1);
    let white: u8 = level(999);
    (black, if white < 1 { 1 } else { white })
}

/// The part of the image that helps to focus, and whether its rows are normalized: those around
/// the brightest point are where that is wanted, those shown in daylight are not.
pub open spec fn focus_part(aid: FocusAid, normalize_rows: bool) -> Option<(Rectangle, bool)> {
    match (aid.peak_image_region, aid.daylight_focus_zoom_region) {
        (Some(region), _) => Some((region, normalize_rows)),
        (None, Some(region)) => Some((region, false)),
        (None, None) => None,
    }
}

/// Cuts the part that helps to focus out of an image.
pub fn cut_focus_image(image: &GrayImage, aid: &FocusAid, normalize_rows: bool) -> (part: Option<
    GrayImage,
>)
    requires
        image.wf(),
        aid.peak_image_region matches Some(region) ==> lies_in(region, image.width, image.height),
        aid.daylight_focus_zoom_region matches Some(region) ==> lies_in(
            region,
            image.width,
            image.height,
        ),
    ensures
        match focus_part(*aid, normalize_rows) {
            Some((region, normalized)) => part matches Some(part) && {
                &&& part.wf()
                &&& part.width == region.width
                &&& part.height == region.height
                &&& exists|cut: GrayImage| #[trigger]
                    crate::solve_engine::is_cut(cut, *image, region)
                        && crate::solve_engine::is_prepared(part, cut, normalized)
            },
            None => part is None,
        },
{
    match aid.peak_image_region {
        Some(region) => Some(cut_closeup(image, region, normalize_rows)),
        None => match aid.daylight_focus_zoom_region {
            Some(region) => Some(cut_closeup(image, region, false)),
            None => None,
        },
    }
}

/// Stretches the part that helps to focus between two levels along a curve. For that around the
/// brightest point these are the level that nearly all of its background stays below and the mean
/// of its five brightest pixels, in daylight those that the levels of the part give.
pub fn stretch_focus_image<F: Fn(u8, u8) -> u8>(
    part: &mut GrayImage,
    levels: (u8, u8),
    curve: &F,
)
    requires
        crate::image_utils::is_curve(*curve),
        old(part).wf(),
    ensures
        final(part).wf(),
        final(part).width == old(part).width,
        final(part).height == old(part).height,
        forall|i: int|
            0 <= i < old(part).pixels@.len() ==> #[trigger] final(part).pixels@[i]
                == crate::image_utils::scaled_value(
                *curve,
                levels.0,
                levels.1,
                old(part).pixels@[i],
            ),
{
    scale_image_mut(part, levels.0, levels.1, curve);
}

/// What comes of an image while focusing or in daylight.
#[derive(Clone, Copy, Debug, PartialEq, Eq, Structural)]
pub struct FocusCycle {
    /// The exposure to set, if it is to be changed.
    pub exposure: Option<u64>,
    /// The pixel value to show as black.
    pub black_level: u8,
    /// The pixel value to show as white.
    pub peak_value: u8,
    /// How strong the contrast is, in thousandths.
    pub contrast_ratio: u32,
    /// What helps the user focus.
    pub focus_aid: FocusAid,
}

/// A level that is not black.
pub open spec fn above_black(level: u8) -> u8 {
    if level < 1 {
        1
    } else {
        level
    }
}

/// A coordinate in whole pixels; what is beyond them is cut off.
pub open spec fn cut_off(coord: int) -> int {
    if coord < 0 {
        -((-coord) / MICROPIXELS_PER_PIXEL as int)
    } else {
        coord / MICROPIXELS_PER_PIXEL as int
    }
}

/// A point of an image in whole pixels.
pub open spec fn pixel_of(point: ImageCoord) -> (i32, i32) {
    (cut_off(point.x as int) as i32, cut_off(point.y as int) as i32)
}

/// The point that is shown enlarged in daylight, in whole pixels.
pub open spec fn focus_pixel(engine: DetectEngine) -> Option<(i32, i32)> {
    match engine.daylight_focus_point {
        Some(point) => Some(pixel_of(point)),
        None => None,
    }
}

/// Whether an image of the given size has a region of interest, at the binning of a detector. In
/// daylight it has to be more than a pixel high.
pub open spec fn has_region(engine: DetectEngine, width: int, height: int) -> bool {
    &&& height <= width <= 0x1fff_ffff
    &&& 1 <= engine.binning
    &&& 2 * inset_for(engine.binning as int, engine.display_sampling) < height
    &&& engine.daylight_mode ==> 2 * inset_for(engine.binning as int, engine.display_sampling) + 1
        < height
}

/// Whether a rectangle that is not empty lies in an image of the given size.
pub open spec fn lies_in(region: Rectangle, width: u32, height: u32) -> bool {
    &&& region.origin_x >= 0
    &&& region.origin_y >= 0
    &&& region.width > 0
    &&& region.height > 0
    &&& region.origin_x + region.width <= width
    &&& region.origin_y + region.height <= height
}

/// Whether a point lies in an image of the given size.
pub open spec fn point_fits(point: ImageCoord, width: int, height: int) -> bool {
    &&& 0 <= point.x < width * MICROPIXELS_PER_PIXEL
    &&& 0 <= point.y < height * MICROPIXELS_PER_PIXEL
}

/// Whether a point is one whose pixel can be computed with, in the image or not.
pub open spec fn point_in_range(point: ImageCoord) -> bool {
    &&& -0x3fff_ffff <= cut_off(point.x as int) <= 0x3fff_ffff
    &&& -0x3fff_ffff <= cut_off(point.y as int) <= 0x3fff_ffff
}

/// What helps the user focus: the surroundings of the brightest point, or, in daylight, those of
/// the point that the user designated.
pub open spec fn focus_aid_of(
    engine: DetectEngine,
    width: int,
    height: int,
    levels: FocusLevels,
) -> FocusAid {
    let scale = adjusted_binning(engine.binning as int, engine.display_sampling);
    let pixel = pixel_of(levels.peak_position);
    if engine.daylight_mode {
        FocusAid {
            center_peak_position: None,
            center_peak_value: None,
            peak_image_region: None,
            daylight_focus_zoom_region: daylight_zoom_region(
                region_of_interest(width, height, 8 * scale),
                focus_pixel(engine),
                30 * scale,
            ),
        }
    } else {
        FocusAid {
            center_peak_position: Some(levels.peak_position),
            center_peak_value: Some(above_black(levels.peak_level)),
            peak_image_region: shared_part(
                Rectangle {
                    origin_x: (pixel.0 - (15 * scale) / 2) as i32,
                    origin_y: (pixel.1 - (15 * scale) / 2) as i32,
                    width: (15 * scale) as i32,
                    height: (15 * scale) as i32,
                },
                Rectangle { origin_x: 0, origin_y: 0, width: width as i32, height: height as i32 },
            ),
            daylight_focus_zoom_region: None,
        }
    }
}

/// Finds what helps the user focus.
fn find_focus_aid(engine: &DetectEngine, width: u32, height: u32, levels: &FocusLevels) -> (aid:
    FocusAid)
    requires
        has_region(*engine, width as int, height as int),
        !engine.daylight_mode ==> point_fits(levels.peak_position, width as int, height as int),
        engine.daylight_mode ==> (engine.daylight_focus_point matches Some(point)
            ==> point_in_range(point)),
    ensures
        aid == focus_aid_of(*engine, width as int, height as int, *levels),
        engine.daylight_mode ==> (aid.daylight_focus_zoom_region matches Some(region) && lies_in(
            region,
            width,
            height,
        )),
        !engine.daylight_mode ==> (aid.peak_image_region matches Some(region) && lies_in(
            region,
            width,
            height,
        )),
{
    if engine.daylight_mode {
        let roi: Rectangle = roi_region(width, height, engine.binning, engine.display_sampling);
        let point: Option<(i32, i32)> = match engine.daylight_focus_point {
            Some(point) => Some(to_pixel(point)),
            None => None,
        };
        FocusAid {
            center_peak_position: None,
            center_peak_value: None,
            peak_image_region: None,
            daylight_focus_zoom_region: daylight_region(
                roi,
                point,
                engine.binning,
                engine.display_sampling,
            ),
        }
    } else {
        let (peak_x, peak_y) = to_pixel(levels.peak_position);
        FocusAid {
            center_peak_position: Some(levels.peak_position),
            center_peak_value: Some(if levels.peak_level < 1 { 1 } else { levels.peak_level }),
            peak_image_region: peak_region(
                peak_x,
                peak_y,
                width,
                height,
                engine.binning,
                engine.display_sampling,
            ),
            daylight_focus_zoom_region: None,
        }
    }
}

/// Deals with an image while focusing or in daylight, from what was measured in it.
pub fn focus_cycle(
    engine: &DetectEngine,
    input: &ExposureInput,
    width: u32,
    height: u32,
    levels: &FocusLevels,
) -> (cycle: FocusCycle)
    requires
        engine.focus_mode || engine.daylight_mode,
        has_region(*engine, width as int, height as int),
        !engine.daylight_mode ==> point_fits(levels.peak_position, width as int, height as int),
        engine.daylight_mode ==> (engine.daylight_focus_point matches Some(point)
            ==> point_in_range(point)),
        levels.contrast_background <= levels.contrast_peak,
    ensures
        cycle.exposure == exposure_to_set(
            engine.autoexposure_enabled,
            input.params_accurate,
            *input,
            aid_exposure(
                engine.daylight_mode,
                input.exposure as int,
                levels.bright_level,
                levels.mean as int,
                levels.peak_value as int,
            ),
        ),
        cycle.black_level == levels.background_level,
        cycle.peak_value == above_black(levels.peak_level),
        cycle.contrast_ratio == (above_black(levels.contrast_peak) - levels.contrast_background)
            * 1000 / above_black(levels.contrast_peak) as int,
        cycle.focus_aid == focus_aid_of(*engine, width as int, height as int, *levels),
        engine.daylight_mode ==> cycle.focus_aid.daylight_focus_zoom_region is Some,
        !engine.daylight_mode ==> cycle.focus_aid.peak_image_region is Some,
        cycle.focus_aid.peak_image_region matches Some(region) ==> lies_in(region, width, height),
        cycle.focus_aid.daylight_focus_zoom_region matches Some(region) ==> lies_in(
            region,
            width,
            height,
        ),
        is_exposure_kept(*engine, *input, cycle.exposure),
{
    let exposure: Option<u64> = auto_expose_for_aid(
        engine,
        input,
        levels.bright_level,
        levels.mean,
        levels.peak_value,
    );
    let peak_value: u8 = if levels.peak_level < 1 { 1 } else { levels.peak_level };
    let contrast_peak: u8 = if levels.contrast_peak < 1 { 1 } else { levels.contrast_peak };
    let contrast: u32 = contrast_ratio(contrast_peak, levels.contrast_background);
    let focus_aid: FocusAid = find_focus_aid(engine, width, height, levels);
    FocusCycle {
        exposure,
        black_level: levels.background_level,
        peak_value,
        contrast_ratio: contrast,
        focus_aid,
    }
}

/// Cuts a point of an image off to whole pixels.
fn to_pixel(point: ImageCoord) -> (pixel: (i32, i32))
    requires
        point_in_range(point),
    ensures
        pixel == pixel_of(point),
        pixel.0 == cut_off(point.x as int),
        pixel.1 == cut_off(point.y as int),
{
    (whole_pixels(point.x), whole_pixels(point.y))
}

/// Cuts a coordinate off to whole pixels.
pub(crate) fn whole_pixels(coord: i64) -> (pixels: i32)
    requires
        -0x3fff_ffff <= cut_off(coord as int) <= 0x3fff_ffff,
    ensures
        pixels == cut_off(coord as int),
{
    if coord < 0 {
        let magnitude: i128 = (-(coord as i128)) / 1_000_000;
        (-magnitude) as i32
    } else {
        (coord / 1_000_000) as i32
    }
}

/// When the next result of the detector is due: at once where there is news, and else after what
/// is left until the estimated time, if there is one.
pub fn estimate_delay(
    posted_frame_id: Option<i32>,
    prev_frame_id: Option<i32>,
    time_to_eta: Option<u64>,
) -> (delay: Option<u64>)
    ensures
        delay == (if crate::polling::is_news(posted_frame_id, prev_frame_id) {
            Some(0u64)
        } else {
            time_to_eta
        }),
{
    match crate::polling::poll_result(posted_frame_id, prev_frame_id, true) {
        crate::polling::Poll::Take => Some(0),
        _ => time_to_eta,
    }
}

/// How long acquiring an image takes: as long as its exposure, or as its processing where that
/// takes longer.
pub fn acquire_duration(exposure: u64, processing: Option<u64>) -> (duration: u64)
    ensures
        duration == (match processing {
            Some(processing) => if processing > exposure {
                processing
            } else {
                exposure
            },
            None => exposure,
        }),
{
    match processing {
        Some(processing) => if processing > exposure {
            processing
        } else {
            exposure
        },
        None => exposure,
    }
}

/// Takes a count into the average: where there is one already, the new one lies halfway between
/// it and the count, and otherwise it is the count.
pub proof fn law_average_lies_halfway(state: &mut DetectEngine, stars: usize, average: u128)
    requires
        call_ensures(update_star_count_moving_average, (state, stars), average),
    ensures
        final(state).star_count_moving_average == average,
        old(state).star_count_moving_average == 0 ==> average == stars * ONE_STAR,
        old(state).star_count_moving_average > 0 ==> {
            let twice = old(state).star_count_moving_average + stars * ONE_STAR;
            twice - 1 <= 2 * average <= twice
        },
{
}

/// A product of a duration with a fraction is off the exact one by half a nanosecond at most.
proof fn lemma_times_fraction(duration: int, num: int, den: int)
    requires
        den > 0,
    ensures
        ({
            let r = times_fraction(duration, num, den);
            -den <= 2 * r * den - 2 * duration * num <= den
        }),
{
    let r = times_fraction(duration, num, den);
    let n = duration * num * 2 + den;
    vstd::arithmetic::div_mod::lemma_fundamental_div_mod(n, den * 2);
    assert((den * 2) * r == 2 * r * den) by (nonlinear_arith);
    assert(duration * num * 2 == 2 * duration * num) by (nonlinear_arith);
}

/// Stars are as many as the exposure is long: where their average is too far from the number
/// wanted, the exposure that follows times the average is the exposure before times the number
/// wanted. Rounding takes half a nanosecond, and the limits may stop it short. Here nothing else
/// bounds the exposure.
pub proof fn law_exposure_goes_by_the_stars(
    state: &mut DetectEngine,
    input: ExposureInput,
    r: Option<u64>,
)
    requires
        call_ensures(auto_expose_for_stars, (state, &input), r),
        old(state).autoexposure_enabled,
        old(state).calibrated_exposure_duration is None,
        old(state).camera_processing_duration is None,
        input.params_accurate,
        input.stars >= 4,
        input.star_count_goal > 0,
        input.min_exposure <= input.max_exposure,
        final(state).star_count_moving_average >= 4 * ONE_STAR,
    ensures
        ({
            let average = final(state).star_count_moving_average as int;
            let goal = input.star_count_goal * ONE_STAR;
            let new = match r {
                Some(new) => new as int,
                None => input.exposure as int,
            };
            let few = 10 * average < 8 * goal && input.mean <= 192;
            let many = 10 * average > 16 * goal;
            few || many ==> {
                let off = 2 * new * average - 2 * input.exposure * goal;
                &&& input.min_exposure <= new <= input.max_exposure
                &&& new > input.min_exposure ==> off <= average
                &&& new < input.max_exposure ==> -average <= off
            }
        }),
{
    let average = final(state).star_count_moving_average as int;
    let goal = input.star_count_goal * ONE_STAR;
    let wanted = times_fraction(input.exposure as int, goal, average);
    lemma_times_fraction(input.exposure as int, goal, average);
    let new = match r {
        Some(new) => new as int,
        None => input.exposure as int,
    };
    assert(goal * 8 == input.star_count_goal * 8 * ONE_STAR);
    assert(goal * 16 == input.star_count_goal * 16 * ONE_STAR);
    assert(new <= wanted ==> 2 * new * average <= 2 * wanted * average) by (nonlinear_arith)
        requires
            average > 0,
    ;
    assert(new >= wanted ==> 2 * new * average >= 2 * wanted * average) by (nonlinear_arith)
        requires
            average > 0,
    ;
}

/// Where the exposure was calibrated it stays within three stops of the calibrated one, but for
/// the limits and for what the camera needs to process an image. It never is shorter than that
/// while more stars than wanted call for a shorter one.
pub proof fn law_exposure_stays_in_bounds(
    state: &mut DetectEngine,
    input: ExposureInput,
    r: Option<u64>,
)
    requires
        call_ensures(auto_expose_for_stars, (state, &input), r),
        input.params_accurate,
        input.stars >= 4,
        input.star_count_goal > 0,
        input.min_exposure <= input.max_exposure,
        final(state).star_count_moving_average >= 4 * ONE_STAR,
        10 * final(state).star_count_moving_average > 16 * input.star_count_goal * ONE_STAR || (10
            * final(state).star_count_moving_average < 8 * input.star_count_goal * ONE_STAR
            && input.mean <= 192),
    ensures
        r matches Some(new) ==> {
            &&& old(state).camera_processing_duration matches Some(needed) ==> new >= needed
                || new == input.max_exposure
            &&& old(state).calibrated_exposure_duration matches Some(base) ==> {
                &&& 8 * new + 4 >= base || new == input.max_exposure
                &&& new <= 8 * base || new == input.min_exposure || (
                old(state).camera_processing_duration matches Some(needed) && new <= needed)
            }
        },
{
    let average = final(state).star_count_moving_average as int;
    assert(average == averaged(
        old(state).star_count_moving_average as int,
        input.stars as int,
    ));
}

/// Where there are between eight and sixteen tenths of the stars wanted, the exposure is good: it
/// stays, and is remembered. Too few stars under a bright sky do not make it good.
pub proof fn law_good_exposure_stays(
    state: &mut DetectEngine,
    input: ExposureInput,
    r: Option<u64>,
)
    requires
        call_ensures(auto_expose_for_stars, (state, &input), r),
        input.params_accurate,
        input.stars >= 4,
        input.star_count_goal > 0,
        input.min_exposure <= input.exposure <= input.max_exposure,
        final(state).star_count_moving_average >= 4 * ONE_STAR,
    ensures
        ({
            let average = final(state).star_count_moving_average as int;
            let goal = input.star_count_goal * ONE_STAR;
            let dark = input.mean <= 192 || average >= goal;
            &&& dark && 8 * goal <= 10 * average <= 16 * goal ==> {
                &&& r is None
                &&& final(state).auto_exposure_duration == Some(input.exposure)
            }
            &&& !dark || 10 * average < 8 * goal || 10 * average > 16 * goal
                ==> final(state).auto_exposure_duration == old(state).auto_exposure_duration
        }),
{
}

/// With fewer than four stars, likely during a slew, the exposure goes back to one that was good,
/// or else to the calibrated one, or else to the initial one, and nothing is learned. It does so
/// too where a bright sky keeps it from being made longer.
pub proof fn law_lost_stars_bring_back_the_exposure(
    state: &mut DetectEngine,
    input: ExposureInput,
    r: Option<u64>,
)
    requires
        call_ensures(auto_expose_for_stars, (state, &input), r),
        old(state).autoexposure_enabled,
    ensures
        ({
            let average = final(state).star_count_moving_average as int;
            let bright = input.params_accurate && input.mean > 192 && input.star_count_goal > 0
                && average < input.star_count_goal * ONE_STAR;
            let known = match (
                old(state).auto_exposure_duration,
                old(state).calibrated_exposure_duration,
            ) {
                (Some(good), _) => good,
                (None, Some(calibrated)) => calibrated,
                (None, None) => input.initial_exposure,
            };
            let new = match r {
                Some(new) => new,
                None => input.exposure,
            };
            &&& (input.stars < 4 || bright) && input.min_exposure <= known <= input.max_exposure
                ==> new == known
            &&& input.stars < 4 ==> *final(state) == *old(state)
            &&& input.stars >= 4 && !input.params_accurate ==> r is None && *final(state)
                == *old(state)
        }),
{
}

/// What is learned of the stars is their average and a good exposure. Nothing else changes, and
/// the average goes halfway to the number of stars.
pub proof fn law_stars_teach_the_average(
    state: &mut DetectEngine,
    input: ExposureInput,
    r: Option<u64>,
)
    requires
        call_ensures(auto_expose_for_stars, (state, &input), r),
    ensures
        input.stars >= 4 && input.params_accurate ==> {
            let before = old(state).star_count_moving_average as int;
            let after = final(state).star_count_moving_average as int;
            let count = input.stars * ONE_STAR;
            &&& before == 0 ==> after == count
            &&& before > 0 ==> before + count - 1 <= 2 * after <= before + count
        },
        final(state).calibrated_exposure_duration == old(state).calibrated_exposure_duration,
        final(state).camera_processing_duration == old(state).camera_processing_duration,
        final(state).autoexposure_enabled == old(state).autoexposure_enabled,
        final(state).binning == old(state).binning,
        final(state).display_sampling == old(state).display_sampling,
        final(state).focus_mode == old(state).focus_mode,
        final(state).daylight_mode == old(state).daylight_mode,
        !old(state).autoexposure_enabled ==> r is None,
{
}

/// While focusing or in daylight the exposure goes by a level and what that should be: in daylight
/// the bright part of the image should be at 220, a bright sky at 32, and otherwise the brightest
/// point at 64. What is close enough, by three tenths, stays. A saturated image is exposed a tenth
/// as long, and a white one a twentieth. Here the limits do not bound the exposure.
pub proof fn law_aid_aims_at_a_level(
    state: DetectEngine,
    input: ExposureInput,
    bright_value: u8,
    mean: u32,
    peak: u32,
    r: Option<u64>,
)
    requires
        call_ensures(auto_expose_for_aid, (&state, &input, bright_value, mean, peak), r),
        state.autoexposure_enabled,
        input.params_accurate,
        input.min_exposure <= input.exposure <= input.max_exposure,
    ensures
        ({
            let new = match r {
                Some(new) => new as int,
                None => input.exposure as int,
            };
            let saturated = state.daylight_mode && bright_value > 250;
            let white = !state.daylight_mode && mean > 250_000;
            let (aim, level): (int, int) = if saturated {
                (1, 10)
            } else if white {
                (1, 20)
            } else if state.daylight_mode {
                (220, if bright_value == 0 { 1 } else { bright_value as int })
            } else if mean > 32_000 {
                (32_000, mean as int)
            } else {
                (64_000, if peak < 1_000 { 1_000 } else { peak as int })
            };
            let close = 7 * level <= 10 * aim <= 13 * level;
            let off = 2 * new * level - 2 * input.exposure * aim;
            &&& close ==> r is None
            &&& !close ==> (new > input.min_exposure ==> off <= level) && (new
                < input.max_exposure ==> -level <= off)
        }),
{
    let (aim, level): (int, int) = if state.daylight_mode && bright_value > 250 {
        (1, 10)
    } else if !state.daylight_mode && mean > 250_000 {
        (1, 20)
    } else if state.daylight_mode {
        (220, if bright_value == 0 { 1 } else { bright_value as int })
    } else if mean > 32_000 {
        (32_000, mean as int)
    } else {
        (64_000, if peak < 1_000 { 1_000 } else { peak as int })
    };
    let wanted = times_fraction(input.exposure as int, aim, level);
    lemma_times_fraction(input.exposure as int, aim, level);
    let new = match r {
        Some(new) => new as int,
        None => input.exposure as int,
    };
    assert(new <= wanted ==> 2 * new * level <= 2 * wanted * level) by (nonlinear_arith)
        requires
            level > 0,
    ;
    assert(new >= wanted ==> 2 * new * level >= 2 * wanted * level) by (nonlinear_arith)
        requires
            level > 0,
    ;
}

/// An exposure that is not taken with the camera's current settings is left alone while focusing
/// or in daylight, and so is every one while auto-exposure is off.
pub proof fn law_aid_waits_for_settings(
    state: DetectEngine,
    input: ExposureInput,
    bright_value: u8,
    mean: u32,
    peak: u32,
    r: Option<u64>,
)
    requires
        call_ensures(auto_expose_for_aid, (&state, &input, bright_value, mean, peak), r),
    ensures
        !input.params_accurate || !state.autoexposure_enabled ==> r is None,
        r matches Some(new) ==> new != input.exposure && (input.min_exposure
            <= input.max_exposure ==> input.min_exposure <= new <= input.max_exposure),
{
}

/// The sum of pixel values grows by each value.
pub proof fn law_sum_of_values(values: Seq<u8>, value: u8)
    ensures
        sum_of(Seq::empty()) == 0,
        sum_of(values.push(value)) == sum_of(values) + value,
{
    assert(values.push(value).drop_last() =~= values);
}

/// White is the mean of the peaks of the ten brightest stars, cut off, or of all where there are
/// fewer; black is the background, but never above white.
pub proof fn law_white_is_the_mean_of_ten(peaks: Vec<u8>, background: u8, r: (u8, u8))
    requires
        call_ensures(display_levels, (&peaks, background), r),
    ensures
        r.0 <= r.1,
        r.0 == background || (r.0 == r.1 && background > r.1),
        peaks@.len() == 0 ==> r.1 == 255,
        0 < peaks@.len() <= 10 ==> r.1 * peaks@.len() <= sum_of(peaks@) < (r.1 + 1) * peaks@.len(),
        peaks@.len() > 10 ==> r.1 * 10 <= sum_of(peaks@.take(10)) < (r.1 + 1) * 10,
{
    if peaks@.len() > 0 {
        let count: int = if peaks@.len() < 10 { peaks@.len() as int } else { 10 };
        let sum = sum_of(peaks@.take(count));
        if peaks@.len() <= 10 {
            assert(peaks@.take(count) =~= peaks@);
        }
        vstd::arithmetic::div_mod::lemma_fundamental_div_mod(sum, count);
        let q = sum / count;
        assert(q * count == count * q && (q + 1) * count == count * q + count)
            by (nonlinear_arith);
    }
}

/// Contrast is what bright stands above dark by, as a part of bright: full where dark is black,
/// none where they are the same, and the less the brighter dark is.
pub proof fn law_contrast_is_a_part_of_bright(
    peak_value: u8,
    black_level: u8,
    darker: u8,
    ratio: u32,
    more: u32,
)
    requires
        darker <= black_level <= peak_value,
        peak_value > 0,
        call_ensures(contrast_ratio, (peak_value, black_level), ratio),
        call_ensures(contrast_ratio, (peak_value, darker), more),
    ensures
        ratio * peak_value <= (peak_value - black_level) * 1000 < (ratio + 1) * peak_value,
        ratio == 1000 <==> black_level == 0,
        ratio == 0 <==> black_level == peak_value,
        ratio <= more,
{
    let p = peak_value as int;
    let a = (p - black_level) * 1000;
    let b = (p - darker) * 1000;
    vstd::arithmetic::div_mod::lemma_fundamental_div_mod(a, p);
    vstd::arithmetic::div_mod::lemma_div_is_ordered(a, b, p);
    let q = a / p;
    let rest = a % p;
    assert(q * p == p * q && (q + 1) * p == p * q + p) by (nonlinear_arith);
    if black_level == 0 {
        vstd::arithmetic::div_mod::lemma_div_multiples_vanish(1000, p);
    } else {
        assert(q < 1000) by (nonlinear_arith)
            requires
                p * q <= a,
                a < p * 1000,
                p > 0,
        ;
    }
    if black_level == peak_value {
        assert(q == 0) by (nonlinear_arith)
            requires
                a == 0,
                a == p * q + rest,
                0 <= rest < p,
                p > 0,
        ;
    } else {
        assert(q > 0) by (nonlinear_arith)
            requires
                a >= 1000,
                a == p * q + rest,
                rest < p,
                0 < p < 256,
        ;
    }
}

/// The region of interest is a square in the middle of the image, eight display pixels away from
/// its upper and lower edge, and the part that contrast is judged by is a square in the middle, an
/// eighth as high as the image.
pub proof fn law_regions_are_central(
    width: u32,
    height: u32,
    binning: u32,
    display_sampling: bool,
    roi: Rectangle,
    contrast: Rectangle,
)
    requires
        1 <= binning,
        height <= width <= 0x3fff_ffff,
        32 * binning < height,
        call_ensures(roi_region, (width, height, binning, display_sampling), roi),
        call_ensures(contrast_region, (width, height), contrast),
    ensures
        roi.width == roi.height,
        roi.origin_y == (if display_sampling { 16 * binning } else { 8 * binning }),
        roi.origin_y == height - (roi.origin_y + roi.height),
        0 <= (width - (roi.origin_x + roi.width)) - roi.origin_x <= 1,
        contrast.width == contrast.height,
        8 * contrast.height <= height < 8 * contrast.height + 8,
        0 <= (width - (contrast.origin_x + contrast.width)) - contrast.origin_x <= 1,
        0 <= (height - (contrast.origin_y + contrast.height)) - contrast.origin_y <= 1,
{
}

/// What is shown enlarged while focusing are the pixels of the image within fifteen display pixels
/// across, around the brightest point.
pub proof fn law_peak_is_shown_enlarged(
    peak_x: i32,
    peak_y: i32,
    width: u32,
    height: u32,
    binning: u32,
    display_sampling: bool,
    region: Option<Rectangle>,
    x: int,
    y: int,
)
    requires
        width <= 0x3fff_ffff,
        height <= 0x3fff_ffff,
        0 <= peak_x < width,
        0 <= peak_y < height,
        1 <= binning <= 0xff_ffff,
        call_ensures(
            peak_region,
            (peak_x, peak_y, width, height, binning, display_sampling),
            region,
        ),
    ensures
        ({
            let across: int = if display_sampling { 30 * binning } else { 15 * binning };
            let shown = region matches Some(r) && r.origin_x <= x < r.origin_x + r.width
                && r.origin_y <= y < r.origin_y + r.height;
            let left = peak_x - across / 2;
            let top = peak_y - across / 2;
            shown <==> 0 <= x < width && 0 <= y < height && left <= x < left + across && top <= y
                < top + across
        }),
{
}

/// What is shown enlarged in daylight is a square of thirty display pixels across around the point
/// that the user designated, or around the center, where that lies in the region of interest;
/// otherwise it is moved into it.
pub proof fn law_daylight_zoom_is_around_the_point(
    roi: Rectangle,
    point: Option<(i32, i32)>,
    binning: u32,
    display_sampling: bool,
    region: Option<Rectangle>,
)
    requires
        rectangle_fits(roi),
        roi.origin_x >= 0,
        roi.origin_y >= 0,
        roi.origin_x + roi.width <= 0x3fff_ffff,
        roi.origin_y + roi.height <= 0x3fff_ffff,
        1 <= binning <= 0xff_ffff,
        60 * binning < roi.width,
        60 * binning < roi.height,
        call_ensures(daylight_region, (roi, point, binning, display_sampling), region),
    ensures
        region matches Some(r) && {
            let across: int = if display_sampling { 60 * binning } else { 30 * binning };
            let x = match point {
                Some(p) => p.0 as int,
                None => roi.origin_x + roi.width / 2,
            };
            let y = match point {
                Some(p) => p.1 as int,
                None => roi.origin_y + roi.height / 2,
            };
            let left = x - across / 2;
            let top = y - across / 2;
            let most_x = roi.origin_x + roi.width - 1 - across;
            let most_y = roi.origin_y + roi.height - 1 - across;
            &&& r.width == across && r.height == across
            &&& roi.origin_x <= r.origin_x <= most_x
            &&& roi.origin_y <= r.origin_y <= most_y
            &&& roi.origin_x <= left <= most_x ==> r.origin_x == left
            &&& roi.origin_y <= top <= most_y ==> r.origin_y == top
            &&& left < roi.origin_x ==> r.origin_x == roi.origin_x
            &&& left > most_x ==> r.origin_x == most_x
            &&& top < roi.origin_y ==> r.origin_y == roi.origin_y
            &&& top > most_y ==> r.origin_y == most_y
        },
{
}

/// Levels are those of the parts of the image that they stand for: nearly all of it stays below
/// its peak, nine tenths below its bright level, and the background is four fifths of a dark sky,
/// or the darkest thousandth in daylight.
pub proof fn law_levels_go_by_their_parts<F: Fn(u32) -> u8, G: Fn(u32) -> u8>(
    daylight_mode: bool,
    level: F,
    contrast_level: G,
    mean: u32,
    peak_value: u32,
    peak_position: ImageCoord,
    levels: FocusLevels,
    parts: u32,
    value: u8,
    stretch: (u8, u8),
)
    requires
        is_level_function(level),
        is_level_function(contrast_level),
        call_ensures(
            measure_levels::<F, G>,
            (daylight_mode, &level, &contrast_level, mean, peak_value, peak_position),
            levels,
        ),
        call_ensures(daylight_stretch::<F>, (&level,), stretch),
    ensures
        call_ensures(level, (999u32,), value) ==> levels.peak_level == value,
        call_ensures(level, (900u32,), value) ==> levels.bright_level == value,
        daylight_mode && call_ensures(level, (1u32,), value) ==> levels.background_level == value,
        !daylight_mode && call_ensures(level, (800u32,), value) ==> levels.background_level
            == value,
        call_ensures(contrast_level, (990u32,), value) ==> levels.contrast_peak == value,
        daylight_mode && call_ensures(contrast_level, (10u32,), value)
            ==> levels.contrast_background == value,
        !daylight_mode && call_ensures(contrast_level, (600u32,), value)
            ==> levels.contrast_background == value,
        levels.mean == mean && levels.peak_value == peak_value && levels.peak_position
            == peak_position,
        call_ensures(level, (1u32,), value) ==> stretch.0 == value,
        call_ensures(level, (999u32,), value) && value > 0 ==> stretch.1 == value,
        stretch.1 > 0,
{
}

/// A result is due at once where it is news; and an image takes as long as the longer of its
/// exposure and its processing.
pub proof fn law_delays(
    posted: Option<i32>,
    prev: Option<i32>,
    time_to_eta: Option<u64>,
    delay: Option<u64>,
    exposure: u64,
    processing: u64,
    duration: u64,
    alone: u64,
)
    requires
        call_ensures(estimate_delay, (posted, prev, time_to_eta), delay),
        call_ensures(acquire_duration, (exposure, Some(processing)), duration),
        call_ensures(acquire_duration, (exposure, None::<u64>), alone),
    ensures
        posted is Some && posted != prev ==> delay == Some(0u64),
        posted is None || posted == prev ==> delay == time_to_eta,
        duration >= exposure && duration >= processing,
        duration == exposure || duration == processing,
        alone == exposure,
{
}

/// A cycle that looks for stars exposes as the stars ask for and shows the levels that they have.
pub proof fn law_star_cycle_goes_by_the_stars(
    engine: &mut DetectEngine,
    same: &mut DetectEngine,
    input: ExposureInput,
    peaks: Vec<u8>,
    background: u8,
    cycle: StarCycle,
    wanted: Option<u64>,
    levels: (u8, u8),
    looks: bool,
)
    requires
        *old(engine) == *old(same),
        call_ensures(star_cycle, (engine, &input, &peaks, background), cycle),
        call_ensures(auto_expose_for_stars, (same, &input), wanted),
        call_ensures(display_levels, (&peaks, background), levels),
        call_ensures(looks_for_stars, (&*old(engine),), looks),
    ensures
        cycle.exposure == wanted,
        *final(engine) == *final(same),
        (cycle.black_level, cycle.peak_value) == levels,
        cycle.exposure is Some ==> old(engine).autoexposure_enabled,
        looks <==> !old(engine).focus_mode && !old(engine).daylight_mode,
{
}

/// A cycle that helps to focus exposes by its levels, shows white where nearly everything stays
/// below and never as black, and tells the contrast. Outside of daylight it enlarges the brightest
/// point, and in daylight the point that the user designated.
pub proof fn law_focus_cycle_goes_by_the_levels(
    engine: DetectEngine,
    input: ExposureInput,
    width: u32,
    height: u32,
    levels: FocusLevels,
    cycle: FocusCycle,
    wanted: Option<u64>,
    ratio: u32,
    x: i32,
    y: i32,
    region: Option<Rectangle>,
    roi: Rectangle,
    zoom: Option<Rectangle>,
)
    requires
        has_region(engine, width as int, height as int),
        levels.contrast_background <= levels.contrast_peak,
        levels.contrast_peak > 0,
        call_ensures(focus_cycle, (&engine, &input, width, height, &levels), cycle),
        call_ensures(
            auto_expose_for_aid,
            (&engine, &input, levels.bright_level, levels.mean, levels.peak_value),
            wanted,
        ),
        call_ensures(contrast_ratio, (levels.contrast_peak, levels.contrast_background), ratio),
        0 <= x < width && 0 <= y < height,
        1_000_000 * x <= levels.peak_position.x < 1_000_000 * (x + 1),
        1_000_000 * y <= levels.peak_position.y < 1_000_000 * (y + 1),
        call_ensures(
            peak_region,
            (x, y, width, height, engine.binning, engine.display_sampling),
            region,
        ),
        call_ensures(roi_region, (width, height, engine.binning, engine.display_sampling), roi),
        call_ensures(
            daylight_region,
            (roi, None::<(i32, i32)>, engine.binning, engine.display_sampling),
            zoom,
        ),
    ensures
        cycle.exposure == wanted,
        cycle.contrast_ratio == ratio,
        cycle.black_level == levels.background_level,
        cycle.peak_value == levels.peak_level || (levels.peak_level == 0 && cycle.peak_value == 1),
        !engine.daylight_mode ==> {
            &&& cycle.focus_aid.center_peak_position == Some(levels.peak_position)
            &&& cycle.focus_aid.center_peak_value == Some(cycle.peak_value)
            &&& cycle.focus_aid.peak_image_region == region
            &&& cycle.focus_aid.daylight_focus_zoom_region is None
        },
        engine.daylight_mode ==> {
            &&& cycle.focus_aid.center_peak_position is None
            &&& cycle.focus_aid.peak_image_region is None
            &&& engine.daylight_focus_point is None ==> cycle.focus_aid.daylight_focus_zoom_region
                == zoom
        },
{
}

/// In daylight the square that is enlarged is around the pixel that holds the designated point.
pub proof fn law_daylight_focus_follows_the_user(
    engine: DetectEngine,
    input: ExposureInput,
    width: u32,
    height: u32,
    levels: FocusLevels,
    cycle: FocusCycle,
    point: ImageCoord,
    x: i32,
    y: i32,
    roi: Rectangle,
    zoom: Option<Rectangle>,
)
    requires
        has_region(engine, width as int, height as int),
        engine.daylight_mode,
        engine.daylight_focus_point == Some(point),
        0 <= x && 0 <= y,
        1_000_000 * x <= point.x < 1_000_000 * (x + 1),
        1_000_000 * y <= point.y < 1_000_000 * (y + 1),
        call_ensures(focus_cycle, (&engine, &input, width, height, &levels), cycle),
        call_ensures(roi_region, (width, height, engine.binning, engine.display_sampling), roi),
        call_ensures(
            daylight_region,
            (roi, Some((x, y)), engine.binning, engine.display_sampling),
            zoom,
        ),
    ensures
        cycle.focus_aid.daylight_focus_zoom_region == zoom,
{
    assert(pixel_of(point) == (x, y));
}

/// Each setting of the detector changes what it says. What was learned of the stars is forgotten
/// with a new camera and when they are looked for anew, and a good exposure is forgotten where
/// exposing starts anew; how long the camera takes is kept as it was noted first.
pub proof fn law_settings_of_the_detector(
    camera: &mut DetectEngine,
    auto: &mut DetectEngine,
    enabled: bool,
    binned: &mut DetectEngine,
    binning: u32,
    sampling: bool,
    focus: &mut DetectEngine,
    daylight: &mut DetectEngine,
    pointed: &mut DetectEngine,
    point: ImageCoord,
    calibrated: &mut DetectEngine,
    duration: Option<u64>,
    timed: &mut DetectEngine,
)
    requires
        call_ensures(DetectEngine::replace_camera, (camera,), ()),
        call_ensures(DetectEngine::set_autoexposure_enabled, (auto, enabled), ()),
        call_ensures(DetectEngine::set_binning, (binned, binning, sampling), ()),
        call_ensures(DetectEngine::set_focus_mode, (focus, enabled), ()),
        call_ensures(DetectEngine::set_daylight_mode, (daylight, enabled), ()),
        call_ensures(DetectEngine::set_daylight_focus_point, (pointed, point), ()),
        call_ensures(DetectEngine::set_calibrated_exposure_duration, (calibrated, duration), ()),
        call_ensures(DetectEngine::note_processing_duration, (timed, duration), ()),
    ensures
        final(camera).auto_exposure_duration is None
            && final(camera).camera_processing_duration is None
            && final(camera).star_count_moving_average == 0 && final(camera).binning
                == old(camera).binning && final(camera).calibrated_exposure_duration
                == old(camera).calibrated_exposure_duration,
        final(auto).autoexposure_enabled == enabled && final(auto).auto_exposure_duration is None
            && final(auto).star_count_moving_average == old(auto).star_count_moving_average
            && final(auto).focus_mode == old(auto).focus_mode,
        final(binned).binning == binning && final(binned).display_sampling == sampling
            && final(binned).focus_mode == old(binned).focus_mode,
        final(focus).focus_mode == enabled && final(focus).daylight_mode == old(focus).daylight_mode
            && final(focus).auto_exposure_duration == old(focus).auto_exposure_duration,
        !enabled ==> final(focus).star_count_moving_average == 0
            && final(daylight).star_count_moving_average == 0,
        enabled ==> final(focus).star_count_moving_average == old(focus).star_count_moving_average
            && final(daylight).star_count_moving_average == old(daylight).star_count_moving_average,
        final(daylight).daylight_mode == enabled && final(daylight).focus_mode
            == old(daylight).focus_mode && final(daylight).auto_exposure_duration is None,
        final(pointed).daylight_focus_point == Some(point) && final(pointed).daylight_mode
            == old(pointed).daylight_mode,
        final(calibrated).calibrated_exposure_duration == duration
            && final(calibrated).auto_exposure_duration == old(calibrated).auto_exposure_duration,
        old(timed).camera_processing_duration is Some ==> *final(timed) == *old(timed),
        old(timed).camera_processing_duration is None
            ==> final(timed).camera_processing_duration == duration,
{
}

/// What two rectangles share are the pixels that lie in both.
pub proof fn law_rectangles_share_their_pixels(
    a: Rectangle,
    b: Rectangle,
    shared: Option<Rectangle>,
    x: int,
    y: int,
)
    requires
        rectangle_fits(a),
        rectangle_fits(b),
        call_ensures(intersect, (a, b), shared),
    ensures
        ({
            let in_a = a.origin_x <= x < a.origin_x + a.width && a.origin_y <= y < a.origin_y
                + a.height;
            let in_b = b.origin_x <= x < b.origin_x + b.width && b.origin_y <= y < b.origin_y
                + b.height;
            let in_shared = shared matches Some(r) && r.origin_x <= x < r.origin_x + r.width
                && r.origin_y <= y < r.origin_y + r.height;
            in_shared <==> in_a && in_b
        }),
{
    law_shared_part(a, b, x, y);
}

/// The part that is shown enlarged has the pixels of the image in the region around the peak, or in
/// the one that daylight enlarges, whose rows are never normalized.
pub proof fn law_focus_image_is_cut_out(
    image: GrayImage,
    aid: FocusAid,
    region: Rectangle,
    part: Option<GrayImage>,
    x: int,
    y: int,
)
    requires
        image.wf(),
        lies_in(region, image.width, image.height),
        aid.peak_image_region == Some(region) || (aid.peak_image_region is None
            && aid.daylight_focus_zoom_region == Some(region)),
        0 <= x < region.width,
        0 <= y < region.height,
        call_ensures(cut_focus_image, (&image, &aid, false), part),
    ensures
        part matches Some(part) && part.width == region.width && part.height == region.height
            && part.at(x, y) == image.at(region.origin_x + x, region.origin_y + y),
{
    let shown = part->0;
    let cut = choose|cut: GrayImage| #[trigger]
        crate::solve_engine::is_cut(cut, image, region) && crate::solve_engine::is_prepared(
            shown,
            cut,
            false,
        );
    assert(shown.at(x, y) == cut.at(x, y));
}

/// Once calibrated, the exposure that the stars ask for is set as it is up to three stops either
/// way from the calibrated one, and at that bound beyond.
pub proof fn law_calibrated_exposure_bounds_the_stars(
    state: &mut DetectEngine,
    input: ExposureInput,
    base: u64,
    wanted: int,
    r: Option<u64>,
)
    requires
        old(state).star_count_moving_average == 0,
        old(state).autoexposure_enabled,
        old(state).calibrated_exposure_duration == Some(base),
        old(state).camera_processing_duration is None,
        input.params_accurate,
        input.stars >= 4,
        input.star_count_goal > 0,
        input.mean <= 192,
        10 * input.stars < 8 * input.star_count_goal || 10 * input.stars > 16
            * input.star_count_goal,
        2 * input.stars * wanted <= 2 * input.exposure * input.star_count_goal + input.stars < 2
            * input.stars * (wanted + 1),
        call_ensures(auto_expose_for_stars, (state, &input), r),
    ensures
        ({
            let set = match r {
                Some(exposure) => exposure,
                None => input.exposure,
            };
            &&& wanted > 8 * base && input.min_exposure <= 8 * base <= input.max_exposure ==> set
                == 8 * base
            &&& base <= 8 * wanted + 3 && wanted <= 8 * base && input.min_exposure <= wanted
                <= input.max_exposure ==> set == wanted
            &&& 8 * wanted + 8 <= base + 4 && input.min_exposure <= (base + 4) / 8
                && (base + 4) / 8 <= input.max_exposure ==> set == (base + 4) / 8
        }),
{
    let n = input.stars as int;
    let e = input.exposure as int;
    let g = input.star_count_goal as int;
    let one = 4_294_967_296int;
    let average = n * one;
    let product = e * (g * one);
    assert(product * 2 + average == (2 * e * g + n) * one && average * 2 == 2 * n * one)
        by (nonlinear_arith)
        requires
            product == e * (g * one),
            average == n * one,
    ;
    assert((2 * n * wanted) * one <= (2 * e * g + n) * one < (2 * n * (wanted + 1)) * one)
        by (nonlinear_arith)
        requires
            one > 0,
            2 * n * wanted <= 2 * e * g + n < 2 * n * (wanted + 1),
    ;
    assert((2 * n * wanted) * one == wanted * (average * 2) && (2 * n * (wanted + 1)) * one == (
    wanted + 1) * (average * 2)) by (nonlinear_arith)
        requires
            average == n * one,
    ;
    let total = product * 2 + average;
    assert(total / (average * 2) == wanted) by (nonlinear_arith)
        requires
            average > 0,
            wanted * (average * 2) <= total < (wanted + 1) * (average * 2),
    ;
    assert(average == n * 4_294_967_296);
    assert(times_fraction(e, g * one, average) == wanted);
}

} // verus!
