//! Calibration of the camera and the optics: each step decides from what was just measured what
//! to do next.
//!
//! Durations are in nanoseconds, angles in microarcseconds and ratios in billionths.

use vstd::prelude::*;

use crate::calibration::CanonicalErrorCode;
use crate::image_utils::GrayImage;
use crate::solver_trait::SolveParams;

verus! {

/// Why the exposure could not be calibrated.
#[derive(Clone, Copy, Debug, PartialEq, Eq, Structural)]
pub enum ExposureCalibrationError {
    /// Even the longest exposure shows too few stars.
    TooFewStars,
    /// The sky is too bright to expose longer.
    BrightSky,
    /// The calibration was cancelled.
    Aborted,
}

/// How many pixels have a value.
pub open spec fn count_of(pixels: Seq<u8>, value: u8) -> int {
    pixels.filter(|pixel: u8| pixel == value).len() as int
}

/// Calls `stats::histogram` of the imageproc crate on a gray image and takes its only channel.
/// Claimed of it: the entry of each of the 256 pixel values says how many pixels have it. The
/// counts are 32 bits wide, so there must be no more pixels than that.
#[verifier::external_body]
fn histogram(image: &GrayImage) -> (counts: Vec<u32>)
    requires
        image.wf(),
        image.pixels@.len() <= u32::MAX,
    ensures
        counts@.len() == 256,
        forall|value: u8| #[trigger] counts@[value as int] == count_of(image.pixels@, value),
{
    let source = image::GrayImage::from_raw(image.width, image.height, image.pixels.clone());
    imageproc::stats::histogram(&source.unwrap()).channels[0].to_vec()
}

/// Counts the black pixels of an image.
pub fn count_zero_pixels(image: &GrayImage) -> (count: u32)
    requires
        image.wf(),
        image.pixels@.len() <= u32::MAX,
    ensures
        count == count_of(image.pixels@, 0),
{
    let counts: Vec<u32> = histogram(image);
    let black: u8 = 0;
    assert(counts@[black as int] == count_of(image.pixels@, black));
    counts[0]
}

/// The largest offset that is tried.
pub const MAX_OFFSET: i32 = 20;

/// The exposure that the offset is calibrated at: a millisecond.
pub const OFFSET_EXPOSURE: u64 = 1_000_000;

/// What follows an image that was taken to calibrate the offset.
#[derive(Clone, Copy, Debug, PartialEq, Eq, Structural)]
pub enum OffsetStep {
    /// Take another image, at this offset.
    Try(i32),
    /// This offset avoids black crush. The camera is left set to it.
    Found(i32),
    /// No offset avoids black crush.
    Failed,
    /// The calibration was cancelled.
    Aborted,
}

/// What follows an image that was taken at an offset: a thousandth of its pixels and more being
/// black calls for the next offset. The offset found is one higher than needed, for good measure.
pub open spec fn offset_step(
    offset: int,
    zero_pixels: int,
    total_pixels: int,
    cancelled: bool,
) -> OffsetStep {
    if zero_pixels < total_pixels / 1000 {
        OffsetStep::Found(
            (if offset < MAX_OFFSET {
                offset + 1
            } else {
                offset
            }) as i32,
        )
    } else if offset >= MAX_OFFSET {
        OffsetStep::Failed
    } else if cancelled {
        OffsetStep::Aborted
    } else {
        OffsetStep::Try((offset + 1) as i32)
    }
}

/// Starts to calibrate the offset, unless that was cancelled: the first offset tried is zero.
pub fn begin_offset(cancelled: bool) -> (step: OffsetStep)
    ensures
        step == (if cancelled {
            OffsetStep::Aborted
        } else {
            OffsetStep::Try(0)
        }),
{
    if cancelled {
        OffsetStep::Aborted
    } else {
        OffsetStep::Try(0)
    }
}

/// Decides what follows an image that was taken at an offset, by a camera of the given size.
/// Whether the calibration was cancelled in the meantime matters only where it would go on.
pub fn calibrate_offset(
    offset: i32,
    image: &GrayImage,
    width: i32,
    height: i32,
    cancelled: bool,
) -> (step: OffsetStep)
    requires
        image.wf(),
        image.pixels@.len() <= u32::MAX,
        0 <= offset <= MAX_OFFSET,
        0 <= width,
        0 <= height,
        width * height <= i32::MAX,
    ensures
        step == offset_step(
            offset as int,
            count_of(image.pixels@, 0),
            width * height,
            cancelled,
        ),
{
    let zero_pixels: u32 = count_zero_pixels(image);
    judge_offset(offset, zero_pixels, width * height, cancelled)
}

/// Decides what follows an image with so many black pixels that was taken at an offset.
pub fn judge_offset(offset: i32, zero_pixels: u32, total_pixels: i32, cancelled: bool) -> (step:
    OffsetStep)
    requires
        0 <= offset <= MAX_OFFSET,
        0 <= total_pixels,
    ensures
        step == offset_step(offset as int, zero_pixels as int, total_pixels as int, cancelled),
{
    if zero_pixels < (total_pixels / 1000) as u32 {
        if offset < MAX_OFFSET {
            OffsetStep::Found(offset + 1)
        } else {
            OffsetStep::Found(offset)
        }
    } else if offset >= MAX_OFFSET {
        OffsetStep::Failed
    } else if cancelled {
        OffsetStep::Aborted
    } else {
        OffsetStep::Try(offset + 1)
    }
}

/// The offset to set the camera to once a step is known: the one to try, or the one that was
/// found. Otherwise the camera stays as it is.
pub fn offset_to_set(step: OffsetStep) -> (offset: Option<i32>)
    ensures
        offset == (match step {
            OffsetStep::Try(offset) => Some(offset),
            OffsetStep::Found(offset) => Some(offset),
            OffsetStep::Failed => None,
            OffsetStep::Aborted => None,
        }),
{
    match step {
        OffsetStep::Try(offset) => Some(offset),
        OffsetStep::Found(offset) => Some(offset),
        OffsetStep::Failed => None,
        OffsetStep::Aborted => None,
    }
}

/// The offsets that are tried go up one by one and stay within the limit, so that calibrating
/// ends; the offset found is within the limit too.
pub proof fn law_offsets_go_up(
    offset: int,
    zero_pixels: int,
    total_pixels: int,
    cancelled: bool,
)
    requires
        0 <= offset <= MAX_OFFSET,
    ensures
        offset_step(offset, zero_pixels, total_pixels, cancelled) matches OffsetStep::Try(next)
            ==> next == offset + 1 && next <= MAX_OFFSET,
        offset_step(offset, zero_pixels, total_pixels, cancelled) matches OffsetStep::Found(found)
            ==> offset <= found <= MAX_OFFSET,
{
}

/// What follows an attempt to get an image from the camera.
#[derive(Clone, Copy, Debug, PartialEq, Eq, Structural)]
pub enum CaptureStep {
    /// There is none yet: sleep a little and ask again.
    Wait,
    /// It was not taken with the current settings: ask for the next.
    Skip,
    /// It can be used.
    Take,
}

/// Decides what follows an attempt to get an image; where there is one, it is known whether it
/// was taken with the camera's current settings.
pub fn judge_capture(params_accurate: Option<bool>) -> (step: CaptureStep)
    ensures
        step == (match params_accurate {
            None => CaptureStep::Wait,
            Some(accurate) => if accurate {
                CaptureStep::Take
            } else {
                CaptureStep::Skip
            },
        }),
{
    match params_accurate {
        None => CaptureStep::Wait,
        Some(accurate) => if accurate {
            CaptureStep::Take
        } else {
            CaptureStep::Skip
        },
    }
}

/// The mean of the pixels above which the sky is too bright, in thousandths.
pub const BRIGHT_SKY: u32 = 192_000;

/// What follows an image that was taken to calibrate the exposure.
#[derive(Clone, Copy, Debug, PartialEq, Eq, Structural)]
pub enum ExposureStep {
    /// Take another image, at this exposure.
    Again(u64),
    /// Set the camera to this exposure, which gives about the number of stars wanted.
    Found(u64),
    /// Set the camera back to the exposure it had.
    Failed(ExposureCalibrationError),
}

/// Starts to calibrate the exposure, unless that was cancelled: the first image is taken at the
/// exposure to start with.
pub fn begin_exposure(initial_exposure: u64, cancelled: bool) -> (step: ExposureStep)
    ensures
        step == (if cancelled {
            ExposureStep::Failed(ExposureCalibrationError::Aborted)
        } else {
            ExposureStep::Again(initial_exposure)
        }),
{
    if cancelled {
        ExposureStep::Failed(ExposureCalibrationError::Aborted)
    } else {
        ExposureStep::Again(initial_exposure)
    }
}

/// What was seen in an image that was taken to calibrate the exposure.
#[derive(Clone, Copy, Debug, PartialEq, Eq, Structural)]
pub struct ExposureTrial {
    /// Which image this is: the first, the second or the third.
    pub round: u32,
    /// Its exposure.
    pub exposure: u64,
    /// How many stars were detected.
    pub stars: u32,
    /// The mean of the pixels, in thousandths.
    pub mean: u32,
    /// How many stars are wanted.
    pub star_count_goal: i32,
    /// The longest exposure.
    pub max_exposure: u64,
}

/// The number of stars that a trial counts with: one where there is none.
pub open spec fn counted_stars(trial: ExposureTrial) -> int {
    if trial.stars == 0 {
        1
    } else {
        trial.stars as int
    }
}

/// The exposure that should give the number of stars wanted, where stars are as many as the
/// exposure is long, up to the longest.
pub open spec fn scaled_exposure(trial: ExposureTrial) -> int {
    let scaled = crate::detect_engine::times_fraction(
        trial.exposure as int,
        trial.star_count_goal as int,
        counted_stars(trial),
    );
    if scaled > trial.max_exposure {
        trial.max_exposure as int
    } else {
        scaled
    }
}

/// Whether the number of stars is within a fifth of the number wanted.
pub open spec fn is_near_goal(trial: ExposureTrial) -> bool {
    &&& counted_stars(trial) * 10 > trial.star_count_goal * 8
    &&& counted_stars(trial) * 10 < trial.star_count_goal * 12
}

/// What follows an image that was taken to calibrate the exposure. Up to three are taken. With
/// too few stars a bright sky ends the calibration, and from the second image on so does the
/// longest exposure.
pub open spec fn exposure_step(trial: ExposureTrial, cancelled: bool) -> ExposureStep {
    let short = counted_stars(trial) < trial.star_count_goal;
    let scaled = scaled_exposure(trial) as u64;
    if is_near_goal(trial) {
        ExposureStep::Found(scaled)
    } else if short && trial.mean > BRIGHT_SKY {
        ExposureStep::Failed(ExposureCalibrationError::BrightSky)
    } else if short && trial.round > 1 && trial.exposure >= trial.max_exposure {
        ExposureStep::Failed(ExposureCalibrationError::TooFewStars)
    } else if trial.round >= 3 {
        ExposureStep::Found(scaled)
    } else if cancelled {
        ExposureStep::Failed(ExposureCalibrationError::Aborted)
    } else {
        ExposureStep::Again(scaled)
    }
}

/// Decides what follows an image that was taken to calibrate the exposure. Whether the
/// calibration was cancelled in the meantime matters only where it would go on.
pub fn calibrate_exposure_duration(trial: &ExposureTrial, cancelled: bool) -> (step: ExposureStep)
    requires
        trial.star_count_goal >= 0,
    ensures
        step == exposure_step(*trial, cancelled),
{
    let stars: u128 = if trial.stars == 0 { 1 } else { trial.stars as u128 };
    let goal: u128 = trial.star_count_goal as u128;
    proof {
        assert(0 <= trial.exposure * trial.star_count_goal <= 0xffff_ffff_ffff_ffff * 0x7fff_ffff)
            by (nonlinear_arith)
            requires
                0 <= trial.exposure <= 0xffff_ffff_ffff_ffff,
                0 <= trial.star_count_goal <= 0x7fff_ffff,
        ;
    }
    let mut scaled: u128 = (trial.exposure as u128 * goal * 2 + stars) / (stars * 2);
    if scaled > trial.max_exposure as u128 {
        scaled = trial.max_exposure as u128;
    }
    let scaled: u64 = scaled as u64;
    if stars * 10 > goal * 8 && stars * 10 < goal * 12 {
        return ExposureStep::Found(scaled);
    }
    if stars < goal {
        if trial.mean > BRIGHT_SKY {
            return ExposureStep::Failed(ExposureCalibrationError::BrightSky);
        }
        if trial.round > 1 && trial.exposure >= trial.max_exposure {
            return ExposureStep::Failed(ExposureCalibrationError::TooFewStars);
        }
    }
    if trial.round >= 3 {
        return ExposureStep::Found(scaled);
    }
    if cancelled {
        return ExposureStep::Failed(ExposureCalibrationError::Aborted);
    }
    ExposureStep::Again(scaled)
}

/// No exposure beyond the longest is set, and the third image is the last.
pub proof fn law_exposure_is_limited(trial: ExposureTrial, cancelled: bool)
    requires
        trial.star_count_goal >= 0,
    ensures
        exposure_step(trial, cancelled) matches ExposureStep::Again(exposure) ==> exposure
            <= trial.max_exposure && trial.round < 3 && !cancelled,
        exposure_step(trial, cancelled) matches ExposureStep::Found(exposure) ==> exposure
            <= trial.max_exposure,
{
    assert(0 <= trial.exposure * trial.star_count_goal) by (nonlinear_arith)
        requires
            0 <= trial.exposure,
            0 <= trial.star_count_goal,
    ;
    assert(0 <= scaled_exposure(trial)) by {
        let num = trial.exposure * trial.star_count_goal * 2 + counted_stars(trial);
        let den = counted_stars(trial) * 2;
        assert(num >= 0 && den > 0);
        assert(0 <= num / den) by (nonlinear_arith)
            requires
                num >= 0,
                den > 0,
        ;
    }
}

/// Where a plate solution was found, as far as the optics depend on it.
#[derive(Clone, Copy, Debug, PartialEq, Eq, Structural)]
pub struct OpticalSolution {
    /// The horizontal field of view.
    pub fov: i64,
    /// The distortion of the lens.
    pub distortion: i64,
    /// The error that nine tenths of the stars stay below.
    pub p90_error: i64,
}

/// What the optics turn out to be.
#[derive(Clone, Copy, Debug, PartialEq, Eq, Structural)]
pub struct OpticalCalibration {
    /// The horizontal field of view.
    pub fov: i64,
    /// The distortion of the lens.
    pub distortion: i64,
    /// How far a pattern may be off.
    pub match_max_error: i64,
    /// How long a solution takes.
    pub solve_duration: u64,
}

/// Sets up the first solution, which knows nothing of the field of view and the distortion, and
/// is generous with errors.
pub fn first_solve_params() -> (params: SolveParams)
    ensures
        params == (SolveParams {
            fov_estimate: None,
            match_radius: None,
            match_threshold: None,
            solve_timeout: None,
            distortion: Some(0),
            match_max_error: Some(5_000_000),
        }),
{
    let mut params: SolveParams = SolveParams::default();
    params.distortion = Some(0);
    params.match_max_error = Some(5_000_000);
    params
}

/// How far a pattern may be off: twice the error that nine tenths of the stars stay below, as a
/// part of the field of view.
pub open spec fn max_error_of(solution: OpticalSolution) -> int {
    crate::detect_engine::times_fraction(
        solution.p90_error as int,
        2_000_000_000,
        solution.fov as int,
    )
}

/// Whether a solution lies within the range that is dealt with: a field of view of a turn at most,
/// and an error no larger than the field of view.
pub open spec fn solution_in_range(solution: OpticalSolution) -> bool {
    &&& 0 < solution.fov <= crate::units::FULL_TURN
    &&& 0 <= solution.p90_error <= solution.fov
}

/// Sets up the second solution, which measures how long one takes, from the first: with its field
/// of view, distortion and errors. A failure of the first ends the calibration, and so does a
/// cancellation.
pub fn second_solve_params(
    first: Result<OpticalSolution, CanonicalErrorCode>,
    cancelled: bool,
) -> (r: Result<SolveParams, CanonicalErrorCode>)
    requires
        first matches Ok(solution) ==> solution_in_range(solution),
    ensures
        r == (match first {
            Err(code) => Err::<SolveParams, CanonicalErrorCode>(code),
            Ok(solution) => if cancelled {
                Err(CanonicalErrorCode::Aborted)
            } else {
                Ok(
                    SolveParams {
                        fov_estimate: Some((solution.fov, ((solution.fov + 5) / 10) as i64)),
                        match_radius: None,
                        match_threshold: None,
                        solve_timeout: None,
                        distortion: Some(solution.distortion),
                        match_max_error: Some(max_error_of(solution) as i64),
                    },
                )
            },
        }),
{
    match first {
        Err(code) => Err(code),
        Ok(solution) => {
            if cancelled {
                return Err(CanonicalErrorCode::Aborted);
            }
            let mut params: SolveParams = SolveParams::default();
            params.fov_estimate = Some((solution.fov, (solution.fov + 5) / 10));
            params.distortion = Some(solution.distortion);
            params.match_max_error = Some(compute_max_error(&solution));
            Ok(params)
        },
    }
}

/// Computes how far a pattern may be off.
fn compute_max_error(solution: &OpticalSolution) -> (error: i64)
    requires
        solution_in_range(*solution),
    ensures
        error == max_error_of(*solution),
        0 <= error <= 2_000_000_001,
{
    let num: i128 = solution.p90_error as i128 * 2_000_000_000 * 2 + solution.fov as i128;
    let den: i128 = solution.fov as i128 * 2;
    assert(0 <= num as int / den as int <= 2_000_000_001) by (nonlinear_arith)
        requires
            0 <= num <= 4_000_000_001 * (den / 2),
            den > 1,
    ;
    (num / den) as i64
}

/// Ends the calibration of the optics with how long the second solution took. Its failure comes
/// unexpected.
pub fn finish_optical(
    first: OpticalSolution,
    solve_time: Result<u64, CanonicalErrorCode>,
) -> (r: Result<OpticalCalibration, CanonicalErrorCode>)
    requires
        solution_in_range(first),
    ensures
        r == (match solve_time {
            Ok(solve_duration) => Ok::<OpticalCalibration, CanonicalErrorCode>(
                OpticalCalibration {
                    fov: first.fov,
                    distortion: first.distortion,
                    match_max_error: max_error_of(first) as i64,
                    solve_duration,
                },
            ),
            Err(_) => Err(CanonicalErrorCode::Internal),
        }),
{
    match solve_time {
        Ok(solve_duration) => Ok(
            OpticalCalibration {
                fov: first.fov,
                distortion: first.distortion,
                match_max_error: compute_max_error(&first),
                solve_duration,
            },
        ),
        Err(_) => Err(CanonicalErrorCode::Internal),
    }
}

/// What an image leads to while the exposure is calibrated, by the stars that it shows; none
/// count as one. Close to the number wanted, by a fifth, the exposure is found. Where stars are
/// missing, a bright sky ends the calibration, and so does the longest exposure from the second
/// image on, and nothing else does: the third image always ends with an exposure otherwise. A
/// cancellation matters only where another image would be taken.
pub proof fn law_calibration_ends_as_it_should(
    trial: ExposureTrial,
    cancelled: bool,
    step: ExposureStep,
)
    requires
        trial.star_count_goal >= 0,
        call_ensures(calibrate_exposure_duration, (&trial, cancelled), step),
    ensures
        ({
            let stars: int = if trial.stars == 0 { 1 } else { trial.stars as int };
            let goal = trial.star_count_goal as int;
            let close = 8 * goal < 10 * stars < 12 * goal;
            let missing = !close && stars < goal;
            let bright = missing && trial.mean > 192_000;
            let longest = missing && !bright && trial.round >= 2 && trial.exposure
                >= trial.max_exposure;
            let ended = close || (trial.round >= 3 && !bright && !longest);
            &&& step == ExposureStep::Failed(ExposureCalibrationError::BrightSky) <==> bright
            &&& step == ExposureStep::Failed(ExposureCalibrationError::TooFewStars) <==> longest
            &&& step == ExposureStep::Failed(ExposureCalibrationError::Aborted) <==> cancelled
                && !bright && !longest && !ended
            &&& step is Found <==> ended
            &&& step is Again <==> !cancelled && !bright && !longest && !ended
        }),
        trial.round >= 3 && trial.mean <= 192_000 && trial.exposure < trial.max_exposure
            ==> step is Found,
{
}

/// The exposure that follows gives the number of stars wanted, where stars are as many as it is
/// long: times the stars of this image it is the exposure of this image times the number wanted,
/// but for rounding and for the longest exposure.
pub proof fn law_calibration_scales_the_exposure(
    trial: ExposureTrial,
    cancelled: bool,
    step: ExposureStep,
    exposure: u64,
)
    requires
        trial.star_count_goal >= 0,
        call_ensures(calibrate_exposure_duration, (&trial, cancelled), step),
        step == ExposureStep::Again(exposure) || step == ExposureStep::Found(exposure),
    ensures
        exposure <= trial.max_exposure,
        ({
            let stars: int = if trial.stars == 0 { 1 } else { trial.stars as int };
            let off = 2 * exposure * stars - 2 * trial.exposure * trial.star_count_goal;
            &&& off <= stars
            &&& exposure < trial.max_exposure ==> -stars <= off
        }),
{
    law_exposure_is_limited(trial, cancelled);
    let stars: int = if trial.stars == 0 { 1 } else { trial.stars as int };
    let old_exposure = trial.exposure as int;
    let goal = trial.star_count_goal as int;
    let scaled = crate::detect_engine::times_fraction(old_exposure, goal, stars);
    let n = old_exposure * goal * 2 + stars;
    vstd::arithmetic::div_mod::lemma_fundamental_div_mod(n, stars * 2);
    assert((stars * 2) * scaled == 2 * scaled * stars) by (nonlinear_arith);
    assert(old_exposure * goal * 2 == 2 * old_exposure * goal) by (nonlinear_arith);
    assert(old_exposure * goal >= 0) by (nonlinear_arith)
        requires
            old_exposure >= 0,
            goal >= 0,
    ;
    assert(scaled >= 0) by (nonlinear_arith)
        requires
            n >= 0,
            stars > 0,
            n == (stars * 2) * scaled + n % (stars * 2),
            n % (stars * 2) < stars * 2,
    ;
    let e = exposure as int;
    assert(e <= scaled);
    assert(2 * e * stars <= 2 * scaled * stars) by (nonlinear_arith)
        requires
            e <= scaled,
            stars > 0,
    ;
}

/// An offset is found as soon as less than a thousandth of the pixels is black, and the camera is
/// set to the next one, up to twenty. Otherwise the next one is tried. There is none after twenty,
/// and a cancellation ends the search, but not once the offset is found.
pub proof fn law_offset_avoids_black(
    offset: i32,
    zero_pixels: u32,
    total_pixels: i32,
    cancelled: bool,
    step: OffsetStep,
    set: Option<i32>,
)
    requires
        0 <= offset <= 20,
        0 <= total_pixels,
        call_ensures(judge_offset, (offset, zero_pixels, total_pixels, cancelled), step),
        call_ensures(offset_to_set, (step,), set),
    ensures
        step is Found <==> 1000 * (zero_pixels + 1) <= total_pixels,
        step is Found && offset < 20 ==> set == Some((offset + 1) as i32),
        step is Found && offset == 20 ==> set == Some(20i32),
        step is Found || step is Try ==> step == OffsetStep::Found(set->0) || step
            == OffsetStep::Try(set->0),
        step is Failed <==> 1000 * (zero_pixels + 1) > total_pixels && offset == 20,
        step is Aborted <==> 1000 * (zero_pixels + 1) > total_pixels && offset < 20 && cancelled,
        step is Try ==> set == Some((offset + 1) as i32),
        step is Failed || step is Aborted ==> set is None,
{
}

/// An image is judged by its black pixels, against the size of the camera.
pub proof fn law_offset_counts_black(
    offset: i32,
    image: GrayImage,
    width: i32,
    height: i32,
    cancelled: bool,
    step: OffsetStep,
    black: u32,
    judged: OffsetStep,
)
    requires
        0 <= offset <= 20,
        0 <= width,
        0 <= height,
        width * height <= i32::MAX,
        call_ensures(calibrate_offset, (offset, &image, width, height, cancelled), step),
        call_ensures(count_zero_pixels, (&image,), black),
        call_ensures(judge_offset, (offset, black, (width * height) as i32, cancelled), judged),
    ensures
        step == judged,
        (forall|i: int| 0 <= i < image.pixels@.len() ==> image.pixels@[i] != 0) ==> black == 0,
        (forall|i: int| 0 <= i < image.pixels@.len() ==> image.pixels@[i] == 0) ==> black
            == image.pixels@.len(),
{
    assert(0 <= width * height) by (nonlinear_arith)
        requires
            0 <= width,
            0 <= height,
    ;
    law_pixels_are_counted(image.pixels@, 0);
}

/// All pixels count where all have the value, and none where none has. One more counts where it
/// has the value.
pub proof fn law_pixels_are_counted(pixels: Seq<u8>, value: u8)
    ensures
        (forall|i: int| 0 <= i < pixels.len() ==> pixels[i] != value) ==> count_of(pixels, value)
            == 0,
        (forall|i: int| 0 <= i < pixels.len() ==> pixels[i] == value) ==> count_of(pixels, value)
            == pixels.len(),
        count_of(pixels.push(value), value) == count_of(pixels, value) + 1,
        forall|other: u8| other != value ==> count_of(#[trigger] pixels.push(other), value)
            == count_of(pixels, value),
    decreases pixels.len(),
{
    let same = |pixel: u8| pixel == value;
    reveal(Seq::filter);
    assert(pixels.push(value).drop_last() =~= pixels);
    assert forall|other: u8| other != value implies count_of(#[trigger] pixels.push(other), value)
        == count_of(pixels, value) by {
        assert(pixels.push(other).drop_last() =~= pixels);
    }
    if pixels.len() > 0 {
        let front = pixels.drop_last();
        law_pixels_are_counted(front, value);
        assert(front.push(pixels.last()) =~= pixels);
        if forall|i: int| 0 <= i < pixels.len() ==> pixels[i] != value {
            assert forall|i: int| 0 <= i < front.len() implies front[i] != value by {
                assert(front[i] == pixels[i]);
            }
            assert(pixels[pixels.len() - 1] != value);
        }
        if forall|i: int| 0 <= i < pixels.len() ==> pixels[i] == value {
            assert forall|i: int| 0 <= i < front.len() implies front[i] == value by {
                assert(front[i] == pixels[i]);
            }
            assert(pixels[pixels.len() - 1] == value);
        }
    }
}

/// The second solution looks for the field of view that the first one found, within a tenth, and
/// both it and the result allow twice the error that the first one had, as a part of the field of
/// view.
pub proof fn law_optics_go_by_the_first_solution(
    first: OpticalSolution,
    cancelled: bool,
    r: Result<SolveParams, CanonicalErrorCode>,
    solve_time: Result<u64, CanonicalErrorCode>,
    end: Result<OpticalCalibration, CanonicalErrorCode>,
)
    requires
        solution_in_range(first),
        call_ensures(
            second_solve_params,
            (Ok::<OpticalSolution, CanonicalErrorCode>(first), cancelled),
            r,
        ),
        call_ensures(finish_optical, (first, solve_time), end),
    ensures
        cancelled <==> r == Err::<SolveParams, CanonicalErrorCode>(CanonicalErrorCode::Aborted),
        r matches Ok(params) ==> {
            &&& params.fov_estimate matches Some((fov, off)) && fov == first.fov && -5 <= 10 * off
                - fov <= 5
            &&& params.distortion == Some(first.distortion)
            &&& params.match_max_error matches Some(error) && -first.fov <= 2 * error * first.fov
                - 4_000_000_000 * first.p90_error <= first.fov
            &&& params.match_radius is None && params.match_threshold is None
                && params.solve_timeout is None
        },
        end is Ok <==> solve_time is Ok,
        end matches Ok(optics) ==> {
            &&& optics.fov == first.fov && optics.distortion == first.distortion
            &&& solve_time == Ok::<u64, CanonicalErrorCode>(optics.solve_duration)
            &&& !cancelled ==> (r matches Ok(params) && params.match_max_error == Some(
                optics.match_max_error,
            ))
        },
        end matches Err(code) ==> code == CanonicalErrorCode::Internal,
{
    let p = first.p90_error as int;
    let f = first.fov as int;
    let e = max_error_of(first);
    let n = p * 2_000_000_000 * 2 + f;
    vstd::arithmetic::div_mod::lemma_fundamental_div_mod(n, f * 2);
    assert((f * 2) * e == 2 * e * f) by (nonlinear_arith);
    assert(0 <= e <= 2_000_000_001) by (nonlinear_arith)
        requires
            n == (f * 2) * e + n % (f * 2),
            0 <= n % (f * 2) < f * 2,
            n == p * 2_000_000_000 * 2 + f,
            0 <= p <= f,
            f > 0,
    ;
}

/// A calibration that is cancelled before it starts does nothing; else offsets are tried from zero,
/// and the exposure from the one to start with. Images that are still to come are waited for, and
/// those taken with other settings passed over.
pub proof fn law_calibration_begins(
    cancelled: bool,
    offset: OffsetStep,
    initial: u64,
    exposure: ExposureStep,
    accurate: Option<bool>,
    capture: CaptureStep,
    params: SolveParams,
)
    requires
        call_ensures(begin_offset, (cancelled,), offset),
        call_ensures(begin_exposure, (initial, cancelled), exposure),
        call_ensures(judge_capture, (accurate,), capture),
        call_ensures(first_solve_params, (), params),
    ensures
        cancelled ==> offset == OffsetStep::Aborted && exposure == ExposureStep::Failed(
            ExposureCalibrationError::Aborted,
        ),
        !cancelled ==> offset == OffsetStep::Try(0) && exposure == ExposureStep::Again(initial),
        capture == CaptureStep::Wait <==> accurate is None,
        capture == CaptureStep::Take <==> accurate == Some(true),
        capture == CaptureStep::Skip <==> accurate == Some(false),
        params.fov_estimate is None && params.solve_timeout is None && params.match_radius is None
            && params.match_threshold is None && params.distortion == Some(0i64)
            && params.match_max_error == Some(5_000_000i64),
{
}

} // verus!
