//! The frame that the user interface gets while there is no serving engine between it and the
//! detector and solver: everything about it but the pixels.
//!
//! Angles are in microarcseconds and image coordinates in micropixels.

use vstd::prelude::*;

use crate::astro_util::{fill_in_detections, FovCatalogEntry, ImageCoord, StarCentroid};
use crate::calibration::{calibration_progress, CalibrationData};
use crate::cedar::{
    normalize_angle, remainder_angle, DisplayOrientation, MountType, OperatingMode, SlewRequest,
};
use crate::image_utils::{ImageRotator, Rectangle};
use crate::polling::{poll_result, Poll};
use crate::serve_engine::{
    add_offsets, boresight_coords, copy_solution, plan_display, show_entries, show_place,
    show_stars, CatalogStar, Closeup, DetectResult, DisplayPlan, Horizon, LocationBasedInfo,
    PlateSolution, Solution,
};
use crate::units::MICROARCSECONDS_PER_DEGREE;

verus! {

/// The state of the server that a frame depends on.
#[derive(Clone, Copy, Debug)]
pub struct FrameContext {
    /// The mode of operation.
    pub operating_mode: OperatingMode,
    /// Whether the user is helped to focus.
    pub focus_assist_mode: bool,
    /// The user's mount.
    pub mount_type: Option<MountType>,
    /// Whether the display is wider than high.
    pub landscape: bool,
    /// How many pixels across the detector bins into one.
    pub detect_binning: u32,
    /// Whether the display image is sampled down once more.
    pub display_sampling: bool,
    /// Where the telescope points in the image, if that is known.
    pub boresight_pixel: Option<ImageCoord>,
    /// The rotator that was used last, if any.
    pub previous_rotator: Option<ImageRotator>,
    /// What the last calibration found out.
    pub calibration_data: CalibrationData,
}

/// Everything about a frame but the pixels.
#[derive(Debug)]
pub struct NextFrame {
    /// Identifies the frame.
    pub frame_id: i32,
    /// How long it was exposed, in nanoseconds.
    pub exposure_time: u64,
    /// When it was captured, in nanoseconds since 1970 (UTC).
    pub capture_time: u64,
    /// Whether it was taken in daylight mode.
    pub daylight_mode: bool,
    /// The noise of the image, in thousandths.
    pub noise_estimate: u64,
    /// The solution, if there is one, with its roll once the image is rotated.
    pub plate_solution: Option<Solution>,
    /// What the last calibration found out.
    pub calibration_data: CalibrationData,
    /// What the place of the observer adds.
    pub location_based_info: Option<LocationBasedInfo>,
    /// How the image is rotated, if it is.
    pub image_rotator: Option<ImageRotator>,
    /// The rotator to remember.
    pub retained_rotator: Option<ImageRotator>,
    /// How the display image is made.
    pub display: DisplayPlan,
    /// The brightest point near the center.
    pub center_peak_position: Option<ImageCoord>,
    /// Its pixel value.
    pub center_peak_value: Option<i32>,
    /// The part of the image around it.
    pub center_peak_image: Option<Closeup>,
    /// The part of the sensor that the display image shows.
    pub image_rectangle: Rectangle,
    /// The slew in progress.
    pub slew_request: Option<SlewRequest>,
    /// The part of the image around the boresight.
    pub boresight_image: Option<Closeup>,
    /// The catalog objects to label.
    pub labeled_catalog_entries: Vec<FovCatalogEntry>,
    /// The catalog objects to show without a label.
    pub unlabeled_catalog_entries: Vec<FovCatalogEntry>,
    /// Where the telescope points.
    pub boresight_position: ImageCoord,
    /// The stars.
    pub star_candidates: Vec<StarCentroid>,
}

/// What a request for a frame asks for.
#[derive(Clone, Copy, Debug, PartialEq, Eq, Structural)]
pub struct FrameOptions {
    /// Whether not to wait for a frame.
    pub non_blocking: bool,
    /// Whether the display is wider than high.
    pub landscape: bool,
}

/// Reads what a request for a frame asks for. It waits, for a display that is wider than high,
/// unless it says otherwise.
pub fn frame_options(
    non_blocking: Option<bool>,
    orientation: Option<DisplayOrientation>,
) -> (options: FrameOptions)
    ensures
        options.non_blocking == (non_blocking == Some(true)),
        options.landscape == (orientation != Some(DisplayOrientation::Portrait)),
{
    FrameOptions {
        non_blocking: match non_blocking {
            Some(non_blocking) => non_blocking,
            None => false,
        },
        landscape: match orientation {
            Some(DisplayOrientation::Portrait) => false,
            _ => true,
        },
    }
}

/// Whether a reply to a request says that it holds a frame. One that waits always does, and does
/// not say so.
pub fn has_result(non_blocking: bool, found: bool) -> (said: Option<bool>)
    requires
        found || non_blocking,
    ensures
        said == (if !found {
            Some(false)
        } else if non_blocking {
            Some(true)
        } else {
            None
        }),
{
    if !found {
        Some(false)
    } else if non_blocking {
        Some(true)
    } else {
        None
    }
}

/// A display image that is kept, to be shown while the server calibrates.
#[derive(Clone, Copy, Debug, PartialEq, Eq, Structural)]
pub struct SavedImage {
    /// Identifies the frame that it belonged to.
    pub frame_id: i32,
    /// How many pixels it has across.
    pub width: u32,
    /// How many pixels it is high.
    pub height: u32,
    /// How many sensor pixels across make one of its pixels.
    pub binning_factor: u32,
}

/// The part of the sensor that a kept image stands for, as it is sent while calibrating.
#[derive(Clone, Copy, Debug, PartialEq, Eq, Structural)]
pub struct RepeatedImage {
    /// Identifies the frame that the image belonged to.
    pub frame_id: i32,
    /// How many sensor pixels across make one of its pixels.
    pub binning_factor: u32,
    /// The part of the sensor, in sensor pixels.
    pub rectangle: Rectangle,
}

/// What is sent while the server calibrates, but for the pixels and the data of the calibration
/// before.
#[derive(Clone, Copy, Debug, PartialEq, Eq, Structural)]
pub struct CalibratingFrame {
    /// That the server calibrates.
    pub calibrating: bool,
    /// How far it has come, in millionths.
    pub progress: u32,
    /// Whether the reply says that it holds a frame.
    pub has_result: Option<bool>,
    /// The image that was kept, if there is one.
    pub image: Option<RepeatedImage>,
    /// Whether the settings and the preferences are sent along: they go with the image.
    pub with_settings: bool,
}

/// Whether the sensor pixels of a kept image can be counted.
pub open spec fn saved_image_fits(saved: Option<SavedImage>) -> bool {
    saved matches Some(saved) ==> {
        &&& saved.width * saved.binning_factor <= i32::MAX
        &&& saved.height * saved.binning_factor <= i32::MAX
    }
}

/// What is sent while the server calibrates: how far it has come, and the image that was kept.
pub open spec fn calibrating_frame_value(
    elapsed: int,
    estimate: int,
    saved: Option<SavedImage>,
    non_blocking: bool,
) -> CalibratingFrame {
    CalibratingFrame {
        calibrating: true,
        progress: crate::calibration::progress_value(elapsed, estimate) as u32,
        has_result: if non_blocking {
            Some(true)
        } else {
            None
        },
        image: match saved {
            Some(saved) => Some(
                RepeatedImage {
                    frame_id: saved.frame_id,
                    binning_factor: saved.binning_factor,
                    rectangle: Rectangle {
                        origin_x: 0,
                        origin_y: 0,
                        width: (saved.width * saved.binning_factor) as i32,
                        height: (saved.height * saved.binning_factor) as i32,
                    },
                },
            ),
            None => None,
        },
        with_settings: saved is Some,
    }
}

/// Puts together what is sent while the server calibrates, from how long it has done so and how
/// long it is estimated to.
pub fn calibrating_frame(
    elapsed: u64,
    estimate: u64,
    saved: Option<SavedImage>,
    non_blocking: bool,
) -> (frame: CalibratingFrame)
    requires
        estimate > 0,
        saved_image_fits(saved),
    ensures
        frame == calibrating_frame_value(elapsed as int, estimate as int, saved, non_blocking),
        frame.calibrating,
        frame.progress == crate::calibration::progress_value(elapsed as int, estimate as int),
        frame.progress <= 1_000_000,
        frame.image is Some <==> saved is Some,
{
    let image: Option<RepeatedImage> = match saved {
        Some(saved) => Some(
            RepeatedImage {
                frame_id: saved.frame_id,
                binning_factor: saved.binning_factor,
                rectangle: repeated_rectangle(saved.width, saved.height, saved.binning_factor),
            },
        ),
        None => None,
    };
    CalibratingFrame {
        calibrating: true,
        progress: calibration_progress(elapsed, estimate),
        has_result: has_result(non_blocking, true),
        image,
        with_settings: saved.is_some(),
    }
}

/// A calibration under way. Times are in nanoseconds.
#[derive(Clone, Copy, Debug, PartialEq, Eq, Structural)]
pub struct CalibrationUnderWay {
    /// How long it has been going on.
    pub elapsed: u64,
    /// How long it is estimated to take.
    pub estimate: u64,
}

/// How a request for a frame is answered.
#[derive(Clone, Copy, Debug, PartialEq, Eq, Structural)]
pub enum FrameReply {
    /// At once, while the server calibrates.
    Calibrating(CalibratingFrame),
    /// With the frame that was posted.
    Live {
        /// Whether the reply says that it holds a frame.
        has_result: Option<bool>,
    },
    /// At once, without a frame.
    NoFrame,
    /// Not yet.
    Wait,
}

/// How a request for a frame is answered. A server that calibrates answers at once, whatever frame
/// the client has seen last and whether it waits. Otherwise a frame that is news is sent, and a
/// client that does not wait is told where there is none.
pub fn answer_frame_request(
    calibration: Option<CalibrationUnderWay>,
    saved: Option<SavedImage>,
    posted_frame_id: Option<i32>,
    prev_frame_id: Option<i32>,
    non_blocking: bool,
) -> (reply: FrameReply)
    requires
        calibration matches Some(run) ==> run.estimate > 0 && saved_image_fits(saved),
    ensures
        reply == (match calibration {
            Some(run) => FrameReply::Calibrating(
                calibrating_frame_value(
                    run.elapsed as int,
                    run.estimate as int,
                    saved,
                    non_blocking,
                ),
            ),
            None => if crate::polling::is_news(posted_frame_id, prev_frame_id) {
                FrameReply::Live {
                    has_result: if non_blocking {
                        Some(true)
                    } else {
                        None
                    },
                }
            } else if non_blocking {
                FrameReply::NoFrame
            } else {
                FrameReply::Wait
            },
        }),
{
    if let Some(run) = calibration {
        return FrameReply::Calibrating(
            calibrating_frame(run.elapsed, run.estimate, saved, non_blocking),
        );
    }
    match poll_result(posted_frame_id, prev_frame_id, non_blocking) {
        Poll::Take => FrameReply::Live { has_result: has_result(non_blocking, true) },
        Poll::GiveUp => FrameReply::NoFrame,
        Poll::Wait => FrameReply::Wait,
    }
}

/// A server that calibrates answers every request alike and at once, whatever was posted and
/// whatever the client has seen: it says that it calibrates, how far it has come, which lies
/// between nothing and all of it, and sends an image exactly where one was kept.
pub proof fn law_calibrating_answers_at_once(
    elapsed: int,
    estimate: int,
    saved: Option<SavedImage>,
    non_blocking: bool,
)
    requires
        0 <= elapsed,
        0 < estimate,
    ensures
        ({
            let frame = calibrating_frame_value(elapsed, estimate, saved, non_blocking);
            &&& frame.calibrating
            &&& 0 <= frame.progress <= 1_000_000
            &&& frame.progress == crate::calibration::progress_value(elapsed, estimate)
            &&& non_blocking ==> frame.has_result == Some(true)
            &&& frame.image is Some <==> saved is Some
            &&& frame.with_settings <==> saved is Some
        }),
{
    if elapsed < estimate {
        assert(0 <= elapsed * 1_000_000 / estimate <= 1_000_000) by (nonlinear_arith)
            requires
                0 <= elapsed < estimate,
        ;
    }
}

/// Whether a frame comes from the detector alone: while focusing in setup mode. Otherwise it
/// comes from the solver.
pub fn is_from_detector(operating_mode: OperatingMode, focus_assist_mode: bool) -> (detector: bool)
    ensures
        detector == (operating_mode == OperatingMode::Setup && focus_assist_mode),
{
    operating_mode == OperatingMode::Setup && focus_assist_mode
}

/// The part of the sensor that a display image of the given size shows. While calibrating, the
/// last display image is sent again.
pub fn repeated_rectangle(width: u32, height: u32, binning_factor: u32) -> (rectangle: Rectangle)
    requires
        width * binning_factor <= i32::MAX,
        height * binning_factor <= i32::MAX,
    ensures
        rectangle == (Rectangle {
            origin_x: 0,
            origin_y: 0,
            width: (width * binning_factor) as i32,
            height: (height * binning_factor) as i32,
        }),
{
    Rectangle {
        origin_x: 0,
        origin_y: 0,
        width: (width * binning_factor) as i32,
        height: (height * binning_factor) as i32,
    }
}

/// A part of the captured image shown enlarged. The grid of a color sensor is binned away.
pub open spec fn plain_closeup(region: Option<Rectangle>, is_color: bool) -> Option<Closeup> {
    match region {
        Some(rectangle) => Some(
            Closeup {
                rectangle,
                binning_factor: if is_color {
                    2
                } else {
                    1
                },
                bin: is_color,
            },
        ),
        None => None,
    }
}

/// Decides how a part of the captured image is shown enlarged.
fn plan_plain_closeup(region: Option<Rectangle>, is_color: bool) -> (closeup: Option<Closeup>)
    ensures
        closeup == plain_closeup(region, is_color),
{
    match region {
        Some(rectangle) => Some(
            Closeup { rectangle, binning_factor: if is_color { 2 } else { 1 }, bin: is_color },
        ),
        None => None,
    }
}

/// Whether the image of a detection may be rotated: not while focusing or in daylight.
pub open spec fn may_rotate(detection: DetectResult) -> bool {
    detection.focus_aid is None && !detection.daylight_mode
}

/// The rotator to remember: the one that turns the zenith up where that is known and the image
/// may be rotated, and the one before otherwise.
pub open spec fn remembered_rotator<T: Fn(i64) -> (i64, i64)>(
    detection: DetectResult,
    context: FrameContext,
    info: Option<LocationBasedInfo>,
    trig: T,
) -> Option<ImageRotator> {
    match info {
        Some(info) => if may_rotate(detection) {
            Some(
                crate::serve_engine::rotator_by(
                    trig,
                    crate::serve_engine::upright_angle(
                        info.zenith_roll_angle as int,
                        context.landscape,
                    ) as i64,
                ),
            )
        } else {
            context.previous_rotator
        },
        None => context.previous_rotator,
    }
}

/// How the image of a detection is rotated, if it is.
pub open spec fn used_rotator<T: Fn(i64) -> (i64, i64)>(
    detection: DetectResult,
    context: FrameContext,
    info: Option<LocationBasedInfo>,
    trig: T,
) -> Option<ImageRotator> {
    if may_rotate(detection) {
        remembered_rotator(detection, context, info, trig)
    } else {
        None
    }
}

/// What the place of the observer adds, once the image is rotated.
pub open spec fn info_after(
    detection: DetectResult,
    context: FrameContext,
    info: Option<LocationBasedInfo>,
) -> Option<LocationBasedInfo> {
    match info {
        Some(info) => if may_rotate(detection) {
            Some(
                LocationBasedInfo {
                    zenith_roll_angle: (info.zenith_roll_angle
                        + crate::serve_engine::upright_angle(
                        info.zenith_roll_angle as int,
                        context.landscape,
                    )) as i64,
                    ..info
                },
            )
        } else {
            Some(info)
        },
        None => None,
    }
}

/// The solution behind a frame, if there is one.
pub open spec fn solution_of(outcome: Option<PlateSolution>) -> Option<Solution> {
    match outcome {
        Some(outcome) => outcome.solution,
        None => None,
    }
}

/// The roll of the solution, once the image is rotated.
pub open spec fn roll_after(
    detection: DetectResult,
    context: FrameContext,
    outcome: Option<PlateSolution>,
    info: Option<LocationBasedInfo>,
) -> Option<i64> {
    match (solution_of(outcome), info) {
        (Some(solution), Some(info)) => if may_rotate(detection) {
            Some(
                ((solution.roll + crate::serve_engine::upright_angle(
                    info.zenith_roll_angle as int,
                    context.landscape,
                )) % crate::units::FULL_TURN as int) as i64,
            )
        } else {
            Some(solution.roll)
        },
        (Some(solution), None) => Some(solution.roll),
        _ => None,
    }
}

/// Whether a solution is another with its roll turned with the image.
pub open spec fn is_turned_solution(
    turned: Option<Solution>,
    solution: Option<Solution>,
    roll: Option<i64>,
) -> bool {
    match (solution, roll) {
        (Some(solution), Some(roll)) => turned is Some && crate::serve_engine::is_same_solution(
            turned->0,
            Solution { roll, ..solution },
        ),
        _ => turned is None,
    }
}

/// A place in the image, once it is rotated.
pub open spec fn place_after(
    place: ImageCoord,
    rotator: Option<ImageRotator>,
    width: int,
    height: int,
) -> ImageCoord {
    match rotator {
        Some(rotator) => crate::serve_engine::shown_place(place, rotator, width, height, 1),
        None => place,
    }
}

/// A slew, once the image is rotated.
pub open spec fn slew_after(
    slew: SlewRequest,
    rotator: Option<ImageRotator>,
    width: int,
    height: int,
) -> SlewRequest {
    match rotator {
        Some(turn) => SlewRequest {
            image_pos: match slew.image_pos {
                Some(place) => Some(place_after(place, rotator, width, height)),
                None => None,
            },
            target_angle: crate::cedar::signed_remainder(slew.target_angle + turn.angle) as i64,
            ..slew
        },
        None => slew,
    }
}

/// The slew of a frame: turned with the image, and with the turns of the mount that it asks for
/// where there is a solution.
pub open spec fn next_slew(
    detection: DetectResult,
    outcome: Option<PlateSolution>,
    context: FrameContext,
    boresight_horizon: Option<Horizon>,
    target_horizon: Option<(i64, i64)>,
    rotator: Option<ImageRotator>,
) -> Option<SlewRequest> {
    match outcome {
        Some(outcome) => match outcome.slew_request {
            Some(slew) => {
                let turned = slew_after(
                    slew,
                    rotator,
                    detection.width as int,
                    detection.height as int,
                );
                match outcome.solution {
                    Some(solution) => Some(
                        crate::serve_engine::slew_with_offsets(
                            turned,
                            crate::serve_engine::boresight_of(solution),
                            context.mount_type,
                            boresight_horizon,
                            target_horizon,
                        ),
                    ),
                    None => Some(turned),
                }
            },
            None => None,
        },
        None => None,
    }
}

/// The catalog objects of a frame, from a list that may be missing.
pub open spec fn next_entries(
    entries: Option<Vec<FovCatalogEntry>>,
    rotator: Option<ImageRotator>,
    width: int,
    height: int,
) -> Seq<FovCatalogEntry> {
    match entries {
        Some(entries) => match rotator {
            Some(rotator) => crate::serve_engine::shown_entries(
                entries@,
                rotator,
                width,
                height,
                1,
            ),
            None => entries@,
        },
        None => Seq::empty(),
    }
}

/// The stars of the solver's catalog, as bright as their magnitude says.
pub open spec fn all_catalog_centroids<F: Fn(u64, i32, i32) -> u64>(
    stars: Seq<CatalogStar>,
    scale: F,
) -> Seq<StarCentroid> {
    Seq::new(
        stars.len(),
        |i: int|
            StarCentroid {
                centroid_position: stars[i].pixel,
                brightness: crate::serve_engine::catalog_brightness(scale, stars[i].magnitude),
                num_saturated: 0,
            },
    )
}

/// The stars of a frame. Without a rotator they are the detected ones. With one, those of the
/// solver's catalog take their place to align by, all are carried to the rotated image, and the
/// labeled catalog objects join those to align by.
pub open spec fn next_stars<F: Fn(u64, i32, i32) -> u64>(
    detection: DetectResult,
    outcome: Option<PlateSolution>,
    context: FrameContext,
    rotator: Option<ImageRotator>,
    scale: F,
) -> Seq<StarCentroid> {
    let align = context.operating_mode == OperatingMode::Setup && !context.focus_assist_mode;
    match rotator {
        None => detection.star_candidates@,
        Some(turn) => {
            let plain = match solution_of(outcome) {
                Some(solution) => if align {
                    all_catalog_centroids(solution.catalog_stars@, scale)
                } else {
                    detection.star_candidates@
                },
                None => detection.star_candidates@,
            };
            let shown = crate::serve_engine::shown_stars(
                plain,
                turn,
                detection.width as int,
                detection.height as int,
                1,
            );
            if align {
                crate::astro_util::filled_in(
                    shown,
                    next_entries(
                        match outcome {
                            Some(outcome) => outcome.fov_catalog_entries,
                            None => None,
                        },
                        rotator,
                        detection.width as int,
                        detection.height as int,
                    ),
                    scale,
                )
            } else {
                shown
            }
        },
    }
}

/// Whether a frame is the one that a detection and what the solver made of it ask for.
pub open spec fn is_next_frame<T: Fn(i64) -> (i64, i64), F: Fn(u64, i32, i32) -> u64>(
    frame: NextFrame,
    detection: DetectResult,
    outcome: Option<PlateSolution>,
    context: FrameContext,
    boresight_horizon: Option<Horizon>,
    target_horizon: Option<(i64, i64)>,
    trig: T,
    scale: F,
) -> bool {
    let info = crate::serve_engine::plain_info(outcome, boresight_horizon);
    let rotator = used_rotator(detection, context, info, trig);
    let width = detection.width as int;
    let height = detection.height as int;
    let aid = detection.focus_aid;
    &&& frame.frame_id == detection.frame_id
    &&& frame.exposure_time == detection.exposure
    &&& frame.capture_time == detection.readout_time
    &&& frame.daylight_mode == detection.daylight_mode
    &&& frame.noise_estimate == detection.noise_estimate
    &&& frame.calibration_data == context.calibration_data
    &&& frame.location_based_info == info_after(detection, context, info)
    &&& is_turned_solution(
        frame.plate_solution,
        solution_of(outcome),
        roll_after(detection, context, outcome, info),
    )
    &&& frame.image_rotator == rotator
    &&& frame.retained_rotator == remembered_rotator(detection, context, info, trig)
    &&& frame.display == crate::serve_engine::display_plan(
        detection,
        1,
        context.detect_binning as int,
        context.display_sampling,
    )
    &&& frame.center_peak_position == (match aid {
        Some(aid) => aid.center_peak_position,
        None => None,
    })
    &&& frame.center_peak_value == (match aid {
        Some(aid) => match aid.center_peak_value {
            Some(value) => Some(value as i32),
            None => None,
        },
        None => None,
    })
    &&& frame.center_peak_image == (match aid {
        Some(aid) => plain_closeup(aid.peak_image_region, detection.is_color),
        None => None,
    })
    &&& frame.image_rectangle == (Rectangle {
        origin_x: 0,
        origin_y: 0,
        width: detection.width as i32,
        height: detection.height as i32,
    })
    &&& frame.slew_request == next_slew(
        detection,
        outcome,
        context,
        boresight_horizon,
        target_horizon,
        rotator,
    )
    &&& frame.boresight_image == (match outcome {
        Some(outcome) => plain_closeup(outcome.boresight_image_region, detection.is_color),
        None => None,
    })
    &&& frame.labeled_catalog_entries@ == next_entries(
        match outcome {
            Some(outcome) => outcome.fov_catalog_entries,
            None => None,
        },
        rotator,
        width,
        height,
    )
    &&& frame.unlabeled_catalog_entries@ == next_entries(
        match outcome {
            Some(outcome) => outcome.decrowded_fov_catalog_entries,
            None => None,
        },
        rotator,
        width,
        height,
    )
    &&& frame.boresight_position == place_after(
        match context.boresight_pixel {
            Some(place) => place,
            None => ImageCoord { x: (width * 500_000) as i64, y: (height * 500_000) as i64 },
        },
        rotator,
        width,
        height,
    )
    &&& frame.star_candidates@ == next_stars(detection, outcome, context, rotator, scale)
}

/// Whether the server's numbers lie within the range that is dealt with.
pub open spec fn frame_context_in_reach(context: FrameContext) -> bool {
    &&& context.detect_binning * 2 <= u32::MAX
    &&& context.previous_rotator matches Some(rotator) ==> rotator.wf()
        && crate::cedar::angle_in_reach(rotator.angle)
    &&& context.boresight_pixel matches Some(place) ==> crate::image_utils::in_reach(place)
}

/// Carries a place to the rotated image, where there is one.
fn carry_place(place: ImageCoord, rotator: &Option<ImageRotator>, width: u32, height: u32) -> (r:
    ImageCoord)
    requires
        rotator matches Some(turn) ==> turn.wf(),
        crate::image_utils::in_reach(place),
    ensures
        r == place_after(place, *rotator, width as int, height as int),
{
    match rotator {
        Some(turn) => show_place(place, turn, width, height, 1),
        None => place,
    }
}

/// Carries catalog objects to the rotated image, where there is one.
fn carry_entries(
    entries: &Option<Vec<FovCatalogEntry>>,
    rotator: &Option<ImageRotator>,
    width: u32,
    height: u32,
) -> (r: Vec<FovCatalogEntry>)
    requires
        rotator matches Some(turn) ==> turn.wf(),
        entries matches Some(entries) ==> crate::serve_engine::entries_in_reach(entries@),
    ensures
        r@ == next_entries(*entries, *rotator, width as int, height as int),
{
    match rotator {
        Some(turn) => show_entries(entries, turn, width, height, 1),
        None => {
            let mut copied: Vec<FovCatalogEntry> = Vec::new();
            if let Some(entries) = entries {
                let mut i: usize = 0;
                while i < entries.len()
                    invariant
                        i <= entries@.len(),
                        copied@ == entries@.take(i as int),
                    decreases entries@.len() - i,
                {
                    copied.push(entries[i]);
                    i = i + 1;
                    assert(copied@ =~= entries@.take(i as int));
                }
                assert(copied@ =~= entries@);
            }
            copied
        },
    }
}

/// Turns a slew with the image, where it is rotated.
fn carry_slew(slew: SlewRequest, rotator: &Option<ImageRotator>, width: u32, height: u32) -> (r:
    SlewRequest)
    requires
        rotator matches Some(turn) ==> turn.wf() && crate::cedar::angle_in_reach(turn.angle),
        crate::serve_engine::slew_in_reach(slew),
    ensures
        r == slew_after(slew, *rotator, width as int, height as int),
        r.target == slew.target,
{
    let mut shown: SlewRequest = slew;
    if let Some(turn) = rotator {
        if let Some(place) = slew.image_pos {
            shown.image_pos = Some(carry_place(place, rotator, width, height));
        }
        shown.target_angle = remainder_angle(slew.target_angle + turn.angle);
    }
    shown
}

/// Lists the stars of the solver's catalog.
fn list_catalog_stars<F: Fn(u64, i32, i32) -> u64>(stars: &Vec<CatalogStar>, scale: &F) -> (listed:
    Vec<StarCentroid>)
    requires
        crate::astro_util::is_scaling(*scale),
        crate::serve_engine::catalog_in_reach(stars@),
    ensures
        listed@ == all_catalog_centroids(stars@, *scale),
        crate::serve_engine::stars_in_reach(listed@),
{
    let mut listed: Vec<StarCentroid> = Vec::new();
    let mut i: usize = 0;
    while i < stars.len()
        invariant
            i <= stars@.len(),
            crate::astro_util::is_scaling(*scale),
            crate::serve_engine::catalog_in_reach(stars@),
            listed@ == all_catalog_centroids(stars@, *scale).take(i as int),
            crate::serve_engine::stars_in_reach(listed@),
        decreases stars@.len() - i,
    {
        let star: CatalogStar = stars[i];
        let brightness: u64 = scale(1000, 6000, star.magnitude);
        listed.push(StarCentroid { centroid_position: star.pixel, brightness, num_saturated: 0 });
        i = i + 1;
        assert(listed@ =~= all_catalog_centroids(stars@, *scale).take(i as int));
    }
    assert(listed@ =~= all_catalog_centroids(stars@, *scale));
    listed
}

/// Copies stars.
fn copy_stars(stars: &Vec<StarCentroid>) -> (copied: Vec<StarCentroid>)
    ensures
        copied@ == stars@,
{
    let mut copied: Vec<StarCentroid> = Vec::new();
    let mut i: usize = 0;
    while i < stars.len()
        invariant
            i <= stars@.len(),
            copied@ == stars@.take(i as int),
        decreases stars@.len() - i,
    {
        copied.push(stars[i]);
        i = i + 1;
        assert(copied@ =~= stars@.take(i as int));
    }
    assert(copied@ =~= stars@);
    copied
}

/// Collects the stars of a frame.
fn collect_frame_stars<F: Fn(u64, i32, i32) -> u64>(
    detection: &DetectResult,
    outcome: &Option<PlateSolution>,
    context: &FrameContext,
    rotator: &Option<ImageRotator>,
    labeled: &Vec<FovCatalogEntry>,
    scale: &F,
) -> (stars: Vec<StarCentroid>)
    requires
        crate::astro_util::is_scaling(*scale),
        crate::serve_engine::detection_in_reach(*detection),
        outcome matches Some(outcome) ==> crate::serve_engine::outcome_in_reach(
            *outcome,
            detection.camera_binning as int,
        ),
        rotator matches Some(turn) ==> turn.wf(),
        labeled@ == next_entries(
            match *outcome {
                Some(outcome) => outcome.fov_catalog_entries,
                None => None,
            },
            *rotator,
            detection.width as int,
            detection.height as int,
        ),
    ensures
        stars@ == next_stars(*detection, *outcome, *context, *rotator, *scale),
{
    let width: u32 = detection.width;
    let height: u32 = detection.height;
    let align: bool = context.operating_mode == OperatingMode::Setup && !context.focus_assist_mode;
    match rotator {
        None => copy_stars(&detection.star_candidates),
        Some(turn) => {
            let mut plain: Vec<StarCentroid> = copy_stars(&detection.star_candidates);
            if let Some(outcome) = outcome {
                if let Some(solution) = &outcome.solution {
                    if align {
                        plain = list_catalog_stars(&solution.catalog_stars, scale);
                    }
                }
            }
            let shown: Vec<StarCentroid> = show_stars(&plain, turn, width, height, 1);
            if align {
                fill_in_detections(&shown, labeled, scale)
            } else {
                shown
            }
        },
    }
}

/// Makes a frame of a detection and what the solver made of it. Outside of focus assist and
/// daylight the image is rotated so that the zenith is up, and places with it.
///
/// `trig` gives sine and cosine of an angle in billionths. `scale` gives the brightness of an
/// object of one magnitude, from that of another.
pub fn get_next_frame<T: Fn(i64) -> (i64, i64), F: Fn(u64, i32, i32) -> u64>(
    detection: &DetectResult,
    outcome: &Option<PlateSolution>,
    context: &FrameContext,
    boresight_horizon: Option<Horizon>,
    target_horizon: Option<(i64, i64)>,
    trig: &T,
    scale: &F,
) -> (frame: NextFrame)
    requires
        crate::serve_engine::is_trig(*trig),
        crate::astro_util::is_scaling(*scale),
        crate::serve_engine::detection_in_reach(*detection),
        frame_context_in_reach(*context),
        outcome matches Some(outcome) ==> crate::serve_engine::outcome_in_reach(
            *outcome,
            detection.camera_binning as int,
        ),
        crate::serve_engine::horizon_in_reach(boresight_horizon, target_horizon),
    ensures
        is_next_frame(
            frame,
            *detection,
            *outcome,
            *context,
            boresight_horizon,
            target_horizon,
            *trig,
            *scale,
        ),
{
    let width: u32 = detection.width;
    let height: u32 = detection.height;
    let display: DisplayPlan = plan_display(
        detection,
        1,
        context.detect_binning,
        context.display_sampling,
    );
    let plate_solution: Option<Solution> = match outcome {
        Some(outcome) => match &outcome.solution {
            Some(solution) => Some(copy_solution(solution)),
            None => None,
        },
        None => None,
    };

    let mut center_peak_position: Option<ImageCoord> = None;
    let mut center_peak_value: Option<i32> = None;
    let mut center_peak_image: Option<Closeup> = None;
    if let Some(aid) = detection.focus_aid {
        center_peak_position = aid.center_peak_position;
        if let Some(value) = aid.center_peak_value {
            center_peak_value = Some(value as i32);
        }
        center_peak_image = plan_plain_closeup(aid.peak_image_region, detection.is_color);
    }

    let mut info: Option<LocationBasedInfo> = None;
    let mut roll: Option<i64> = None;
    if let Some(outcome) = outcome {
        if let Some(solution) = &outcome.solution {
            roll = Some(solution.roll);
            if let Some(horizon) = boresight_horizon {
                info = Some(
                    LocationBasedInfo {
                        zenith_roll_angle: normalize_angle(
                            horizon.zenith_position_angle + solution.roll,
                        ),
                        altitude: horizon.altitude,
                        azimuth: horizon.azimuth,
                        hour_angle: horizon.hour_angle,
                    },
                );
            }
        }
    }
    let ghost plain = info;
    assert(plain == crate::serve_engine::plain_info(*outcome, boresight_horizon));

    let rotates: bool = detection.focus_aid.is_none() && !detection.daylight_mode;
    let mut retained_rotator: Option<ImageRotator> = context.previous_rotator;
    if rotates {
        if let Some(known) = info {
            let angle: i64 = if context.landscape {
                -known.zenith_roll_angle
            } else {
                90 * MICROARCSECONDS_PER_DEGREE - known.zenith_roll_angle
            };
            if let Some(unturned) = roll {
                roll = Some(normalize_angle(unturned + angle));
            }
            let (sin_term, cos_term) = trig(angle);
            retained_rotator = Some(ImageRotator::new(angle, sin_term, cos_term));
            info = Some(
                LocationBasedInfo {
                    zenith_roll_angle: known.zenith_roll_angle + angle,
                    altitude: known.altitude,
                    azimuth: known.azimuth,
                    hour_angle: known.hour_angle,
                },
            );
        }
    }
    let image_rotator: Option<ImageRotator> = if rotates {
        retained_rotator
    } else {
        None
    };
    assert(retained_rotator == remembered_rotator(*detection, *context, plain, *trig));
    assert(info == info_after(*detection, *context, plain));
    assert(roll == roll_after(*detection, *context, *outcome, plain));

    let mut slew_request: Option<SlewRequest> = None;
    let mut boresight_image: Option<Closeup> = None;
    let mut labeled_catalog_entries: Vec<FovCatalogEntry> = Vec::new();
    let mut unlabeled_catalog_entries: Vec<FovCatalogEntry> = Vec::new();
    if let Some(outcome) = outcome {
        if let Some(slew) = outcome.slew_request {
            let mut shown: SlewRequest = carry_slew(slew, &image_rotator, width, height);
            if let Some(solution) = &outcome.solution {
                shown = add_offsets(
                    shown,
                    boresight_coords(solution),
                    context.mount_type,
                    boresight_horizon,
                    target_horizon,
                );
            }
            slew_request = Some(shown);
        }
        boresight_image = plan_plain_closeup(outcome.boresight_image_region, detection.is_color);
        labeled_catalog_entries = carry_entries(
            &outcome.fov_catalog_entries,
            &image_rotator,
            width,
            height,
        );
        unlabeled_catalog_entries = carry_entries(
            &outcome.decrowded_fov_catalog_entries,
            &image_rotator,
            width,
            height,
        );
    }
    assert(slew_request == next_slew(
        *detection,
        *outcome,
        *context,
        boresight_horizon,
        target_horizon,
        image_rotator,
    ));

    let boresight: ImageCoord = match context.boresight_pixel {
        Some(place) => place,
        None => ImageCoord { x: width as i64 * 500_000, y: height as i64 * 500_000 },
    };
    let boresight_position: ImageCoord = carry_place(boresight, &image_rotator, width, height);
    let star_candidates: Vec<StarCentroid> = collect_frame_stars(
        detection,
        outcome,
        context,
        &image_rotator,
        &labeled_catalog_entries,
        scale,
    );
    let plate_solution: Option<Solution> = match (plate_solution, roll) {
        (Some(solution), Some(roll)) => Some(
            Solution {
                image_sky_coord: solution.image_sky_coord,
                target_sky_coord: solution.target_sky_coord,
                roll,
                catalog_stars: solution.catalog_stars,
            },
        ),
        _ => None,
    };
    NextFrame {
        frame_id: detection.frame_id,
        exposure_time: detection.exposure,
        capture_time: detection.readout_time,
        daylight_mode: detection.daylight_mode,
        noise_estimate: detection.noise_estimate,
        plate_solution,
        calibration_data: context.calibration_data,
        location_based_info: info,
        image_rotator,
        retained_rotator,
        display,
        center_peak_position,
        center_peak_value,
        center_peak_image,
        image_rectangle: Rectangle {
            origin_x: 0,
            origin_y: 0,
            width: width as i32,
            height: height as i32,
        },
        slew_request,
        boresight_image,
        labeled_catalog_entries,
        unlabeled_catalog_entries,
        boresight_position,
        star_candidates,
    }
}

/// A frame that is rotated by a known zenith shows the zenith up, or to the right on a display
/// that is higher than wide.
pub proof fn law_zenith_is_up(
    detection: DetectResult,
    context: FrameContext,
    info: LocationBasedInfo,
)
    requires
        may_rotate(detection),
        0 <= info.zenith_roll_angle < crate::units::FULL_TURN,
    ensures
        info_after(detection, context, Some(info)) matches Some(after) && after.zenith_roll_angle
            == (if context.landscape {
            0
        } else {
            90 * MICROARCSECONDS_PER_DEGREE
        }),
{
}

/// While focusing and in daylight nothing is rotated: places stay where they were detected.
pub proof fn law_focusing_keeps_places<T: Fn(i64) -> (i64, i64)>(
    detection: DetectResult,
    context: FrameContext,
    info: Option<LocationBasedInfo>,
    trig: T,
    place: ImageCoord,
)
    requires
        detection.focus_aid is Some || detection.daylight_mode,
    ensures
        used_rotator(detection, context, info, trig) is None,
        place_after(
            place,
            used_rotator(detection, context, info, trig),
            detection.width as int,
            detection.height as int,
        ) == place,
        remembered_rotator(detection, context, info, trig) == context.previous_rotator,
{
}

/// A request waits, for a display that is wider than high, unless it says otherwise. A reply
/// says whether it holds a frame exactly where the request does not wait.
pub proof fn law_request_says_what_it_wants(
    non_blocking: Option<bool>,
    orientation: Option<DisplayOrientation>,
    options: FrameOptions,
    waits: bool,
    found: bool,
    said: Option<bool>,
)
    requires
        found || !waits,
        call_ensures(frame_options, (non_blocking, orientation), options),
        call_ensures(has_result, (!waits, found), said),
    ensures
        options.non_blocking ==> non_blocking == Some(true),
        non_blocking == Some(true) ==> options.non_blocking,
        !options.landscape ==> orientation == Some(DisplayOrientation::Portrait),
        orientation == Some(DisplayOrientation::Portrait) ==> !options.landscape,
        said is None <==> waits,
        said matches Some(said) ==> said == found,
{
}

/// A server that calibrates answers every request at once, and says so; one that does not never
/// says so. Then a frame that the client has not seen is sent, one that it has seen is not, and a
/// client that does not wait never does.
pub proof fn law_requests_are_answered(
    run: CalibrationUnderWay,
    saved: Option<SavedImage>,
    posted: Option<i32>,
    seen: Option<i32>,
    non_blocking: bool,
    calibrating: FrameReply,
    live: FrameReply,
)
    requires
        run.estimate > 0,
        saved_image_fits(saved),
        call_ensures(
            answer_frame_request,
            (Some(run), saved, posted, seen, non_blocking),
            calibrating,
        ),
        call_ensures(
            answer_frame_request,
            (None::<CalibrationUnderWay>, saved, posted, seen, non_blocking),
            live,
        ),
    ensures
        calibrating matches FrameReply::Calibrating(frame) && {
            &&& frame.calibrating
            &&& frame.has_result == (if non_blocking { Some(true) } else { None })
            &&& run.elapsed >= run.estimate ==> frame.progress == 1_000_000
            &&& run.elapsed < run.estimate ==> frame.progress * run.estimate <= run.elapsed
                * 1_000_000 < (frame.progress + 1) * run.estimate
            &&& saved is None ==> frame.image is None && !frame.with_settings
            &&& saved matches Some(kept) ==> frame.with_settings && (
            frame.image matches Some(image) && image.frame_id == kept.frame_id
                && image.binning_factor == kept.binning_factor && image.rectangle.origin_x == 0
                && image.rectangle.origin_y == 0 && image.rectangle.width == kept.width
                * kept.binning_factor && image.rectangle.height == kept.height
                * kept.binning_factor)
        },
        !(live is Calibrating),
        live is Live ==> posted is Some && posted != seen,
        posted is Some && posted != seen ==> live == (FrameReply::Live {
            has_result: if non_blocking {
                Some(true)
            } else {
                None
            },
        }),
        live is Wait ==> !non_blocking,
        live is NoFrame ==> non_blocking,
{
    let e = run.estimate as int;
    let p = run.elapsed * 1_000_000 / e;
    if run.elapsed < run.estimate {
        assert(p * e <= run.elapsed * 1_000_000 < (p + 1) * e && 0 <= p <= 1_000_000)
            by (nonlinear_arith)
            requires
                e > 0,
                0 <= run.elapsed < e,
                p == run.elapsed * 1_000_000 / e,
        ;
    }
}

/// Outside of focusing and daylight, a known zenith is turned up, or to the side on a display that
/// is higher than wide; the roll of the solution turns as much, and the rotation is remembered.
pub proof fn law_next_frame_turns_the_zenith_up<
    T: Fn(i64) -> (i64, i64),
    F: Fn(u64, i32, i32) -> u64,
>(
    detection: DetectResult,
    outcome: PlateSolution,
    context: FrameContext,
    horizon: Horizon,
    target_horizon: Option<(i64, i64)>,
    trig: T,
    scale: F,
    frame: NextFrame,
    terms: (i64, i64),
)
    requires
        crate::serve_engine::is_trig(trig),
        crate::serve_engine::horizon_in_reach(Some(horizon), target_horizon),
        outcome.solution is Some && crate::cedar::angle_in_reach(outcome.solution->0.roll),
        detection.focus_aid is None && !detection.daylight_mode,
        call_ensures(
            get_next_frame::<T, F>,
            (
                &detection,
                &Some(outcome),
                &context,
                Some(horizon),
                target_horizon,
                &trig,
                &scale,
            ),
            frame,
        ),
    ensures
        frame.image_rotator == frame.retained_rotator,
        frame.image_rotator matches Some(rotator) && {
            let roll = outcome.solution->0.roll;
            let up = horizon.zenith_position_angle + roll + rotator.angle;
            &&& context.landscape ==> up % 1_296_000_000_000 == 0
            &&& !context.landscape ==> up % 1_296_000_000_000 == 324_000_000_000
            &&& call_ensures(trig, (rotator.angle,), terms) ==> rotator.sin_term == terms.0
                && rotator.cos_term == terms.1
            &&& frame.plate_solution matches Some(solution) && 0 <= solution.roll
                < 1_296_000_000_000 && (solution.roll - roll - rotator.angle) % 1_296_000_000_000
                == 0
        },
        frame.location_based_info matches Some(info) && {
            &&& info.zenith_roll_angle == (if context.landscape { 0int } else { 324_000_000_000 })
            &&& info.altitude == horizon.altitude && info.azimuth == horizon.azimuth
            &&& info.hour_angle == horizon.hour_angle
        },
{
    let roll = outcome.solution->0.roll as int;
    let n = horizon.zenith_position_angle + roll;
    let turn = 1_296_000_000_000int;
    assert((n - n % turn) % turn == 0);
    assert((n + (324_000_000_000 - n % turn)) % turn == 324_000_000_000);
    let angle = frame.image_rotator->0.angle as int;
    assert(((roll + angle) % turn - roll - angle) % turn == 0);
}

/// While focusing or in daylight nothing is rotated and everything stays where it was detected, and
/// the rotation of the frame before is remembered. Without a known zenith it is used again.
pub proof fn law_next_frame_without_zenith<
    T: Fn(i64) -> (i64, i64),
    F: Fn(u64, i32, i32) -> u64,
>(
    detection: DetectResult,
    outcome: Option<PlateSolution>,
    context: FrameContext,
    horizon: Option<Horizon>,
    target_horizon: Option<(i64, i64)>,
    trig: T,
    scale: F,
    frame: NextFrame,
    i: int,
)
    requires
        call_ensures(
            get_next_frame::<T, F>,
            (&detection, &outcome, &context, horizon, target_horizon, &trig, &scale),
            frame,
        ),
    ensures
        detection.focus_aid is Some || detection.daylight_mode ==> {
            &&& frame.image_rotator is None
            &&& frame.retained_rotator == context.previous_rotator
            &&& context.boresight_pixel matches Some(place) ==> frame.boresight_position == place
            &&& frame.star_candidates@ == detection.star_candidates@
            &&& outcome matches Some(outcome) ==> (
            outcome.slew_request matches Some(slew) ==> frame.slew_request is Some
                && frame.slew_request->0.image_pos == slew.image_pos
                && frame.slew_request->0.target_angle == slew.target_angle)
            &&& outcome matches Some(outcome) ==> (outcome.solution matches Some(solution) ==> (
            frame.plate_solution is Some && frame.plate_solution->0.roll == solution.roll))
        },
        detection.focus_aid is None && !detection.daylight_mode && (horizon is None || outcome
            is None || outcome->0.solution is None) ==> frame.image_rotator
            == context.previous_rotator && frame.retained_rotator == context.previous_rotator
            && frame.location_based_info is None,
{
}

/// Places of a rotated frame are those of the image, turned with it: where the telescope points,
/// which is the center where nothing else is known, the detected stars, the objects of the catalog
/// and the target of the slew.
pub proof fn law_next_frame_turns_all_places<
    T: Fn(i64) -> (i64, i64),
    F: Fn(u64, i32, i32) -> u64,
>(
    detection: DetectResult,
    outcome: PlateSolution,
    context: FrameContext,
    horizon: Option<Horizon>,
    target_horizon: Option<(i64, i64)>,
    trig: T,
    scale: F,
    frame: NextFrame,
    rotator: ImageRotator,
    place: ImageCoord,
    moved: ImageCoord,
    i: int,
)
    requires
        frame.image_rotator == Some(rotator),
        call_ensures(
            get_next_frame::<T, F>,
            (&detection, &Some(outcome), &context, horizon, target_horizon, &trig, &scale),
            frame,
        ),
        call_ensures(
            ImageRotator::transform_to_rotated,
            (&rotator, place, detection.width, detection.height),
            moved,
        ),
    ensures
        context.boresight_pixel == Some(place) ==> frame.boresight_position == moved,
        context.boresight_pixel is None && place.x == 500_000 * detection.width && place.y
            == 500_000 * detection.height ==> frame.boresight_position == moved,
        context.operating_mode is Operate ==> frame.star_candidates@.len()
            == detection.star_candidates@.len(),
        context.operating_mode is Operate && 0 <= i < detection.star_candidates@.len()
            && detection.star_candidates@[i].centroid_position == place
            ==> frame.star_candidates@[i].centroid_position == moved
            && frame.star_candidates@[i].brightness == detection.star_candidates@[i].brightness,
        outcome.fov_catalog_entries matches Some(entries) ==> {
            &&& frame.labeled_catalog_entries@.len() == entries@.len()
            &&& 0 <= i < entries@.len() && entries@[i].image_pos == place
                ==> frame.labeled_catalog_entries@[i].image_pos == moved
                && frame.labeled_catalog_entries@[i].magnitude == entries@[i].magnitude
        },
        outcome.decrowded_fov_catalog_entries matches Some(entries) ==> {
            &&& frame.unlabeled_catalog_entries@.len() == entries@.len()
            &&& 0 <= i < entries@.len() && entries@[i].image_pos == place
                ==> frame.unlabeled_catalog_entries@[i].image_pos == moved
                && frame.unlabeled_catalog_entries@[i].magnitude == entries@[i].magnitude
        },
        outcome.slew_request matches Some(slew) ==> (crate::serve_engine::slew_in_reach(slew)
            && crate::cedar::angle_in_reach(rotator.angle) ==> (
        frame.slew_request matches Some(shown) && (slew.image_pos == Some(place)
            ==> shown.image_pos == Some(moved)) && shown.target == slew.target && (
        shown.target_angle - slew.target_angle - rotator.angle) % 1_296_000_000_000 == 0)),
{
}

/// A frame to align by shows all stars of the solver's catalog, each where the catalog is right and
/// as bright as its magnitude says. Here no objects join them.
pub proof fn law_next_frame_aligns_by_the_catalog<
    T: Fn(i64) -> (i64, i64),
    F: Fn(u64, i32, i32) -> u64,
>(
    detection: DetectResult,
    outcome: PlateSolution,
    context: FrameContext,
    horizon: Option<Horizon>,
    target_horizon: Option<(i64, i64)>,
    trig: T,
    scale: F,
    frame: NextFrame,
    rotator: ImageRotator,
    i: int,
    moved: ImageCoord,
    brightness: u64,
)
    requires
        crate::astro_util::is_scaling(scale),
        context.operating_mode is Setup,
        !context.focus_assist_mode,
        outcome.fov_catalog_entries is None,
        outcome.solution is Some,
        0 <= i < outcome.solution->0.catalog_stars@.len(),
        frame.image_rotator == Some(rotator),
        call_ensures(
            get_next_frame::<T, F>,
            (&detection, &Some(outcome), &context, horizon, target_horizon, &trig, &scale),
            frame,
        ),
        call_ensures(
            ImageRotator::transform_to_rotated,
            (
                &rotator,
                outcome.solution->0.catalog_stars@[i].pixel,
                detection.width,
                detection.height,
            ),
            moved,
        ),
        call_ensures(
            scale,
            (1000u64, 6000i32, outcome.solution->0.catalog_stars@[i].magnitude),
            brightness,
        ),
    ensures
        frame.star_candidates@.len() == outcome.solution->0.catalog_stars@.len(),
        frame.star_candidates@[i] == (StarCentroid {
            centroid_position: moved,
            brightness,
            num_saturated: 0,
        }),
{
    let before = crate::serve_engine::shown_stars(
        all_catalog_centroids(outcome.solution->0.catalog_stars@, scale),
        rotator,
        detection.width as int,
        detection.height as int,
        1,
    );
    let none = Seq::<FovCatalogEntry>::empty();
    assert(crate::astro_util::reference(before, none) is None);
    assert(frame.star_candidates@ == before);
}

/// A frame tells what was measured, shows the whole sensor, and enlarges the parts that were
/// chosen; the grid of a color sensor is binned away there.
pub proof fn law_next_frame_tells_what_was_measured<
    T: Fn(i64) -> (i64, i64),
    F: Fn(u64, i32, i32) -> u64,
>(
    detection: DetectResult,
    outcome: Option<PlateSolution>,
    context: FrameContext,
    horizon: Option<Horizon>,
    target_horizon: Option<(i64, i64)>,
    trig: T,
    scale: F,
    frame: NextFrame,
)
    requires
        crate::serve_engine::detection_in_reach(detection),
        call_ensures(
            get_next_frame::<T, F>,
            (&detection, &outcome, &context, horizon, target_horizon, &trig, &scale),
            frame,
        ),
    ensures
        frame.frame_id == detection.frame_id && frame.exposure_time == detection.exposure
            && frame.capture_time == detection.readout_time && frame.noise_estimate
            == detection.noise_estimate && frame.daylight_mode == detection.daylight_mode
            && frame.calibration_data == context.calibration_data,
        frame.image_rectangle.origin_x == 0 && frame.image_rectangle.origin_y == 0
            && frame.image_rectangle.width == detection.width && frame.image_rectangle.height
            == detection.height,
        ({
            let factor = if detection.is_color {
                2i32
            } else {
                1i32
            };
            &&& detection.focus_aid is None ==> frame.center_peak_image is None
                && frame.center_peak_position is None && frame.center_peak_value is None
            &&& detection.focus_aid matches Some(aid) ==> {
                &&& frame.center_peak_position == aid.center_peak_position
                &&& aid.center_peak_value matches Some(value) ==> frame.center_peak_value == Some(
                    value as i32,
                )
                &&& aid.peak_image_region matches Some(region) ==> frame.center_peak_image == Some(
                    Closeup {
                        rectangle: region,
                        binning_factor: factor,
                        bin: detection.is_color,
                    },
                )
            }
            &&& outcome is None ==> frame.boresight_image is None && frame.slew_request is None
                && frame.labeled_catalog_entries@.len() == 0
            &&& outcome matches Some(outcome) ==> (
            outcome.boresight_image_region matches Some(region) ==> frame.boresight_image == Some(
                Closeup { rectangle: region, binning_factor: factor, bin: detection.is_color },
            ))
        }),
{
}

/// A frame comes straight from the detector while the user focuses in setup mode, and only then.
pub proof fn law_frame_comes_from_detector(mode: OperatingMode, focus: bool, detector: bool)
    requires
        call_ensures(is_from_detector, (mode, focus), detector),
    ensures
        detector ==> mode is Setup && focus,
        mode is Setup && focus ==> detector,
{
}

} // verus!
