//! The plate-solving cycle: what the solver is asked, what is kept of its answers, the slew in
//! progress, and the catalog objects in the image.
//!
//! Angles are in microarcseconds, image coordinates in micropixels, durations in nanoseconds and
//! ratios in billionths.

use vstd::prelude::*;
use vstd::string::*;

use crate::astro_util::{FovCatalogEntry, ImageCoord};
use crate::calibration::SolverSettings;
use crate::cedar::{normalize_angle, CatalogTarget, CelestialCoord, SearchOrder, SlewRequest};
use crate::date_time::LocalDateTime;
use crate::detect_engine::{intersect, whole_pixels};
use crate::image_utils::{
    crop_imm, GrayImage, MAX_COORD, normalize_rows_mut, Rectangle, scale_image_mut,
};
use crate::numbers::square_root;
use crate::preferences::CatalogEntryMatch;
use crate::serve_engine::{PlateSolution, Solution};
use crate::solver_trait::{SolveExtension, SolveParams};
use crate::text;
use crate::text::{push_decimal, push_padded};
use crate::units::{MICROPIXELS_PER_PIXEL, NANOSECONDS_PER_MILLISECOND};

verus! {

broadcast use vstd::string::group_string_axioms;

/// The largest distortion of a lens, either way: a fifth.
pub const MAX_DISTORTION: i64 = 200_000_000;

/// What the solver is set to, and what is remembered from cycle to cycle.
#[derive(Clone, Copy, Debug, PartialEq, Eq, Structural)]
pub struct SolveEngine {
    /// While aligning, only bright stars and planets are looked up in the catalog.
    pub align_mode: bool,
    /// The frame that was solved last.
    pub frame_id: Option<i32>,
    /// How many stars a solution takes at least.
    pub minimum_stars: i32,
    /// The horizontal field of view.
    pub fov_estimate: Option<i64>,
    /// How far apart a match may be, as a part of the field of view.
    pub match_radius: i64,
    /// How likely a false match may be.
    pub match_threshold: i64,
    /// How long to try.
    pub solve_timeout: u64,
    /// Where the telescope points in the image; its center where this is missing.
    pub boresight_pixel: Option<ImageCoord>,
    /// The distortion of the lens.
    pub distortion: i64,
    /// How far a pattern may be off.
    pub match_max_error: i64,
    /// Whether to ask for the matched stars.
    pub return_matches: bool,
    /// Where to slew, while slewing.
    pub slew_target: Option<CelestialCoord>,
    /// Whether the failure before was logged.
    pub logged_error: bool,
}

/// Why a setting is refused.
#[derive(Clone, Copy, Debug, PartialEq, Eq, Structural)]
pub enum SettingError {
    /// The field of view must be positive.
    FovNotPositive,
    /// The distortion must be no more than a fifth either way.
    DistortionOutOfRange,
    /// The largest error must not be negative.
    NegativeMaxError,
    /// There must be four stars at least.
    TooFewStars,
}

impl SolveEngine {
    /// Every setting is one that the setters let through.
    pub open spec fn wf(self) -> bool {
        &&& self.minimum_stars >= 4
        &&& self.fov_estimate matches Some(fov) ==> fov > 0
        &&& -MAX_DISTORTION <= self.distortion <= MAX_DISTORTION
        &&& self.match_max_error >= 0
    }

    /// What the solver starts with.
    pub fn new() -> (state: Self)
        ensures
            state.wf(),
            state == (SolveEngine {
                align_mode: false,
                frame_id: None,
                minimum_stars: 4,
                fov_estimate: None,
                match_radius: 10_000_000,
                match_threshold: 10_000,
                solve_timeout: 1_000_000_000,
                boresight_pixel: None,
                distortion: 0,
                match_max_error: 5_000_000,
                return_matches: true,
                slew_target: None,
                logged_error: false,
            }),
    {
        SolveEngine {
            align_mode: false,
            frame_id: None,
            minimum_stars: 4,
            fov_estimate: None,
            match_radius: 10_000_000,
            match_threshold: 10_000,
            solve_timeout: 1_000_000_000,
            boresight_pixel: None,
            distortion: 0,
            match_max_error: 5_000_000,
            return_matches: true,
            slew_target: None,
            logged_error: false,
        }
    }

    /// Turns align mode on or off.
    pub fn set_align_mode(&mut self, align_mode: bool)
        ensures
            *final(self) == (SolveEngine { align_mode, ..*old(self) }),
    {
        self.align_mode = align_mode;
    }

    /// Sets the field of view. It must be positive.
    pub fn set_fov_estimate(&mut self, fov_estimate: Option<i64>) -> (r: Result<(), SettingError>)
        ensures
            (fov_estimate matches Some(fov) && fov <= 0) <==> r is Err,
            r matches Err(error) ==> error == SettingError::FovNotPositive && *final(self)
                == *old(self),
            r is Ok ==> *final(self) == (SolveEngine { fov_estimate, ..*old(self) }),
            old(self).wf() ==> final(self).wf(),
    {
        if let Some(fov) = fov_estimate {
            if fov <= 0 {
                return Err(SettingError::FovNotPositive);
            }
        }
        self.fov_estimate = fov_estimate;
        Ok(())
    }

    /// Sets where the telescope points in the image.
    pub fn set_boresight_pixel(&mut self, boresight_pixel: Option<ImageCoord>)
        ensures
            *final(self) == (SolveEngine { boresight_pixel, ..*old(self) }),
    {
        self.boresight_pixel = boresight_pixel;
    }

    /// Sets the distortion of the lens. It must be no more than a fifth either way.
    pub fn set_distortion(&mut self, distortion: i64) -> (r: Result<(), SettingError>)
        ensures
            r is Ok <==> -MAX_DISTORTION <= distortion <= MAX_DISTORTION,
            r matches Err(error) ==> error == SettingError::DistortionOutOfRange && *final(self)
                == *old(self),
            r is Ok ==> *final(self) == (SolveEngine { distortion, ..*old(self) }),
            old(self).wf() ==> final(self).wf(),
    {
        if distortion < -MAX_DISTORTION || distortion > MAX_DISTORTION {
            return Err(SettingError::DistortionOutOfRange);
        }
        self.distortion = distortion;
        Ok(())
    }

    /// Sets how far a pattern may be off. It must not be negative.
    pub fn set_match_max_error(&mut self, match_max_error: i64) -> (r: Result<(), SettingError>)
        ensures
            r is Ok <==> match_max_error >= 0,
            r matches Err(error) ==> error == SettingError::NegativeMaxError && *final(self)
                == *old(self),
            r is Ok ==> *final(self) == (SolveEngine { match_max_error, ..*old(self) }),
            old(self).wf() ==> final(self).wf(),
    {
        if match_max_error < 0 {
            return Err(SettingError::NegativeMaxError);
        }
        self.match_max_error = match_max_error;
        Ok(())
    }

    /// Sets how many stars a solution takes at least: four or more.
    pub fn set_minimum_stars(&mut self, minimum_stars: i32) -> (r: Result<(), SettingError>)
        ensures
            r is Ok <==> minimum_stars >= 4,
            r matches Err(error) ==> error == SettingError::TooFewStars && *final(self) == *old(
                self,
            ),
            r is Ok ==> *final(self) == (SolveEngine { minimum_stars, ..*old(self) }),
            old(self).wf() ==> final(self).wf(),
    {
        if minimum_stars < 4 {
            return Err(SettingError::TooFewStars);
        }
        self.minimum_stars = minimum_stars;
        Ok(())
    }

    /// Sets how long to try.
    pub fn set_solve_timeout(&mut self, solve_timeout: u64)
        ensures
            *final(self) == (SolveEngine { solve_timeout, ..*old(self) }),
    {
        self.solve_timeout = solve_timeout;
    }

    /// Sets what a calibration left: the field of view, the distortion, the error and the time,
    /// in this order. The first that is refused ends it.
    pub fn configure(&mut self, settings: &SolverSettings) -> (r: Result<(), SettingError>)
        ensures
            old(self).wf() ==> final(self).wf(),
            ({
                let with_fov = SolveEngine { fov_estimate: settings.fov_estimate, ..*old(self) };
                let with_distortion = SolveEngine { distortion: settings.distortion, ..with_fov };
                if settings.fov_estimate matches Some(fov) && fov <= 0 {
                    &&& r == Err::<(), SettingError>(SettingError::FovNotPositive)
                    &&& *final(self) == *old(self)
                } else if !(-MAX_DISTORTION <= settings.distortion <= MAX_DISTORTION) {
                    &&& r == Err::<(), SettingError>(SettingError::DistortionOutOfRange)
                    &&& *final(self) == with_fov
                } else if settings.match_max_error < 0 {
                    &&& r == Err::<(), SettingError>(SettingError::NegativeMaxError)
                    &&& *final(self) == with_distortion
                } else {
                    &&& r == Ok::<(), SettingError>(())
                    &&& *final(self) == (SolveEngine {
                        match_max_error: settings.match_max_error,
                        solve_timeout: settings.solve_timeout,
                        ..with_distortion
                    })
                }
            }),
    {
        if let Err(error) = self.set_fov_estimate(settings.fov_estimate) {
            return Err(error);
        }
        if let Err(error) = self.set_distortion(settings.distortion) {
            return Err(error);
        }
        if let Err(error) = self.set_match_max_error(settings.match_max_error) {
            return Err(error);
        }
        self.set_solve_timeout(settings.solve_timeout);
        Ok(())
    }

    /// What the solver is asked to solve by.
    pub open spec fn params(self) -> SolveParams {
        SolveParams {
            fov_estimate: match self.fov_estimate {
                Some(fov) => Some((fov, ((fov + 5) / 10) as i64)),
                None => None,
            },
            match_radius: Some(self.match_radius),
            match_threshold: Some(self.match_threshold),
            solve_timeout: Some(self.solve_timeout),
            distortion: Some(self.distortion),
            match_max_error: Some(self.match_max_error),
        }
    }

    /// Sets up what the solver is asked: the field of view with a tenth of it to either side,
    /// the place of the boresight where it is known, and the point of the slew target while
    /// slewing.
    pub fn solve_arguments(&self) -> (r: (SolveExtension, SolveParams))
        requires
            self.wf(),
            self.fov_estimate matches Some(fov) ==> fov < 0x7fff_ffff_ffff_0000,
        ensures
            r.1 == self.params(),
            match self.boresight_pixel {
                Some(pixel) => r.0.target_pixel matches Some(pixels) && pixels@ == seq![pixel],
                None => r.0.target_pixel is None,
            },
            match self.slew_target {
                Some(target) => r.0.target_sky_coord matches Some(targets) && targets@ == seq![
                    target,
                ],
                None => r.0.target_sky_coord is None,
            },
            r.0.return_matches == self.return_matches,
            r.0.return_catalog,
            r.0.return_rotation_matrix,
    {
        let mut extension: SolveExtension = SolveExtension::default();
        let mut params: SolveParams = SolveParams::default();
        if let Some(fov) = self.fov_estimate {
            params.fov_estimate = Some((fov, (fov + 5) / 10));
        }
        params.match_radius = Some(self.match_radius);
        params.match_threshold = Some(self.match_threshold);
        params.solve_timeout = Some(self.solve_timeout);
        params.distortion = Some(self.distortion);
        params.match_max_error = Some(self.match_max_error);
        if let Some(pixel) = self.boresight_pixel {
            let mut pixels: Vec<ImageCoord> = Vec::new();
            pixels.push(pixel);
            assert(pixels@ =~= seq![pixel]);
            extension.target_pixel = Some(pixels);
        }
        if let Some(target) = self.slew_target {
            let mut targets: Vec<CelestialCoord> = Vec::new();
            targets.push(target);
            assert(targets@ =~= seq![target]);
            extension.target_sky_coord = Some(targets);
        }
        extension.return_matches = self.return_matches;
        extension.return_catalog = true;
        extension.return_rotation_matrix = true;
        (extension, params)
    }

    /// Whether there are stars enough to try a solution.
    pub fn should_solve(&self, stars: usize) -> (attempt: bool)
        requires
            self.wf(),
        ensures
            attempt == (stars >= self.minimum_stars),
    {
        stars >= self.minimum_stars as usize
    }
}

/// How a cycle ended.
#[derive(Clone, Copy, Debug, PartialEq, Eq, Structural)]
pub enum SolveEnd {
    /// There were too few stars to try.
    NotAttempted,
    /// There is no solution.
    Failed,
    /// There is a solution.
    Solved,
}

/// What a cycle adds to the statistics, and whether its failure is logged.
#[derive(Clone, Copy, Debug, PartialEq, Eq, Structural)]
pub struct CycleReport {
    /// Whether to log the failure.
    pub log_failure: bool,
    /// Whether the cycle counts as one with an attempt, for the fraction of such cycles.
    pub attempt_sample: Option<bool>,
    /// Whether the attempt succeeded, for the fraction of attempts that do.
    pub success_sample: Option<bool>,
    /// Whether to count the time that it took.
    pub latency_sample: bool,
    /// Whether to report to the telescope interface.
    pub report: bool,
}

/// What a cycle adds to the statistics, and whether its failure is logged. While aligning nothing
/// is counted or reported. A failure is logged where there were eight stars or more and the one
/// before was not logged.
pub open spec fn cycle_report(state: SolveEngine, end: SolveEnd, stars: int) -> CycleReport {
    CycleReport {
        log_failure: end == SolveEnd::Failed && stars >= 8 && !state.logged_error,
        attempt_sample: if state.align_mode {
            None
        } else {
            Some(end != SolveEnd::NotAttempted)
        },
        success_sample: if state.align_mode || end == SolveEnd::NotAttempted {
            None
        } else {
            Some(end == SolveEnd::Solved)
        },
        latency_sample: !state.align_mode,
        report: !state.align_mode,
    }
}

/// Takes note of how a cycle ended. A solution has the next failure logged again.
pub fn finish_cycle(state: &mut SolveEngine, frame_id: i32, end: SolveEnd, stars: usize) -> (report:
    CycleReport)
    ensures
        report == cycle_report(*old(state), end, stars as int),
        *final(state) == (SolveEngine {
            frame_id: Some(frame_id),
            logged_error: if end == SolveEnd::Solved {
                false
            } else {
                old(state).logged_error || report.log_failure
            },
            ..*old(state)
        }),
{
    let align_mode: bool = state.align_mode;
    let attempted: bool = end != SolveEnd::NotAttempted;
    let log_failure: bool = end == SolveEnd::Failed && stars >= 8 && !state.logged_error;
    state.frame_id = Some(frame_id);
    if log_failure {
        state.logged_error = true;
    }
    if end == SolveEnd::Solved {
        state.logged_error = false;
    }
    CycleReport {
        log_failure,
        attempt_sample: if align_mode {
            None
        } else {
            Some(attempted)
        },
        success_sample: if align_mode || !attempted {
            None
        } else {
            Some(end == SolveEnd::Solved)
        },
        latency_sample: !align_mode,
        report: !align_mode,
    }
}

/// Between two logged failures there is a solution: after one was logged no other is until a
/// cycle ends with a solution.
pub proof fn law_failures_are_logged_once(
    state: SolveEngine,
    next: SolveEngine,
    end: SolveEnd,
    stars: int,
)
    requires
        state.logged_error,
        next.logged_error == (if end == SolveEnd::Solved {
            false
        } else {
            state.logged_error || cycle_report(state, end, stars).log_failure
        }),
    ensures
        !cycle_report(state, end, stars).log_failure,
        end != SolveEnd::Solved ==> next.logged_error,
        end == SolveEnd::Solved ==> !next.logged_error,
{
}

/// Takes over what the telescope interface says: where to slew, and, where the user has synced to
/// an object, the point at which that object appears in the image.
pub fn apply_callback(
    state: &mut SolveEngine,
    slew_target: Option<CelestialCoord>,
    sync_pixel: Option<ImageCoord>,
)
    ensures
        *final(state) == (SolveEngine {
            slew_target,
            boresight_pixel: match sync_pixel {
                Some(pixel) => Some(pixel),
                None => old(state).boresight_pixel,
            },
            ..*old(state)
        }),
{
    state.slew_target = slew_target;
    if let Some(pixel) = sync_pixel {
        state.boresight_pixel = Some(pixel);
    }
}

/// The point at which the telescope points: the boresight, or else the center of the image.
pub open spec fn boresight_point(
    boresight_pixel: Option<ImageCoord>,
    width: int,
    height: int,
) -> ImageCoord {
    match boresight_pixel {
        Some(pixel) => pixel,
        None => ImageCoord { x: (width * 500_000) as i64, y: (height * 500_000) as i64 },
    }
}

/// Finds the point at which the telescope points.
fn find_boresight(boresight_pixel: Option<ImageCoord>, width: u32, height: u32) -> (point:
    ImageCoord)
    ensures
        point == boresight_point(boresight_pixel, width as int, height as int),
{
    match boresight_pixel {
        Some(pixel) => pixel,
        None => ImageCoord { x: width as i64 * 500_000, y: height as i64 * 500_000 },
    }
}

/// The smaller side of an image.
pub open spec fn smaller_side(width: int, height: int) -> int {
    if width < height {
        width
    } else {
        height
    }
}

/// Whether a slew target is close to the boresight: closer than a sixteenth of the image's
/// smaller side.
pub open spec fn is_close(a: ImageCoord, b: ImageCoord, width: int, height: int) -> bool {
    256 * ((a.x - b.x) * (a.x - b.x) + (a.y - b.y) * (a.y - b.y)) < (smaller_side(width, height)
        * MICROPIXELS_PER_PIXEL) * (smaller_side(width, height) * MICROPIXELS_PER_PIXEL)
}

/// Whether a point lies in an image.
pub open spec fn in_image(place: ImageCoord, width: int, height: int) -> bool {
    &&& 0 <= place.x < width * MICROPIXELS_PER_PIXEL
    &&& 0 <= place.y < height * MICROPIXELS_PER_PIXEL
}

/// Whether a point is one around which a rectangle can be laid.
pub open spec fn near_image(place: ImageCoord) -> bool {
    &&& -500_000_000_000_000 <= place.x <= 500_000_000_000_000
    &&& -500_000_000_000_000 <= place.y <= 500_000_000_000_000
}

/// The part of the image around a point that is shown enlarged: a sixth of the image's smaller
/// side, cut off at the edges.
pub open spec fn closeup_region(point: ImageCoord, width: int, height: int) -> Option<Rectangle> {
    let size = smaller_side(width, height) / 6;
    crate::detect_engine::shared_part(
        Rectangle {
            origin_x: (crate::detect_engine::cut_off(point.x as int) - size / 2) as i32,
            origin_y: (crate::detect_engine::cut_off(point.y as int) - size / 2) as i32,
            width: size as i32,
            height: size as i32,
        },
        Rectangle { origin_x: 0, origin_y: 0, width: width as i32, height: height as i32 },
    )
}

/// Where a slew target appears in the image, if it does: the first of the points that the solver
/// found, where that lies right of the left edge.
pub open spec fn target_point(target_pixel: Seq<ImageCoord>) -> Option<ImageCoord> {
    if target_pixel.len() > 0 && target_pixel[0].x >= 0 {
        Some(target_pixel[0])
    } else {
        None
    }
}

/// The slew in progress, from where to slew, how far that is from the boresight and in which
/// direction relative to north, the catalog object there, and the roll of the image.
pub open spec fn slew_request(
    target: CelestialCoord,
    distance: i64,
    position_angle: i64,
    catalog_entry: Option<CatalogTarget>,
    roll: i64,
    target_pixel: Seq<ImageCoord>,
) -> SlewRequest {
    SlewRequest {
        target,
        target_distance: distance,
        target_angle: ((position_angle + roll) % crate::units::FULL_TURN as int) as i64,
        target_catalog_entry: catalog_entry,
        image_pos: target_point(target_pixel),
        offset_rotation_axis: None,
        offset_tilt_axis: None,
    }
}

/// Whether a slew can be shown in an image: the points are ones that numbers can hold, and where
/// the target is close to the boresight there is something of the image around the boresight.
pub open spec fn slew_can_be_shown(
    target_pixel: Seq<ImageCoord>,
    boresight_pixel: Option<ImageCoord>,
    width: int,
    height: int,
) -> bool {
    let boresight = boresight_point(boresight_pixel, width, height);
    target_point(target_pixel) matches Some(point) ==> {
        &&& crate::image_utils::in_reach(point)
        &&& crate::image_utils::in_reach(boresight)
        &&& is_close(point, boresight, width, height) ==> {
            &&& width <= 0x3fff_ffff
            &&& height <= 0x3fff_ffff
            &&& near_image(boresight)
            &&& closeup_region(boresight, width, height) is Some
        }
    }
}

/// Tells whether a slew target is close to the boresight.
fn points_are_close(a: ImageCoord, b: ImageCoord, width: u32, height: u32) -> (close: bool)
    requires
        crate::image_utils::in_reach(a),
        crate::image_utils::in_reach(b),
    ensures
        close == is_close(a, b, width as int, height as int),
{
    let side: u32 = if width < height { width } else { height };
    let dx: i128 = a.x as i128 - b.x as i128;
    let dy: i128 = a.y as i128 - b.y as i128;
    let span: i128 = (side as i64 * MICROPIXELS_PER_PIXEL) as i128;
    proof {
        lemma_square_bound(dx as int);
        lemma_square_bound(dy as int);
        lemma_square_bound(span as int);
    }
    256 * (dx * dx + dy * dy) < span * span
}

/// Finds the part of the image around a point that is shown enlarged.
fn find_closeup_region(point: ImageCoord, width: u32, height: u32) -> (region: Option<Rectangle>)
    requires
        width <= 0x3fff_ffff,
        height <= 0x3fff_ffff,
        near_image(point),
    ensures
        region == closeup_region(point, width as int, height as int),
{
    let side: u32 = if width < height { width } else { height };
    let size: i32 = (side / 6) as i32;
    let left: i32 = whole_pixels(point.x) - size / 2;
    let top: i32 = whole_pixels(point.y) - size / 2;
    let around = Rectangle { origin_x: left, origin_y: top, width: size, height: size };
    let image = Rectangle { origin_x: 0, origin_y: 0, width: width as i32, height: height as i32 };
    intersect(around, image)
}

/// Tells whether a slew can be shown in an image.
pub fn can_show_slew(
    target_pixel: &Vec<ImageCoord>,
    boresight_pixel: Option<ImageCoord>,
    width: u32,
    height: u32,
) -> (can: bool)
    ensures
        can == slew_can_be_shown(target_pixel@, boresight_pixel, width as int, height as int),
{
    if target_pixel.len() == 0 || target_pixel[0].x < 0 {
        return true;
    }
    let point: ImageCoord = target_pixel[0];
    let boresight: ImageCoord = find_boresight(boresight_pixel, width, height);
    if !point_in_reach(point) || !point_in_reach(boresight) {
        return false;
    }
    if !points_are_close(point, boresight, width, height) {
        return true;
    }
    let near: bool = -500_000_000_000_000 <= boresight.x && boresight.x <= 500_000_000_000_000
        && -500_000_000_000_000 <= boresight.y && boresight.y <= 500_000_000_000_000;
    if !near || width > 0x3fff_ffff || height > 0x3fff_ffff {
        return false;
    }
    find_closeup_region(boresight, width, height).is_some()
}

/// Tells whether a point is one that can be computed with.
fn point_in_reach(point: ImageCoord) -> (within: bool)
    ensures
        within == crate::image_utils::in_reach(point),
{
    -MAX_COORD <= point.x && point.x <= MAX_COORD && -MAX_COORD <= point.y && point.y <= MAX_COORD
}

/// Describes the slew in progress, and the part of the image around the boresight where the
/// target is close to it.
pub fn handle_slew(
    target: CelestialCoord,
    distance: i64,
    position_angle: i64,
    catalog_entry: Option<CatalogTarget>,
    roll: i64,
    target_pixel: &Vec<ImageCoord>,
    boresight_pixel: Option<ImageCoord>,
    width: u32,
    height: u32,
) -> (r: (SlewRequest, Option<Rectangle>))
    requires
        crate::cedar::angle_in_reach(position_angle),
        crate::cedar::angle_in_reach(roll),
        slew_can_be_shown(target_pixel@, boresight_pixel, width as int, height as int),
    ensures
        r.0 == slew_request(
            target,
            distance,
            position_angle,
            catalog_entry,
            roll,
            target_pixel@,
        ),
        ({
            let boresight = boresight_point(boresight_pixel, width as int, height as int);
            r.1 == (match target_point(target_pixel@) {
                Some(point) => if is_close(point, boresight, width as int, height as int) {
                    closeup_region(boresight, width as int, height as int)
                } else {
                    None
                },
                None => None,
            })
        }),
        r.1 is Some <==> (target_point(target_pixel@) matches Some(point) && is_close(
            point,
            boresight_point(boresight_pixel, width as int, height as int),
            width as int,
            height as int,
        )),
        r.1 matches Some(region) ==> {
            &&& region.origin_x >= 0 && region.origin_y >= 0
            &&& region.width > 0 && region.height > 0
            &&& region.origin_x + region.width <= width
            &&& region.origin_y + region.height <= height
        },
{
    let target_angle: i64 = normalize_angle(position_angle + roll);
    let mut slew = SlewRequest {
        target,
        target_distance: distance,
        target_angle,
        target_catalog_entry: catalog_entry,
        image_pos: None,
        offset_rotation_axis: None,
        offset_tilt_axis: None,
    };
    if target_pixel.len() == 0 {
        return (slew, None);
    }
    let point: ImageCoord = target_pixel[0];
    if point.x < 0 {
        return (slew, None);
    }
    slew.image_pos = Some(point);
    let boresight: ImageCoord = find_boresight(boresight_pixel, width, height);
    if !points_are_close(point, boresight, width, height) {
        return (slew, None);
    }
    (slew, find_closeup_region(boresight, width, height))
}

/// The square of a number that is not too large fits.
proof fn lemma_square_bound(n: int)
    requires
        -10_000_000_000_000_000 <= n <= 10_000_000_000_000_000,
    ensures
        0 <= n * n <= 100_000_000_000_000_000_000_000_000_000_000,
{
    assert(0 <= n * n <= 100_000_000_000_000_000_000_000_000_000_000) by (nonlinear_arith)
        requires
            -10_000_000_000_000_000 <= n <= 10_000_000_000_000_000,
    ;
}

/// Cuts the part around the boresight out of an image, with its rows normalized where that is
/// wanted.
pub fn cut_closeup(image: &GrayImage, region: Rectangle, normalize_rows: bool) -> (part: GrayImage)
    requires
        image.wf(),
        region.origin_x >= 0,
        region.origin_y >= 0,
        region.width > 0,
        region.height > 0,
        region.origin_x + region.width <= image.width,
        region.origin_y + region.height <= image.height,
    ensures
        part.wf(),
        part.width == region.width,
        part.height == region.height,
        exists|cut: GrayImage| #[trigger]
            is_cut(cut, *image, region) && is_prepared(part, cut, normalize_rows),
{
    let mut part: GrayImage = crop_imm(
        image,
        region.origin_x as u32,
        region.origin_y as u32,
        region.width as u32,
        region.height as u32,
    );
    let ghost cut = part;
    assert(is_cut(cut, *image, region));
    if normalize_rows {
        normalize_rows_mut(&mut part);
    }
    assert(is_prepared(part, cut, normalize_rows));
    part
}

/// Whether an image is the part of another that a rectangle marks.
pub open spec fn is_cut(cut: GrayImage, image: GrayImage, region: Rectangle) -> bool {
    crate::image_utils::is_crop(
        cut,
        image,
        region.origin_x as int,
        region.origin_y as int,
        region.width as int,
        region.height as int,
    )
}

/// Whether an image has the pixels of another, less the darkest of their row where rows are
/// normalized.
pub open spec fn is_prepared(part: GrayImage, cut: GrayImage, normalize_rows: bool) -> bool {
    forall|x: int, y: int|
        0 <= x < cut.width && 0 <= y < cut.height ==> #[trigger] part.at(x, y) == cut.at(x, y) - (
        if normalize_rows {
            crate::image_utils::row_minimum(cut, y) as int
        } else {
            0
        })
}

/// Scales the part around the boresight for display, from the level of its background to that of
/// its brightest pixels, but to a quarter of the full range at least.
pub fn scale_closeup<F: Fn(u8, u8) -> u8>(
    part: &mut GrayImage,
    background: u8,
    top_value: u8,
    curve: &F,
)
    requires
        crate::image_utils::is_curve(*curve),
        old(part).wf(),
    ensures
        final(part).wf(),
        final(part).width == old(part).width,
        final(part).height == old(part).height,
        forall|i: int|
            0 <= i < old(part).pixels@.len() ==> #[trigger] final(part).pixels@[i]
                == crate::image_utils::scaled_value(
                *curve,
                background,
                if top_value < 64 {
                    64
                } else {
                    top_value
                },
                old(part).pixels@[i],
            ),
{
    let peak: u8 = if top_value < 64 { 64 } else { top_value };
    scale_image_mut(part, background, peak, curve);
}

/// Which catalog entries to look up. While aligning these are stars and planets of the fourth
/// magnitude and brighter; otherwise the user's choice decides, but without regard to the catalog
/// and the type of an object.
pub fn fov_catalog_match(chosen: CatalogEntryMatch, align_mode: bool) -> (wanted: CatalogEntryMatch)
    ensures
        align_mode ==> {
            &&& wanted.faintest_magnitude == Some(4i32)
            &&& !wanted.match_catalog_label
            &&& wanted.catalog_label@.len() == 0
            &&& wanted.match_object_type_label
            &&& text::views(wanted.object_type_label@) == seq![
                "star"@,
                "double star"@,
                "nova star"@,
                "planet"@,
            ]
        },
        !align_mode ==> {
            &&& wanted.faintest_magnitude == chosen.faintest_magnitude
            &&& !wanted.match_catalog_label
            &&& wanted.catalog_label == chosen.catalog_label
            &&& !wanted.match_object_type_label
            &&& wanted.object_type_label == chosen.object_type_label
        },
{
    if align_mode {
        let mut types: Vec<String> = Vec::new();
        types.push("star".to_owned());
        types.push("double star".to_owned());
        types.push("nova star".to_owned());
        types.push("planet".to_owned());
        assert(text::views(types@) =~= seq![
            "star"@,
            "double star"@,
            "nova star"@,
            "planet"@,
        ]);
        return CatalogEntryMatch {
            faintest_magnitude: Some(4),
            match_catalog_label: false,
            catalog_label: Vec::new(),
            match_object_type_label: true,
            object_type_label: types,
        };
    }
    CatalogEntryMatch { match_catalog_label: false, match_object_type_label: false, ..chosen }
}

/// How the catalog objects in the image are searched for: within which distance of the boresight,
/// how far apart, and how many at most.
#[derive(Clone, Copy, Debug, PartialEq, Eq, Structural)]
pub struct FovQuery {
    /// The largest distance.
    pub max_distance: i128,
    /// Objects closer than this to a brighter one are set aside.
    pub decrowd_distance: i64,
    /// How many to return at most.
    pub limit_result: usize,
}

/// How far the farther edge lies from a coordinate of the boresight.
pub open spec fn farther_edge(at: int, size: int) -> int {
    let other = size * MICROPIXELS_PER_PIXEL - at;
    if at > other {
        at
    } else {
        other
    }
}

/// Plans the search for catalog objects in the image: out to the corner farthest from the
/// boresight, with a fifteenth of the field of view between objects, and fifty at most.
pub fn plan_fov_query(boresight_pixel: Option<ImageCoord>, width: u32, height: u32, fov: i64) -> (
query: FovQuery)
    requires
        0 < width,
        0 < fov <= crate::units::FULL_TURN,
        crate::image_utils::in_reach(
            boresight_point(boresight_pixel, width as int, height as int),
        ),
    ensures
        query.limit_result == 50,
        query.decrowd_distance == (2 * fov + 15) / 30,
        ({
            let point = boresight_point(boresight_pixel, width as int, height as int);
            let h = farther_edge(point.x as int, width as int);
            let v = farther_edge(point.y as int, height as int);
            query.max_distance == crate::numbers::whole_root(h * h + v * v) * fov / (width
                * MICROPIXELS_PER_PIXEL)
        }),
{
    let point: ImageCoord = find_boresight(boresight_pixel, width, height);
    let right: i64 = width as i64 * MICROPIXELS_PER_PIXEL - point.x;
    let below: i64 = height as i64 * MICROPIXELS_PER_PIXEL - point.y;
    let h: u128 = if point.x > right { point.x as u128 } else { right as u128 };
    let v: u128 = if point.y > below { point.y as u128 } else { below as u128 };
    assert(0 <= h <= 6_000_000_000_000_000 && 0 <= v <= 6_000_000_000_000_000);
    proof {
        lemma_square_bound(h as int);
        lemma_square_bound(v as int);
    }
    assert(h * h + v * v < 0x4000_0000_0000_0000_0000_0000_0000_0000 && h * h + v * v
        <= 72_000_000_000_000_000_000_000_000_000_000) by (nonlinear_arith)
        requires
            0 <= h <= 6_000_000_000_000_000,
            0 <= v <= 6_000_000_000_000_000,
    ;
    let root: u64 = square_root(h * h + v * v);
    let scale: u128 = width as u128 * MICROPIXELS_PER_PIXEL as u128;
    assert(0 <= root * fov <= 0xffff_ffff_ffff_ffff * 1_296_000_000_000) by (nonlinear_arith)
        requires
            0 <= root <= 0xffff_ffff_ffff_ffff,
            0 < fov <= 1_296_000_000_000,
    ;
    let product: u128 = root as u128 * fov as u128;
    assert(0 <= product as int / scale as int <= product) by (nonlinear_arith)
        requires
            0 <= product,
            scale >= 1,
    ;
    let max_distance: i128 = (product / scale) as i128;
    proof {
        let far_x = farther_edge(point.x as int, width as int);
        let far_y = farther_edge(point.y as int, height as int);
        assert(far_x == h && far_y == v);
        assert(max_distance == root as int * fov as int / (width * MICROPIXELS_PER_PIXEL));
    }
    FovQuery { max_distance, decrowd_distance: (2 * fov + 15) / 30, limit_result: 50 }
}

/// A catalog object that the search selected, and those that it pushes aside, with the points at
/// which they appear in the image.
#[derive(Debug)]
pub struct SelectedEntry {
    /// The object.
    pub entry: FovCatalogEntry,
    /// The fainter ones close to it.
    pub decrowded_entries: Vec<FovCatalogEntry>,
}

/// The objects of a list that lie in the image, in order.
pub open spec fn entries_in_image(
    entries: Seq<FovCatalogEntry>,
    width: int,
    height: int,
) -> Seq<FovCatalogEntry>
    decreases entries.len(),
{
    if entries.len() == 0 {
        seq![]
    } else {
        let before = entries_in_image(entries.drop_last(), width, height);
        if in_image(entries.last().image_pos, width, height) {
            before.push(entries.last())
        } else {
            before
        }
    }
}

/// The objects that were selected.
pub open spec fn selected_objects(selected: Seq<SelectedEntry>) -> Seq<FovCatalogEntry> {
    Seq::new(selected.len(), |i: int| selected[i].entry)
}

/// The objects that were pushed aside, one list after the other.
pub open spec fn decrowded_objects(
    selected: Seq<SelectedEntry>,
    width: int,
    height: int,
) -> Seq<FovCatalogEntry>
    decreases selected.len(),
{
    if selected.len() == 0 {
        seq![]
    } else {
        decrowded_objects(selected.drop_last(), width, height) + entries_in_image(
            selected.last().decrowded_entries@,
            width,
            height,
        )
    }
}

/// Whether a point lies in an image.
fn is_in_image(place: ImageCoord, width: u32, height: u32) -> (inside: bool)
    ensures
        inside == in_image(place, width as int, height as int),
{
    place.x >= 0 && place.x < width as i64 * MICROPIXELS_PER_PIXEL && place.y >= 0 && place.y
        < height as i64 * MICROPIXELS_PER_PIXEL
}

/// Keeps the objects that lie in the image: those selected, and those pushed aside by them.
pub fn fov_catalog_entries(selected: &Vec<SelectedEntry>, width: u32, height: u32) -> (r: (
    Vec<FovCatalogEntry>,
    Vec<FovCatalogEntry>,
))
    ensures
        r.0@ == entries_in_image(selected_objects(selected@), width as int, height as int),
        r.1@ == decrowded_objects(selected@, width as int, height as int),
{
    let mut answer: Vec<FovCatalogEntry> = Vec::new();
    let mut culled: Vec<FovCatalogEntry> = Vec::new();
    let mut i: usize = 0;
    while i < selected.len()
        invariant
            i <= selected@.len(),
            answer@ == entries_in_image(
                selected_objects(selected@.take(i as int)),
                width as int,
                height as int,
            ),
            culled@ == decrowded_objects(selected@.take(i as int), width as int, height as int),
        decreases selected.len() - i,
    {
        let ghost before = selected@.take(i as int);
        let ghost after = selected@.take(i + 1);
        assert(after.drop_last() =~= before);
        assert(selected_objects(after).drop_last() =~= selected_objects(before));
        let entry: FovCatalogEntry = selected[i].entry;
        if is_in_image(entry.image_pos, width, height) {
            answer.push(entry);
        }
        let decrowded: &Vec<FovCatalogEntry> = &selected[i].decrowded_entries;
        let ghost culled_before = culled@;
        let mut j: usize = 0;
        while j < decrowded.len()
            invariant
                j <= decrowded@.len(),
                culled@ == culled_before + entries_in_image(
                    decrowded@.take(j as int),
                    width as int,
                    height as int,
                ),
            decreases decrowded.len() - j,
        {
            assert(decrowded@.take(j + 1).drop_last() =~= decrowded@.take(j as int));
            let faint: FovCatalogEntry = decrowded[j];
            if is_in_image(faint.image_pos, width, height) {
                culled.push(faint);
            }
            j = j + 1;
        }
        assert(decrowded@.take(j as int) =~= decrowded@);
        i = i + 1;
    }
    assert(selected@.take(i as int) =~= selected@);
    (answer, culled)
}

/// What the catalog is asked for the object that a slew leads to.
#[derive(Clone, Copy, Debug, PartialEq, Eq, Structural)]
pub struct TargetQuery {
    /// How far from the target to search.
    pub max_distance: i64,
    /// How the results are sorted.
    pub order: SearchOrder,
    /// Where distances are counted from.
    pub sky_location: CelestialCoord,
}

/// Plans the search for the object that a slew leads to: within a minute of arc of the target,
/// the nearest first.
pub fn plan_target_query(target: CelestialCoord) -> (query: TargetQuery)
    ensures
        query == (TargetQuery {
            max_distance: 60_000_000,
            order: SearchOrder::SkyLocation,
            sky_location: target,
        }),
{
    TargetQuery {
        max_distance: 60_000_000,
        order: SearchOrder::SkyLocation,
        sky_location: target,
    }
}

/// Whether a function measures how far apart two places are: it is defined for all of them and
/// always gives the same result for them.
pub open spec fn is_separation<F: Fn(CelestialCoord, CelestialCoord) -> i64>(separation: F) -> bool {
    &&& forall|args: (CelestialCoord, CelestialCoord)| #[trigger] call_requires(separation, args)
    &&& forall|args: (CelestialCoord, CelestialCoord), a: i64, b: i64|
        #[trigger] call_ensures(separation, args, a) && #[trigger] call_ensures(
            separation,
            args,
            b,
        ) ==> a == b
}

/// How far apart two places are.
pub open spec fn separation_of<F: Fn(CelestialCoord, CelestialCoord) -> i64>(
    separation: F,
    a: CelestialCoord,
    b: CelestialCoord,
) -> i64 {
    choose|r: i64| call_ensures(separation, (a, b), r)
}

/// The object that a slew leads to: the first of those that the search found, which is the
/// nearest. There is none where there was no search or it failed.
pub open spec fn catalog_target<F: Fn(CelestialCoord, CelestialCoord) -> i64>(
    found: Option<&Vec<CelestialCoord>>,
    target: CelestialCoord,
    separation: F,
) -> Option<CatalogTarget> {
    match found {
        Some(places) => if places@.len() > 0 {
            Some(
                CatalogTarget {
                    index: 0,
                    coord: places@[0],
                    distance: separation_of(separation, target, places@[0]),
                },
            )
        } else {
            None
        },
        None => None,
    }
}

/// Chooses the object that a slew leads to, and measures how far it is from the target.
pub fn get_catalog_entry_for_target<F: Fn(CelestialCoord, CelestialCoord) -> i64>(
    found: Option<&Vec<CelestialCoord>>,
    target: CelestialCoord,
    separation: &F,
) -> (r: Option<CatalogTarget>)
    requires
        is_separation(*separation),
    ensures
        r == catalog_target(found, target, *separation),
{
    match found {
        Some(places) => {
            if places.len() == 0 {
                return None;
            }
            let coord: CelestialCoord = places[0];
            let distance: i64 = separation(target, coord);
            Some(CatalogTarget { index: 0, coord, distance })
        },
        None => None,
    }
}

/// An attempt to solve a plate.
#[derive(Debug)]
pub struct Attempt {
    /// When it ended, in microseconds since 1970 (UTC).
    pub finish_time: u64,
    /// The solution, if there is one.
    pub solution: Option<Solution>,
}

/// The solution that a cycle ended with: there is none where none was attempted.
pub open spec fn solution_of(attempt: Option<Attempt>) -> Option<Solution> {
    match attempt {
        Some(attempt) => attempt.solution,
        None => None,
    }
}

/// Where a slew leads to, seen from the boresight.
#[derive(Clone, Copy, Debug, PartialEq, Eq, Structural)]
pub struct SlewGeometry {
    /// Where to.
    pub target: CelestialCoord,
    /// How far it is.
    pub distance: i64,
    /// In which direction it lies, relative to north.
    pub position_angle: i64,
}

/// Whether a slew's description and its closeup are those of a solution: there are none without
/// a slew, nor while aligning.
pub open spec fn is_posted_slew<F: Fn(CelestialCoord, CelestialCoord) -> i64>(
    posted: PlateSolution,
    state: SolveEngine,
    solution: Solution,
    target_pixel: Seq<ImageCoord>,
    slew: Option<SlewGeometry>,
    found: Option<&Vec<CelestialCoord>>,
    separation: F,
    width: int,
    height: int,
) -> bool {
    let boresight = boresight_point(state.boresight_pixel, width, height);
    if state.align_mode || slew is None {
        posted.slew_request is None && posted.boresight_image_region is None
    } else {
        let slew = slew->0;
        &&& posted.slew_request == Some(
            slew_request(
                slew.target,
                slew.distance,
                slew.position_angle,
                catalog_target(found, slew.target, separation),
                solution.roll,
                target_pixel,
            ),
        )
        &&& posted.boresight_image_region == (match target_point(target_pixel) {
            Some(point) => if is_close(point, boresight, width, height) {
                closeup_region(boresight, width, height)
            } else {
                None
            },
            None => None,
        })
    }
}

/// Puts together what a cycle ends with. Without a solution that is nothing. With one it is, unless
/// aligning, the slew in progress, and, where there is a catalog, the objects in the image. What
/// the telescope interface said is taken over once the slew is described. When the attempt ended
/// is posted wherever there was one.
///
/// `found` is where the objects are that the catalog holds near the target of the slew, if there
/// is a catalog and the search succeeded. `separation` measures how far apart two places are.
pub fn post_solution<F: Fn(CelestialCoord, CelestialCoord) -> i64>(
    state: &mut SolveEngine,
    attempt: Option<Attempt>,
    target_pixel: &Vec<ImageCoord>,
    slew: Option<SlewGeometry>,
    found: Option<&Vec<CelestialCoord>>,
    separation: &F,
    sync_pixel: Option<ImageCoord>,
    selected: Option<Vec<SelectedEntry>>,
    width: u32,
    height: u32,
) -> (posted: PlateSolution)
    requires
        is_separation(*separation),
        !old(state).align_mode ==> (solution_of(attempt) matches Some(solution) ==> (slew matches Some(slew)
            ==> {
            &&& crate::cedar::angle_in_reach(slew.position_angle)
            &&& crate::cedar::angle_in_reach(solution.roll)
            &&& slew_can_be_shown(
                target_pixel@,
                old(state).boresight_pixel,
                width as int,
                height as int,
            )
        })),
    ensures
        posted.solution == solution_of(attempt),
        posted.solve_finish_time == (match attempt {
            Some(attempt) => Some(attempt.finish_time),
            None => None,
        }),
        solution_of(attempt) is None ==> {
            &&& posted.slew_request is None
            &&& posted.boresight_image_region is None
            &&& posted.fov_catalog_entries is None
            &&& posted.decrowded_fov_catalog_entries is None
            &&& *final(state) == *old(state)
        },
        solution_of(attempt) matches Some(solution) ==> is_posted_slew(
            posted,
            *old(state),
            solution,
            target_pixel@,
            slew,
            found,
            *separation,
            width as int,
            height as int,
        ),
        solution_of(attempt) is Some ==> (match selected {
            Some(selected) => {
                &&& posted.fov_catalog_entries matches Some(entries) && entries@
                    == entries_in_image(
                    selected_objects(selected@),
                    width as int,
                    height as int,
                )
                &&& posted.decrowded_fov_catalog_entries matches Some(entries) && entries@
                    == decrowded_objects(selected@, width as int, height as int)
            },
            None => posted.fov_catalog_entries is None && posted.decrowded_fov_catalog_entries
                is None,
        }),
        solution_of(attempt) is Some && old(state).align_mode ==> *final(state) == *old(state),
        solution_of(attempt) is Some && !old(state).align_mode ==> *final(state) == (SolveEngine {
            slew_target: match slew {
                Some(slew) => Some(slew.target),
                None => None,
            },
            boresight_pixel: match sync_pixel {
                Some(pixel) => Some(pixel),
                None => old(state).boresight_pixel,
            },
            ..*old(state)
        }),
{
    let mut posted = PlateSolution {
        solution: None,
        solve_finish_time: None,
        slew_request: None,
        boresight_image_region: None,
        fov_catalog_entries: None,
        decrowded_fov_catalog_entries: None,
    };
    let solution: Option<Solution> = match attempt {
        Some(attempt) => {
            posted.solve_finish_time = Some(attempt.finish_time);
            attempt.solution
        },
        None => None,
    };
    if let Some(solution) = solution {
        if !state.align_mode {
            let mut slew_target: Option<CelestialCoord> = None;
            if let Some(slew) = slew {
                slew_target = Some(slew.target);
                let catalog_entry: Option<CatalogTarget> = get_catalog_entry_for_target(
                    found,
                    slew.target,
                    separation,
                );
                let (request, region) = handle_slew(
                    slew.target,
                    slew.distance,
                    slew.position_angle,
                    catalog_entry,
                    solution.roll,
                    target_pixel,
                    state.boresight_pixel,
                    width,
                    height,
                );
                posted.slew_request = Some(request);
                posted.boresight_image_region = region;
            }
            apply_callback(state, slew_target, sync_pixel);
        }
        if let Some(selected) = selected {
            let (entries, culled) = fov_catalog_entries(&selected, width, height);
            posted.fov_catalog_entries = Some(entries);
            posted.decrowded_fov_catalog_entries = Some(culled);
        }
        posted.solution = Some(solution);
    }
    posted
}

/// Every object that is kept lies in the image.
pub proof fn law_entries_lie_in_image(
    entries: Seq<FovCatalogEntry>,
    width: int,
    height: int,
    i: int,
)
    requires
        0 <= i < entries_in_image(entries, width, height).len(),
    ensures
        in_image(entries_in_image(entries, width, height)[i].image_pos, width, height),
        entries.contains(entries_in_image(entries, width, height)[i]),
    decreases entries.len(),
{
    let before = entries_in_image(entries.drop_last(), width, height);
    if i < before.len() {
        law_entries_lie_in_image(entries.drop_last(), width, height, i);
        let entry = entries_in_image(entries, width, height)[i];
        let k = choose|k: int| 0 <= k < entries.drop_last().len() && entries.drop_last()[k] == entry;
        assert(entries[k] == entry);
    } else {
        assert(entries[entries.len() - 1] == entries.last());
    }
}

/// The name of the file that an image is saved under: its exposure in milliseconds, and the local
/// date and time.
pub open spec fn image_file_name_value(exposure: int, at: LocalDateTime) -> Seq<char> {
    "img_"@ + text::decimal((exposure / NANOSECONDS_PER_MILLISECOND as int) as nat) + "ms_"@
        + at.year_value() + text::padded(at.month as int) + text::padded(at.day as int) + seq!['_'] + text::padded(at.hour as int) + text::padded(
        at.minute as int,
    ) + text::padded(at.second + at.nanosecond as int / 1_000_000_000) + ".bmp"@
}

/// Names the file that an image is saved under.
pub fn image_file_name(exposure: u64, at: &LocalDateTime) -> (name: String)
    requires
        at.in_range(),
    ensures
        name@ == image_file_name_value(exposure as int, *at),
{
    let mut name: String = "img_".to_owned();
    push_decimal(&mut name, exposure / NANOSECONDS_PER_MILLISECOND);
    name.append("ms_");
    at.push_year(&mut name);
    push_padded(&mut name, at.month as i64);
    push_padded(&mut name, at.day as i64);
    name.push('_');
    push_padded(&mut name, at.hour as i64);
    push_padded(&mut name, at.minute as i64);
    push_padded(&mut name, at.second as i64 + at.nanosecond as i64 / 1_000_000_000);
    name.append(".bmp");
    assert(name@ =~= image_file_name_value(exposure as int, *at));
    name
}

/// A setting is taken where it makes sense and refused otherwise, and nothing else changes: a field
/// of view that is positive, a distortion of a fifth at most, an error that is not negative, four
/// stars and more.
pub proof fn law_settings_that_make_sense(
    fov_set: &mut SolveEngine,
    fov: i64,
    fov_r: Result<(), SettingError>,
    distortion_set: &mut SolveEngine,
    distortion: i64,
    distortion_r: Result<(), SettingError>,
    error_set: &mut SolveEngine,
    error: i64,
    error_r: Result<(), SettingError>,
    stars_set: &mut SolveEngine,
    stars: i32,
    stars_r: Result<(), SettingError>,
)
    requires
        call_ensures(SolveEngine::set_fov_estimate, (fov_set, Some(fov)), fov_r),
        call_ensures(SolveEngine::set_distortion, (distortion_set, distortion), distortion_r),
        call_ensures(SolveEngine::set_match_max_error, (error_set, error), error_r),
        call_ensures(SolveEngine::set_minimum_stars, (stars_set, stars), stars_r),
    ensures
        fov_r is Ok <==> fov > 0,
        distortion_r is Ok <==> -200_000_000 <= distortion <= 200_000_000,
        error_r is Ok <==> error >= 0,
        stars_r is Ok <==> stars >= 4,
        fov_r is Ok ==> final(fov_set).fov_estimate == Some(fov),
        distortion_r is Ok ==> final(distortion_set).distortion == distortion,
        error_r is Ok ==> final(error_set).match_max_error == error,
        stars_r is Ok ==> final(stars_set).minimum_stars == stars,
        fov_r is Err ==> *final(fov_set) == *old(fov_set),
        distortion_r is Err ==> *final(distortion_set) == *old(distortion_set),
        error_r is Err ==> *final(error_set) == *old(error_set),
        stars_r is Err ==> *final(stars_set) == *old(stars_set),
        final(fov_set).boresight_pixel == old(fov_set).boresight_pixel,
        final(stars_set).solve_timeout == old(stars_set).solve_timeout,
{
}

/// What a calibration found is what the solver is asked by from there on: its field of view, with a
/// tenth to either side, its distortion, error and time.
pub proof fn law_solver_is_asked_by_the_calibration(
    engine: &mut SolveEngine,
    settings: SolverSettings,
    r: Result<(), SettingError>,
    arguments: (SolveExtension, SolveParams),
)
    requires
        old(engine).wf(),
        call_ensures(SolveEngine::configure, (engine, &settings), r),
        r is Ok,
        call_ensures(SolveEngine::solve_arguments, (&*final(engine),), arguments),
    ensures
        arguments.1.distortion == Some(settings.distortion),
        arguments.1.match_max_error == Some(settings.match_max_error),
        arguments.1.solve_timeout == Some(settings.solve_timeout),
        arguments.1.match_radius == Some(old(engine).match_radius),
        arguments.1.match_threshold == Some(old(engine).match_threshold),
        arguments.1.fov_estimate is Some <==> settings.fov_estimate is Some,
        arguments.1.fov_estimate matches Some((fov, off)) ==> settings.fov_estimate == Some(fov)
            && (0 < fov < 0x7fff_ffff_ffff_0000 ==> -5 <= 10 * off - fov <= 5),
        arguments.0.target_pixel is Some <==> old(engine).boresight_pixel is Some,
        arguments.0.target_pixel matches Some(pixels) ==> pixels@.len() == 1 && Some(pixels@[0])
            == old(engine).boresight_pixel,
        arguments.0.target_sky_coord is Some <==> old(engine).slew_target is Some,
        arguments.0.target_sky_coord matches Some(targets) ==> targets@.len() == 1 && Some(
            targets@[0],
        ) == old(engine).slew_target,
{
}

/// A solution is tried with as many stars as are set, and more, never with fewer.
pub proof fn law_solutions_take_stars(engine: SolveEngine, stars: usize, attempt: bool)
    requires
        engine.wf(),
        call_ensures(SolveEngine::should_solve, (&engine, stars), attempt),
    ensures
        stars < 4 ==> !attempt,
        attempt <==> stars >= engine.minimum_stars,
{
}

/// While aligning nothing is counted. Otherwise every cycle counts as one with an attempt or
/// without, and every attempt as a success or a failure. A failure is logged where there were eight
/// stars and more, once until a solution comes.
pub proof fn law_cycles_are_counted(
    engine: &mut SolveEngine,
    frame_id: i32,
    end: SolveEnd,
    stars: usize,
    report: CycleReport,
)
    requires
        call_ensures(finish_cycle, (engine, frame_id, end, stars), report),
    ensures
        final(engine).frame_id == Some(frame_id),
        old(engine).align_mode ==> report.attempt_sample is None && report.success_sample is None
            && !report.latency_sample && !report.report,
        !old(engine).align_mode ==> {
            &&& report.report && report.latency_sample
            &&& report.attempt_sample == Some(!(end is NotAttempted))
            &&& end is NotAttempted ==> report.success_sample is None
            &&& end is Solved ==> report.success_sample == Some(true)
            &&& end is Failed ==> report.success_sample == Some(false)
        },
        report.log_failure ==> end is Failed && stars >= 8 && !old(engine).logged_error
            && final(engine).logged_error,
        end is Failed && stars >= 8 ==> final(engine).logged_error,
        end is Solved ==> !final(engine).logged_error,
        end is NotAttempted || (end is Failed && stars < 8) ==> final(engine).logged_error
            == old(engine).logged_error,
        final(engine).slew_target == old(engine).slew_target,
        final(engine).boresight_pixel == old(engine).boresight_pixel,
{
}

/// A slew is shown in the direction of its target, turned with the image, as far away as it is, and
/// at the point of the image where the target appears, unless that is left of it. Where the target
/// is closer to the boresight than a sixteenth of the smaller side of the image, what is around the
/// boresight, or else around the center, is shown enlarged: the pixels of the image within a sixth
/// of that side.
pub proof fn law_slew_is_shown(
    target: CelestialCoord,
    distance: i64,
    position_angle: i64,
    catalog_entry: Option<CatalogTarget>,
    roll: i64,
    target_pixel: Vec<ImageCoord>,
    boresight: ImageCoord,
    width: u32,
    height: u32,
    r: (SlewRequest, Option<Rectangle>),
    x: int,
    y: int,
)
    requires
        width <= 0x3fff_ffff,
        height <= 0x3fff_ffff,
        0 <= boresight.x <= 500_000_000_000_000,
        0 <= boresight.y <= 500_000_000_000_000,
        call_ensures(
            handle_slew,
            (
                target,
                distance,
                position_angle,
                catalog_entry,
                roll,
                &target_pixel,
                Some(boresight),
                width,
                height,
            ),
            r,
        ),
    ensures
        r.0.target == target && r.0.target_distance == distance && r.0.target_catalog_entry
            == catalog_entry,
        -2_000_000_000_000_000 <= position_angle + roll <= 2_000_000_000_000_000 ==> (0
            <= r.0.target_angle < 1_296_000_000_000 && (r.0.target_angle - position_angle - roll)
            % 1_296_000_000_000 == 0),
        r.0.offset_rotation_axis is None && r.0.offset_tilt_axis is None,
        target_pixel@.len() == 0 ==> r.0.image_pos is None && r.1 is None,
        target_pixel@.len() > 0 ==> {
            let point = target_pixel@[0];
            let side: int = if width < height { width as int } else { height as int };
            let dx = point.x - boresight.x;
            let dy = point.y - boresight.y;
            let close = 16 * 16 * (dx * dx + dy * dy) < (1_000_000 * side) * (1_000_000 * side);
            let across = side / 6;
            let left = boresight.x as int / 1_000_000 - across / 2;
            let top = boresight.y as int / 1_000_000 - across / 2;
            &&& point.x < 0 ==> r.0.image_pos is None && r.1 is None
            &&& point.x >= 0 ==> r.0.image_pos == Some(point) && (close <==> r.1 is Some)
            &&& r.1 matches Some(region) ==> (region.origin_x <= x < region.origin_x + region.width
                && region.origin_y <= y < region.origin_y + region.height <==> 0 <= x < width && 0
                <= y < height && left <= x < left + across && top <= y < top + across)
        },
{
    if target_pixel@.len() > 0 {
        let side: int = if width < height { width as int } else { height as int };
        assert((side * 1_000_000) * (side * 1_000_000) == (1_000_000 * side) * (1_000_000 * side))
            by (nonlinear_arith);
    }
}

/// Without a boresight the slew is seen from the center of the image.
pub proof fn law_center_stands_for_the_boresight(
    target: CelestialCoord,
    distance: i64,
    position_angle: i64,
    roll: i64,
    target_pixel: Vec<ImageCoord>,
    width: u32,
    height: u32,
    without: (SlewRequest, Option<Rectangle>),
    at_center: (SlewRequest, Option<Rectangle>),
)
    requires
        call_ensures(
            handle_slew,
            (
                target,
                distance,
                position_angle,
                None::<CatalogTarget>,
                roll,
                &target_pixel,
                None::<ImageCoord>,
                width,
                height,
            ),
            without,
        ),
        call_ensures(
            handle_slew,
            (
                target,
                distance,
                position_angle,
                None::<CatalogTarget>,
                roll,
                &target_pixel,
                Some(ImageCoord { x: (500_000 * width) as i64, y: (500_000 * height) as i64 }),
                width,
                height,
            ),
            at_center,
        ),
    ensures
        without == at_center,
{
}

/// The part around the boresight is cut out of the image pixel by pixel, and its rows are moved to
/// black where that is wanted. It is stretched from its background to its brightest pixels, which
/// count as 64 at least.
pub proof fn law_closeup_shows_the_image<F: Fn(u8, u8) -> u8>(
    image: GrayImage,
    region: Rectangle,
    part: GrayImage,
    normalized: GrayImage,
    scaled: &mut GrayImage,
    background: u8,
    top_value: u8,
    curve: F,
    x: int,
    y: int,
    other: int,
)
    requires
        image.wf(),
        region.origin_x >= 0 && region.origin_y >= 0 && region.width > 0 && region.height > 0,
        region.origin_x + region.width <= image.width,
        region.origin_y + region.height <= image.height,
        0 <= x < region.width,
        0 <= other < region.width,
        0 <= y < region.height,
        call_ensures(cut_closeup, (&image, region, false), part),
        call_ensures(cut_closeup, (&image, region, true), normalized),
        old(scaled).wf(),
        call_ensures(scale_closeup::<F>, (scaled, background, top_value, &curve), ()),
    ensures
        part.width == region.width && part.height == region.height,
        part.at(x, y) == image.at(region.origin_x + x, region.origin_y + y),
        normalized.at(x, y) - normalized.at(other, y) == part.at(x, y) - part.at(other, y),
        normalized.at(x, y) <= part.at(x, y),
        forall|i: int|
            0 <= i < old(scaled).pixels@.len() ==> {
                let value = (#[trigger] old(scaled).pixels@[i]);
                &&& value < background ==> final(scaled).pixels@[i] == 0
                &&& value >= background && value >= top_value && value >= 64
                    ==> final(scaled).pixels@[i] == 255
            },
{
    let cut = choose|cut: GrayImage| #[trigger]
        is_cut(cut, image, region) && is_prepared(part, cut, false);
    assert(part.at(x, y) == cut.at(x, y) - 0);
    assert(part.at(other, y) == cut.at(other, y) - 0);
    let again = choose|again: GrayImage| #[trigger]
        is_cut(again, image, region) && is_prepared(normalized, again, true);
    assert(cut.at(x, y) == image.at(region.origin_x + x, region.origin_y + y));
    assert(cut.at(other, y) == image.at(region.origin_x + other, region.origin_y + y));
    assert(again.at(x, y) == image.at(region.origin_x + x, region.origin_y + y));
    assert(again.at(other, y) == image.at(region.origin_x + other, region.origin_y + y));
    assert(normalized.at(x, y) == again.at(x, y) - crate::image_utils::row_minimum(again, y));
    assert(normalized.at(other, y) == again.at(other, y) - crate::image_utils::row_minimum(
        again,
        y,
    ));
    assert forall|i: int| 0 <= i < old(scaled).pixels@.len() implies {
        let value = (#[trigger] old(scaled).pixels@[i]);
        &&& value < background ==> final(scaled).pixels@[i] == 0
        &&& value >= background && value >= top_value && value >= 64 ==> final(scaled).pixels@[i]
            == 255
    } by {
        assert(final(scaled).pixels@[i] == crate::image_utils::scaled_value(
            curve,
            background,
            if top_value < 64 {
                64
            } else {
                top_value
            },
            old(scaled).pixels@[i],
        ));
    }
}

/// The search reaches every corner of the image: no pixel is further away from the boresight, or
/// else from the center, than the distance that it goes out to, at the scale of the image. Objects
/// are kept a fifteenth of the field of view apart, and fifty at most.
pub proof fn law_search_reaches_the_corners(
    boresight: ImageCoord,
    width: u32,
    height: u32,
    fov: i64,
    query: FovQuery,
    x: int,
    y: int,
    far: int,
)
    requires
        0 < width,
        0 < fov <= 1_296_000_000_000,
        0 <= boresight.x <= 1_000_000 * width,
        0 <= boresight.y <= 1_000_000 * height,
        0 <= x <= 1_000_000 * width,
        0 <= y <= 1_000_000 * height,
        0 <= far,
        far * far <= (x - boresight.x) * (x - boresight.x) + (y - boresight.y) * (y - boresight.y),
        call_ensures(plan_fov_query, (Some(boresight), width, height, fov), query),
    ensures
        query.limit_result == 50,
        -15 <= 30 * query.decrowd_distance - 2 * fov <= 15,
        far * fov < (query.max_distance + 1) * (1_000_000 * width),
{
    let h = farther_edge(boresight.x as int, width as int);
    let v = farther_edge(boresight.y as int, height as int);
    let dx = x - boresight.x;
    let dy = y - boresight.y;
    assert(dx * dx <= h * h) by (nonlinear_arith)
        requires
            -h <= dx <= h,
    ;
    assert(dy * dy <= v * v) by (nonlinear_arith)
        requires
            -v <= dy <= v,
    ;
    let n = h * h + v * v;
    assert(n >= 0) by (nonlinear_arith)
        requires
            n == h * h + v * v,
    ;
    crate::numbers::lemma_whole_root(n);
    let root = crate::numbers::whole_root(n);
    assert(far <= root) by (nonlinear_arith)
        requires
            far * far <= n,
            n < (root + 1) * (root + 1),
            0 <= far,
            0 <= root,
    ;
    let f = fov as int;
    assert(far * f <= root * f) by (nonlinear_arith)
        requires
            far <= root,
            f > 0,
    ;
    let scale = width * 1_000_000;
    vstd::arithmetic::div_mod::lemma_fundamental_div_mod(root * f, scale);
    let q = query.max_distance as int;
    assert((q + 1) * scale == scale * q + scale) by (nonlinear_arith);
}

/// The search goes out no further than to the farthest corner.
pub proof fn law_search_ends_at_the_corner(
    width: u32,
    height: u32,
    fov: i64,
    query: FovQuery,
)
    requires
        0 < width,
        0 < fov <= 1_296_000_000_000,
        call_ensures(plan_fov_query, (None::<ImageCoord>, width, height, fov), query),
    ensures
        ({
            let reach = 2 * query.max_distance * width;
            0 <= query.max_distance ==> reach * reach <= (width * width + height * height) * (fov
                * fov)
        }),
{
    let w = width as int;
    let t = height as int;
    let h = w * 500_000;
    let v = t * 500_000;
    assert(farther_edge(h, w) == h && farther_edge(v, t) == v);
    let n = h * h + v * v;
    assert(n >= 0 && n == 250_000_000_000 * (w * w + t * t)) by (nonlinear_arith)
        requires
            h == w * 500_000,
            v == t * 500_000,
            n == h * h + v * v,
    ;
    crate::numbers::lemma_whole_root(n);
    let root = crate::numbers::whole_root(n);
    let f = fov as int;
    let scale = w * 1_000_000;
    vstd::arithmetic::div_mod::lemma_fundamental_div_mod(root * f, scale);
    let q = query.max_distance as int;
    if 0 <= q {
        let a = scale * q;
        let b = root * f;
        assert(0 <= a) by (nonlinear_arith)
            requires
                a == scale * q,
                scale >= 0,
                q >= 0,
        ;
        assert(a * a <= b * b) by (nonlinear_arith)
            requires
                0 <= a <= b,
        ;
        assert(b * b == (root * root) * (f * f)) by (nonlinear_arith)
            requires
                b == root * f,
        ;
        assert((root * root) * (f * f) <= n * (f * f)) by (nonlinear_arith)
            requires
                root * root <= n,
        ;
        let reach = 2 * q * w;
        assert(a == 500_000 * reach) by (nonlinear_arith)
            requires
                a == scale * q,
                scale == w * 1_000_000,
                reach == 2 * q * w,
        ;
        assert(a * a == 250_000_000_000 * (reach * reach)) by (nonlinear_arith)
            requires
                a == 500_000 * reach,
        ;
        let m = (w * w + t * t) * (f * f);
        assert(n * (f * f) == 250_000_000_000 * m) by (nonlinear_arith)
            requires
                n == 250_000_000_000 * (w * w + t * t),
                m == (w * w + t * t) * (f * f),
        ;
        let shown = 2 * query.max_distance * width;
        assert(shown == reach);
    }
}

/// Exactly the objects that lie in the image are kept, those selected and those pushed aside: an
/// object lies in it whose point is right of the left edge and below the upper, and left of the
/// right edge and above the lower.
pub proof fn law_objects_in_the_image_are_kept(
    selected: Vec<SelectedEntry>,
    width: u32,
    height: u32,
    r: (Vec<FovCatalogEntry>, Vec<FovCatalogEntry>),
    entry: FovCatalogEntry,
)
    requires
        call_ensures(fov_catalog_entries, (&selected, width, height), r),
    ensures
        ({
            let place = entry.image_pos;
            let inside = 0 <= place.x < 1_000_000 * width && 0 <= place.y < 1_000_000 * height;
            &&& r.0@.contains(entry) <==> inside && (exists|i: int|
                0 <= i < selected@.len() && (#[trigger] selected@[i]).entry == entry)
            &&& r.1@.contains(entry) <==> inside && (exists|i: int|
                0 <= i < selected@.len() && (
                #[trigger] selected@[i]).decrowded_entries@.contains(entry))
        }),
{
    let w = width as int;
    let h = height as int;
    let all = selected_objects(selected@);
    lemma_kept_entries(all, w, h, entry);
    lemma_decrowded_entries(selected@, w, h, entry);
    if all.contains(entry) {
        let i = choose|i: int| 0 <= i < all.len() && all[i] == entry;
        assert(selected@[i].entry == entry);
    }
    if exists|i: int| 0 <= i < selected@.len() && (#[trigger] selected@[i]).entry == entry {
        let i = choose|i: int| 0 <= i < selected@.len() && (#[trigger] selected@[i]).entry == entry;
        assert(all[i] == entry);
    }
}

/// What is kept of a list is what lies in the image.
proof fn lemma_kept_entries(
    entries: Seq<FovCatalogEntry>,
    width: int,
    height: int,
    entry: FovCatalogEntry,
)
    ensures
        entries_in_image(entries, width, height).contains(entry) <==> in_image(
            entry.image_pos,
            width,
            height,
        ) && entries.contains(entry),
    decreases entries.len(),
{
    if entries.len() > 0 {
        let front = entries.drop_last();
        lemma_kept_entries(front, width, height, entry);
        let before = entries_in_image(front, width, height);
        let after = entries_in_image(entries, width, height);
        if after.contains(entry) {
            let k = choose|k: int| 0 <= k < after.len() && after[k] == entry;
            if k < before.len() {
                assert(before[k] == entry);
                let j = choose|j: int| 0 <= j < front.len() && front[j] == entry;
                assert(entries[j] == entry);
            } else {
                assert(entries[entries.len() - 1] == entry);
            }
        }
        if in_image(entry.image_pos, width, height) && entries.contains(entry) {
            let j = choose|j: int| 0 <= j < entries.len() && entries[j] == entry;
            if j < front.len() {
                assert(front[j] == entry);
                let k = choose|k: int| 0 <= k < before.len() && before[k] == entry;
                assert(after[k] == entry);
            } else {
                assert(after[after.len() - 1] == entry);
            }
        }
    }
}

/// What is kept of the lists that are pushed aside is what lies in the image.
proof fn lemma_decrowded_entries(
    selected: Seq<SelectedEntry>,
    width: int,
    height: int,
    entry: FovCatalogEntry,
)
    ensures
        decrowded_objects(selected, width, height).contains(entry) <==> in_image(
            entry.image_pos,
            width,
            height,
        ) && (exists|i: int|
            0 <= i < selected.len() && (#[trigger] selected[i]).decrowded_entries@.contains(entry)),
    decreases selected.len(),
{
    if selected.len() > 0 {
        let front = selected.drop_last();
        let last = selected.last();
        lemma_decrowded_entries(front, width, height, entry);
        lemma_kept_entries(last.decrowded_entries@, width, height, entry);
        let before = decrowded_objects(front, width, height);
        let kept = entries_in_image(last.decrowded_entries@, width, height);
        let after = decrowded_objects(selected, width, height);
        assert(after == before + kept);
        if after.contains(entry) {
            let k = choose|k: int| 0 <= k < after.len() && after[k] == entry;
            if k < before.len() {
                assert(before[k] == entry);
                let i = choose|i: int|
                    0 <= i < front.len()
                        && (#[trigger] front[i]).decrowded_entries@.contains(entry);
                assert(selected[i].decrowded_entries@.contains(entry));
            } else {
                assert(kept[k - before.len()] == entry);
                assert(selected[selected.len() - 1].decrowded_entries@.contains(entry));
            }
        }
        if in_image(entry.image_pos, width, height) && (exists|i: int|
            0 <= i < selected.len() && (#[trigger] selected[i]).decrowded_entries@.contains(
                entry,
            )) {
            let i = choose|i: int|
                0 <= i < selected.len() && (#[trigger] selected[i]).decrowded_entries@.contains(
                    entry,
                );
            if i < front.len() {
                assert(front[i].decrowded_entries@.contains(entry));
                let k = choose|k: int| 0 <= k < before.len() && before[k] == entry;
                assert(after[k] == entry);
            } else {
                let k = choose|k: int| 0 <= k < kept.len() && kept[k] == entry;
                assert(after[before.len() + k] == entry);
            }
        }
    }
}

/// The object that a slew leads to is the nearest that the search found, with how far it is from
/// the target; the search asks for the nearest first, within a minute of arc.
pub proof fn law_target_is_the_nearest_object<F: Fn(CelestialCoord, CelestialCoord) -> i64>(
    places: Vec<CelestialCoord>,
    target: CelestialCoord,
    separation: F,
    r: Option<CatalogTarget>,
    query: TargetQuery,
    distance: i64,
)
    requires
        is_separation(separation),
        call_ensures(
            get_catalog_entry_for_target::<F>,
            (Some(&places), target, &separation),
            r,
        ),
        call_ensures(plan_target_query, (target,), query),
    ensures
        query.sky_location == target && query.max_distance == 60_000_000
            && query.order is SkyLocation,
        r is Some <==> places@.len() > 0,
        r matches Some(object) ==> object.index == 0 && object.coord == places@[0] && (call_ensures(
            separation,
            (target, places@[0]),
            distance,
        ) ==> object.distance == distance),
{
}

/// A cycle without a solution posts nothing but when its attempt ended, and leaves the solver as it
/// is. One with a solution posts that, and the slew in progress unless aligning; the solver then
/// follows the slew, and takes a point that was synced to for its boresight.
pub proof fn law_cycle_posts_what_it_found<F: Fn(CelestialCoord, CelestialCoord) -> i64>(
    state: &mut SolveEngine,
    attempt: Option<Attempt>,
    target_pixel: Vec<ImageCoord>,
    slew: Option<SlewGeometry>,
    separation: F,
    sync_pixel: Option<ImageCoord>,
    width: u32,
    height: u32,
    posted: PlateSolution,
)
    requires
        call_ensures(
            post_solution::<F>,
            (
                state,
                attempt,
                &target_pixel,
                slew,
                None::<&Vec<CelestialCoord>>,
                &separation,
                sync_pixel,
                None::<Vec<SelectedEntry>>,
                width,
                height,
            ),
            posted,
        ),
    ensures
        attempt is None ==> posted.solve_finish_time is None,
        attempt matches Some(attempt) ==> posted.solve_finish_time == Some(attempt.finish_time)
            && posted.solution == attempt.solution,
        posted.solution is None ==> posted.slew_request is None && *final(state) == *old(state),
        posted.solution is Some && old(state).align_mode ==> posted.slew_request is None
            && *final(state) == *old(state),
        posted.solution is Some && !old(state).align_mode ==> {
            &&& posted.slew_request is Some <==> slew is Some
            &&& slew matches Some(slew) ==> (posted.slew_request matches Some(request)
                && request.target == slew.target && request.target_distance == slew.distance)
            &&& final(state).slew_target is Some <==> slew is Some
            &&& slew matches Some(slew) ==> final(state).slew_target == Some(slew.target)
            &&& sync_pixel is Some ==> final(state).boresight_pixel == sync_pixel
            &&& sync_pixel is None ==> final(state).boresight_pixel == old(state).boresight_pixel
        },
        posted.fov_catalog_entries is None && posted.decrowded_fov_catalog_entries is None,
{
}

/// Each setting of the solver changes what it says. A slew goes where it was sent, and a client
/// that says where the telescope points moves the boresight there.
pub proof fn law_settings_of_the_solver(
    aligned: &mut SolveEngine,
    align: bool,
    pointed: &mut SolveEngine,
    boresight: Option<ImageCoord>,
    timed: &mut SolveEngine,
    timeout: u64,
    told: &mut SolveEngine,
    target: Option<CelestialCoord>,
    pixel: Option<ImageCoord>,
)
    requires
        call_ensures(SolveEngine::set_align_mode, (aligned, align), ()),
        call_ensures(SolveEngine::set_boresight_pixel, (pointed, boresight), ()),
        call_ensures(SolveEngine::set_solve_timeout, (timed, timeout), ()),
        call_ensures(apply_callback, (told, target, pixel), ()),
    ensures
        final(aligned).align_mode == align && final(aligned).boresight_pixel
            == old(aligned).boresight_pixel && final(aligned).solve_timeout
            == old(aligned).solve_timeout,
        final(pointed).boresight_pixel == boresight && final(pointed).align_mode
            == old(pointed).align_mode && final(pointed).slew_target == old(pointed).slew_target,
        final(timed).solve_timeout == timeout && final(timed).align_mode == old(timed).align_mode,
        final(told).slew_target == target,
        pixel is Some ==> final(told).boresight_pixel == pixel,
        pixel is None ==> final(told).boresight_pixel == old(told).boresight_pixel,
        final(told).align_mode == old(told).align_mode && final(told).solve_timeout
            == old(told).solve_timeout,
{
}

/// To align by, stars down to the fourth magnitude and planets are looked for, of any catalog; else
/// what the user chose, of any catalog and type.
pub proof fn law_catalog_is_searched_by_the_mode(
    chosen: CatalogEntryMatch,
    to_align: CatalogEntryMatch,
    otherwise: CatalogEntryMatch,
)
    requires
        call_ensures(fov_catalog_match, (chosen, true), to_align),
        call_ensures(fov_catalog_match, (chosen, false), otherwise),
    ensures
        to_align.faintest_magnitude == Some(4i32) && to_align.match_object_type_label,
        to_align.catalog_label@.len() == 0 && to_align.object_type_label@.len() == 4,
        to_align.object_type_label@[0]@ == "star"@ && to_align.object_type_label@[3]@ == "planet"@,
        otherwise.faintest_magnitude == chosen.faintest_magnitude,
        !otherwise.match_object_type_label,
        !to_align.match_catalog_label && !otherwise.match_catalog_label,
{
    let types = text::views(to_align.object_type_label@);
    assert(types.len() == 4);
    assert(types[0] == to_align.object_type_label@[0]@ && types[3]
        == to_align.object_type_label@[3]@);
}

/// An image is saved under its exposure in whole milliseconds and the date and time to the second.
pub proof fn law_image_is_named_by_its_time(
    exposure: u64,
    milliseconds: u64,
    at: LocalDateTime,
    name: String,
)
    requires
        at.in_range(),
        0 <= at.year <= 9999,
        at.nanosecond < 1_000_000_000,
        1_000_000 * milliseconds <= exposure < 1_000_000 * (milliseconds + 1),
        call_ensures(image_file_name, (exposure, &at), name),
    ensures
        name@ == "img_"@ + text::decimal(milliseconds as nat) + "ms_"@ + (text::padded(
            at.year as int / 100,
        ) + text::padded(at.year as int % 100)) + text::padded(at.month as int) + text::padded(
            at.day as int,
        ) + seq!['_'] + text::padded(at.hour as int) + text::padded(at.minute as int)
            + text::padded(at.second as int) + ".bmp"@,
{
}

} // verus!
