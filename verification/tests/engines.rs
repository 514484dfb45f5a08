//! The detecting, solving and serving engines, and calibration.

use cedar_server::astro_util::{FovCatalogEntry, ImageCoord, StarCentroid};
use cedar_server::calibration::{CalibrationData, CanonicalErrorCode};
use cedar_server::calibrator::{
    begin_exposure, begin_offset, calibrate_exposure_duration, calibrate_offset,
    count_zero_pixels, finish_optical, first_solve_params, judge_capture, judge_offset,
    offset_to_set, second_solve_params, CaptureStep, ExposureCalibrationError, ExposureStep,
    ExposureTrial, OffsetStep, OpticalSolution,
};
use cedar_server::cedar::{
    CatalogTarget, CelestialCoord, DisplayOrientation, MountType, OperatingMode, SlewRequest,
};
use cedar_server::date_time::LocalDateTime;
use cedar_server::detect_engine::{
    acquire_duration, contrast_ratio, contrast_region, cut_focus_image, daylight_stretch,
    display_levels, estimate_delay, focus_cycle, intersect, looks_for_stars, measure_levels,
    peak_region, roi_region, star_cycle, stretch_focus_image, update_star_count_moving_average,
    DetectEngine, ExposureInput, FocusLevels, ONE_STAR,
};
use cedar_server::image_utils::{GrayImage, ImageRotator, Rectangle, TRIG_ONE};
use cedar_server::imu_trait::{GyroAxis, TransformCalibration, ZeroBias};
use cedar_server::next_frame::{
    answer_frame_request, calibrating_frame, frame_options, get_next_frame, has_result,
    is_from_detector, repeated_rectangle, CalibrationUnderWay, FrameContext, FrameReply,
    SavedImage,
};
use cedar_server::polling::{
    poll_result, remaining_interval, retry_delay, sleep_duration, Poll,
};
use cedar_server::preferences::CatalogEntryMatch;
use cedar_server::serve_engine::{
    add_offsets, boresight_coords, fix_hot_pixel, plan_display, polls_detector,
    produce_serve_result, repair_hot_pixels, CatalogStar, DetectResult, FocusAid, Horizon,
    HotPixelMap, ImuCalibration, PlateSolution, ServeContext, ServeEngine, Solution,
};
use cedar_server::solve_engine::{
    apply_callback, can_show_slew, cut_closeup, finish_cycle, fov_catalog_entries,
    fov_catalog_match, get_catalog_entry_for_target, handle_slew, image_file_name, plan_fov_query,
    plan_target_query, post_solution, scale_closeup, Attempt, SelectedEntry, SettingError,
    SlewGeometry, SolveEnd, SolveEngine,
};

const DEGREE: i64 = 3_600_000_000;
const MS: u64 = 1_000_000;

fn at(x: f64, y: f64) -> ImageCoord {
    ImageCoord { x: (x * 1e6).round() as i64, y: (y * 1e6).round() as i64 }
}

fn rect(origin_x: i32, origin_y: i32, width: i32, height: i32) -> Rectangle {
    Rectangle { origin_x, origin_y, width, height }
}

fn sky(ra: i64, dec: i64) -> CelestialCoord {
    CelestialCoord { ra: ra * DEGREE, dec: dec * DEGREE }
}

fn trig(angle: i64) -> (i64, i64) {
    let (s, c) = (angle as f64 / 3.6e9).to_radians().sin_cos();
    ((s * 1e9).round() as i64, (c * 1e9).round() as i64)
}

fn scale(brightness: u64, from: i32, to: i32) -> u64 {
    (brightness as f64 * 2.512f64.powf((from - to) as f64 / 1000.0)).round() as u64
}

fn linear(above: u8, range: u8) -> u8 {
    (255 * above as u32 / range as u32) as u8
}

// --- Detecting ---

fn exposure_input(stars: usize) -> ExposureInput {
    ExposureInput {
        exposure: 100 * MS,
        params_accurate: true,
        stars,
        star_count_goal: 20,
        mean: 30,
        initial_exposure: 100 * MS,
        min_exposure: MS,
        max_exposure: 1000 * MS,
    }
}

#[test]
fn star_counts_are_averaged() {
    let mut engine = DetectEngine::new();
    assert_eq!(update_star_count_moving_average(&mut engine, 10), 10 * ONE_STAR);
    assert_eq!(update_star_count_moving_average(&mut engine, 20), 15 * ONE_STAR);
    assert_eq!(update_star_count_moving_average(&mut engine, 4), 9 * ONE_STAR + ONE_STAR / 2);
}

#[test]
fn exposure_follows_the_stars() {
    let mut engine = DetectEngine::new();
    assert!(looks_for_stars(&engine));
    // Half of the stars wanted ask for twice the exposure.
    let cycle = star_cycle(&mut engine, &exposure_input(10), &vec![200; 10], 5);
    assert_eq!(cycle.exposure, Some(200 * MS));
    // A good number is remembered.
    let mut engine = DetectEngine::new();
    let cycle = star_cycle(&mut engine, &exposure_input(20), &vec![200; 20], 5);
    assert_eq!((cycle.exposure, engine.auto_exposure_duration), (None, Some(100 * MS)));
    // Without stars the exposure goes back to the good one, whatever the image shows.
    let input =
        ExposureInput { exposure: 300 * MS, params_accurate: false, ..exposure_input(0) };
    let cycle = star_cycle(&mut engine, &input, &vec![], 5);
    assert_eq!((cycle.exposure, cycle.peak_value), (Some(100 * MS), 255));
    assert_eq!(engine.star_count_moving_average, 20 * ONE_STAR);
    // A bright sky is not exposed longer.
    let mut engine = DetectEngine::new();
    let input = ExposureInput { mean: 200, exposure: 400 * MS, ..exposure_input(10) };
    let cycle = star_cycle(&mut engine, &input, &vec![200; 10], 5);
    assert_eq!(cycle.exposure, Some(100 * MS));
}

#[test]
fn exposure_stays_near_the_calibrated_one() {
    let mut engine = DetectEngine::new();
    engine.set_calibrated_exposure_duration(Some(10 * MS));
    let cycle = star_cycle(&mut engine, &exposure_input(5), &vec![200; 5], 5);
    assert_eq!(cycle.exposure, Some(80 * MS));
    let mut engine = DetectEngine::new();
    engine.note_processing_duration(Some(150 * MS));
    engine.note_processing_duration(Some(900 * MS));
    let cycle = star_cycle(&mut engine, &exposure_input(200), &vec![200; 200], 5);
    assert_eq!(cycle.exposure, Some(150 * MS));
    engine.set_autoexposure_enabled(false);
    let cycle = star_cycle(&mut engine, &exposure_input(5), &vec![200; 5], 5);
    assert_eq!(cycle.exposure, None);
}

#[test]
fn display_levels_go_by_the_stars() {
    assert_eq!(display_levels(&vec![100, 200], 30), (30, 150));
    // Only the ten brightest stars count.
    let mut peaks = vec![100; 10];
    peaks.push(0);
    assert_eq!(display_levels(&peaks, 120), (100, 100));
    // Without stars the full range is shown.
    assert_eq!(display_levels(&vec![], 10), (10, 255));
}

#[test]
fn any_number_of_stars_can_be_wanted() {
    let mut engine = DetectEngine::new();
    let input = ExposureInput { star_count_goal: i32::MAX, ..exposure_input(10) };
    let cycle = star_cycle(&mut engine, &input, &vec![200; 10], 5);
    assert_eq!(cycle.exposure, Some(1000 * MS));
}

#[test]
fn modes_reset_what_was_learned() {
    let mut engine = DetectEngine::new();
    engine.star_count_moving_average = 7;
    engine.auto_exposure_duration = Some(3);
    engine.set_focus_mode(true);
    assert_eq!(engine.star_count_moving_average, 7);
    engine.set_focus_mode(false);
    assert_eq!(engine.star_count_moving_average, 0);
    engine.set_daylight_mode(true);
    assert!(engine.auto_exposure_duration.is_none() && !looks_for_stars(&engine));
    engine.set_binning(4, true);
    engine.camera_processing_duration = Some(1);
    engine.replace_camera();
    assert_eq!((engine.binning, engine.camera_processing_duration), (4, None));
}

fn focus_levels() -> FocusLevels {
    FocusLevels {
        peak_level: 200,
        background_level: 20,
        bright_level: 110,
        mean: 10_000,
        peak_value: 128_000,
        peak_position: at(100.0, 50.0),
        contrast_peak: 100,
        contrast_background: 25,
    }
}

#[test]
fn focusing_shows_the_brightest_point() {
    let mut engine = DetectEngine::new();
    engine.set_focus_mode(true);
    let cycle = focus_cycle(&engine, &exposure_input(0), 640, 480, &focus_levels());
    // The point is twice as bright as wanted.
    assert_eq!(cycle.exposure, Some(50 * MS));
    assert_eq!((cycle.black_level, cycle.peak_value, cycle.contrast_ratio), (20, 200, 750));
    assert_eq!(cycle.focus_aid.peak_image_region, Some(rect(93, 43, 15, 15)));
    assert_eq!(cycle.focus_aid.daylight_focus_zoom_region, None);
    // A bright sky decides where there is one.
    let bright = FocusLevels { mean: 64_000, ..focus_levels() };
    assert_eq!(
        focus_cycle(&engine, &exposure_input(0), 640, 480, &bright).exposure,
        Some(50 * MS)
    );
    let white = FocusLevels { mean: 251_000, ..focus_levels() };
    assert_eq!(
        focus_cycle(&engine, &exposure_input(0), 640, 480, &white).exposure,
        Some(5 * MS)
    );
    let good = FocusLevels { peak_value: 60_000, ..focus_levels() };
    assert_eq!(focus_cycle(&engine, &exposure_input(0), 640, 480, &good).exposure, None);
}

#[test]
fn daylight_shows_the_designated_point() {
    let mut engine = DetectEngine::new();
    engine.set_daylight_mode(true);
    let cycle = focus_cycle(&engine, &exposure_input(0), 640, 480, &focus_levels());
    assert_eq!(cycle.exposure, Some(200 * MS));
    assert_eq!(cycle.focus_aid.daylight_focus_zoom_region, Some(rect(305, 225, 30, 30)));
    engine.set_daylight_focus_point(at(0.0, 0.0));
    let bright = FocusLevels { bright_level: 251, ..focus_levels() };
    let cycle = focus_cycle(&engine, &exposure_input(0), 640, 480, &bright);
    assert_eq!(cycle.exposure, Some(10 * MS));
    assert_eq!(cycle.focus_aid.daylight_focus_zoom_region, Some(rect(88, 8, 30, 30)));
}

#[test]
fn a_point_outside_is_shown_at_the_edge() {
    let mut engine = DetectEngine::new();
    engine.set_daylight_mode(true);
    let zoom = |engine: &DetectEngine| {
        let cycle = focus_cycle(engine, &exposure_input(0), 640, 480, &focus_levels());
        cycle.focus_aid.daylight_focus_zoom_region.unwrap()
    };
    engine.set_daylight_focus_point(at(-50.5, -7.0));
    let left = zoom(&engine);
    engine.set_daylight_focus_point(at(0.0, 0.0));
    assert_eq!(left, zoom(&engine));
    engine.set_daylight_focus_point(at(100_000.0, 240.0));
    let right = zoom(&engine);
    engine.set_daylight_focus_point(at(639.0, 240.0));
    assert_eq!(right, zoom(&engine));
}

#[test]
fn levels_go_by_the_mode() {
    let level = |parts: u32| (parts / 4) as u8;
    let contrast = |parts: u32| (parts / 5) as u8;
    let place = at(1.0, 2.0);
    let night = measure_levels(false, &level, &contrast, 7, 8, place);
    assert_eq!((night.peak_level, night.background_level, night.bright_level), (249, 200, 225));
    assert_eq!((night.contrast_peak, night.contrast_background), (198, 120));
    assert_eq!((night.mean, night.peak_value, night.peak_position), (7, 8, place));
    let day = measure_levels(true, &level, &contrast, 7, 8, place);
    assert_eq!((day.peak_level, day.background_level, day.contrast_background), (249, 0, 2));
    assert_eq!(daylight_stretch(&level), (0, 249));
    assert_eq!(daylight_stretch(&|_: u32| 0), (0, 1));
}

#[test]
fn the_part_to_focus_by_is_prepared() {
    let mut image = GrayImage { width: 4, height: 3, pixels: (10..22).collect() };
    image.pixels[6] = 200;
    let none = FocusAid {
        center_peak_position: None,
        center_peak_value: None,
        peak_image_region: None,
        daylight_focus_zoom_region: None,
    };
    assert!(cut_focus_image(&image, &none, true).is_none());
    let peak = FocusAid { peak_image_region: Some(rect(1, 0, 2, 2)), ..none };
    let part = cut_focus_image(&image, &peak, false).unwrap();
    assert_eq!((part.width, part.height, part.pixels), (2, 2, vec![11, 12, 15, 200]));
    let mut part = cut_focus_image(&image, &peak, true).unwrap();
    assert_eq!(part.pixels, vec![0, 1, 0, 185]);
    stretch_focus_image(&mut part, (0, 185), &linear);
    assert_eq!(part.pixels, vec![0, 1, 0, 255]);
    // Rows are not normalized in daylight.
    let day = FocusAid { daylight_focus_zoom_region: Some(rect(0, 1, 2, 1)), ..none };
    assert_eq!(cut_focus_image(&image, &day, true).unwrap().pixels, vec![14, 15]);
}

#[test]
fn star_counts_are_not_limited() {
    let mut engine = DetectEngine::new();
    let many = usize::MAX;
    let average = update_star_count_moving_average(&mut engine, many);
    assert_eq!(average, many as u128 * ONE_STAR);
    assert_eq!(update_star_count_moving_average(&mut engine, many), average);
}

#[test]
fn regions_lie_in_the_image() {
    assert_eq!(roi_region(640, 480, 2, true), rect(112, 32, 416, 416));
    assert_eq!(contrast_region(640, 480), rect(290, 210, 60, 60));
    // Where binning leaves a single row, that row is the region.
    assert_eq!(roi_region(640, 33, 2, false).height, 1);
    assert_eq!(peak_region(0, 0, 640, 480, 1, false), Some(rect(0, 0, 8, 8)));
    assert_eq!(intersect(rect(0, 0, 5, 5), rect(5, 0, 5, 5)), None);
    assert_eq!(intersect(rect(0, 0, 5, 5), rect(4, 3, 5, 5)), Some(rect(4, 3, 1, 2)));
    assert_eq!(contrast_ratio(200, 0), 1000);
    assert_eq!(contrast_ratio(200, 200), 0);
}

#[test]
fn results_are_due() {
    assert_eq!(estimate_delay(Some(3), Some(2), Some(9)), Some(0));
    assert_eq!(estimate_delay(Some(3), Some(3), Some(9)), Some(9));
    assert_eq!(estimate_delay(None, None, None), None);
    assert_eq!(acquire_duration(5, Some(7)), 7);
    assert_eq!(acquire_duration(5, None), 5);
}

#[test]
fn frames_are_polled() {
    assert_eq!(poll_result(Some(1), None, true), Poll::Take);
    assert_eq!(poll_result(Some(1), Some(1), true), Poll::GiveUp);
    assert_eq!(poll_result(None, Some(1), false), Poll::Wait);
    assert_eq!(sleep_duration(Some(5 * MS)), 5 * MS);
    assert_eq!(sleep_duration(Some(3)), MS);
    assert_eq!(retry_delay(None, 10 * MS), 10 * MS);
    assert_eq!(remaining_interval(10, 4), Some(6));
    assert_eq!(remaining_interval(10, 11), None);
}

// --- Solving ---

#[test]
fn settings_are_checked() {
    let mut engine = SolveEngine::new();
    assert_eq!(engine.set_fov_estimate(Some(0)), Err(SettingError::FovNotPositive));
    assert_eq!(engine.set_fov_estimate(Some(10 * DEGREE)), Ok(()));
    assert_eq!(engine.set_distortion(200_000_001), Err(SettingError::DistortionOutOfRange));
    assert_eq!(engine.set_distortion(-200_000_000), Ok(()));
    assert_eq!(engine.set_match_max_error(-1), Err(SettingError::NegativeMaxError));
    assert_eq!(engine.set_match_max_error(0), Ok(()));
    assert_eq!(engine.set_minimum_stars(3), Err(SettingError::TooFewStars));
    assert_eq!(engine.set_minimum_stars(5), Ok(()));
    engine.set_solve_timeout(7);
    engine.set_boresight_pixel(Some(at(1.0, 2.0)));
    engine.slew_target = Some(sky(3, 4));
    let (extension, params) = engine.solve_arguments();
    assert_eq!(params.fov_estimate, Some((10 * DEGREE, DEGREE)));
    assert_eq!((params.match_radius, params.match_threshold), (Some(10_000_000), Some(10_000)));
    assert_eq!((params.solve_timeout, params.distortion), (Some(7), Some(-200_000_000)));
    assert_eq!(extension.target_pixel, Some(vec![at(1.0, 2.0)]));
    assert_eq!(extension.target_sky_coord, Some(vec![sky(3, 4)]));
    assert!(extension.return_matches && extension.return_catalog);
    assert!(!engine.should_solve(4) && engine.should_solve(5));
}

#[test]
fn failures_are_logged_once() {
    let mut engine = SolveEngine::new();
    let first = finish_cycle(&mut engine, 1, SolveEnd::Failed, 8);
    assert!(first.log_failure);
    assert_eq!((first.attempt_sample, first.success_sample), (Some(true), Some(false)));
    assert!(!finish_cycle(&mut engine, 2, SolveEnd::Failed, 8).log_failure);
    let good = finish_cycle(&mut engine, 3, SolveEnd::Solved, 8);
    assert_eq!((good.attempt_sample, good.success_sample), (Some(true), Some(true)));
    assert!(!finish_cycle(&mut engine, 4, SolveEnd::Failed, 7).log_failure);
    assert!(finish_cycle(&mut engine, 5, SolveEnd::Failed, 8).log_failure);
    let idle = finish_cycle(&mut engine, 6, SolveEnd::NotAttempted, 2);
    assert_eq!((idle.attempt_sample, idle.success_sample), (Some(false), None));
    assert_eq!(engine.frame_id, Some(6));
    engine.set_align_mode(true);
    let aligning = finish_cycle(&mut engine, 7, SolveEnd::Solved, 9);
    assert_eq!((aligning.attempt_sample, aligning.report), (None, false));
}

#[test]
fn slews_are_described() {
    let (slew, region) = handle_slew(
        sky(1, 2),
        5,
        300 * DEGREE,
        None,
        100 * DEGREE,
        &vec![at(330.0, 240.0)],
        None,
        640,
        480,
    );
    assert_eq!(slew.target_angle, 40 * DEGREE);
    assert_eq!(slew.image_pos, Some(at(330.0, 240.0)));
    // 10 pixels off is close, in an image that is 480 high.
    assert_eq!(region, Some(rect(280, 200, 80, 80)));
    let far = handle_slew(sky(1, 2), 5, 0, None, 0, &vec![at(350.0, 240.0)], None, 640, 480);
    assert_eq!(far.1, None);
    let outside = handle_slew(sky(1, 2), 5, 0, None, 0, &vec![at(-1.0, 240.0)], None, 640, 480);
    assert_eq!((outside.0.image_pos, outside.1), (None, None));
    let none = handle_slew(sky(1, 2), 5, 0, None, 0, &vec![], None, 640, 480);
    assert_eq!(none.0.image_pos, None);
}

#[test]
fn slews_can_be_shown_around_the_boresight() {
    let shown = |target: Vec<ImageCoord>, boresight| can_show_slew(&target, boresight, 640, 480);
    assert!(shown(vec![], Some(at(-500.0, 240.0))));
    assert!(shown(vec![at(330.0, 240.0)], None));
    // A boresight beyond the image matters only where the target is close to it.
    assert!(shown(vec![at(330.0, 240.0)], Some(at(800.0, 240.0))));
    assert!(!shown(vec![at(800.0, 240.0)], Some(at(800.0, 240.0))));
    assert!(shown(vec![at(645.0, 240.0)], Some(at(650.0, 240.0))));
    let slew = handle_slew(
        sky(1, 2),
        5,
        0,
        None,
        0,
        &vec![at(330.0, 240.0)],
        Some(at(800.0, 240.0)),
        640,
        480,
    );
    assert_eq!(slew.1, None);
    let edge = handle_slew(
        sky(1, 2),
        5,
        0,
        None,
        0,
        &vec![at(645.0, 240.0)],
        Some(at(650.0, 240.0)),
        640,
        480,
    );
    assert_eq!(edge.1, Some(rect(610, 200, 30, 80)));
}

#[test]
fn closeups_are_cut_and_scaled() {
    let image = GrayImage { width: 3, height: 2, pixels: vec![1, 2, 3, 4, 5, 60] };
    let mut part = cut_closeup(&image, rect(1, 0, 2, 2), false);
    assert_eq!(part.pixels, vec![2, 3, 5, 60]);
    assert_eq!(cut_closeup(&image, rect(1, 0, 2, 2), true).pixels, vec![0, 1, 0, 55]);
    scale_closeup(&mut part, 0, 10, &linear);
    assert_eq!(part.pixels, vec![7, 11, 19, 239]);
}

#[test]
fn catalog_objects_lie_in_the_image() {
    let entry = |x: f64, y: f64| FovCatalogEntry { magnitude: 1000, image_pos: at(x, y) };
    let selected = vec![
        SelectedEntry {
            entry: entry(1.0, 1.0),
            decrowded_entries: vec![entry(2.0, 2.0), entry(700.0, 2.0)],
        },
        SelectedEntry { entry: entry(-1.0, 1.0), decrowded_entries: vec![entry(3.0, 3.0)] },
    ];
    let (shown, culled) = fov_catalog_entries(&selected, 640, 480);
    assert_eq!(shown, vec![entry(1.0, 1.0)]);
    assert_eq!(culled, vec![entry(2.0, 2.0), entry(3.0, 3.0)]);
}

#[test]
fn slews_lead_to_objects() {
    let apart = |a: CelestialCoord, b: CelestialCoord| (a.dec - b.dec).abs();
    assert_eq!(plan_target_query(sky(1, 2)).max_distance, DEGREE / 60);
    let found = vec![sky(1, 3), sky(1, 4)];
    assert_eq!(
        get_catalog_entry_for_target(Some(&found), sky(1, 2), &apart),
        Some(CatalogTarget { index: 0, coord: sky(1, 3), distance: DEGREE })
    );
    assert_eq!(get_catalog_entry_for_target(Some(&vec![]), sky(1, 2), &apart), None);
    assert_eq!(get_catalog_entry_for_target(None, sky(1, 2), &apart), None);
}

fn chosen() -> CatalogEntryMatch {
    CatalogEntryMatch {
        faintest_magnitude: Some(9),
        match_catalog_label: true,
        catalog_label: vec!["M".to_string()],
        match_object_type_label: true,
        object_type_label: vec!["galaxy".to_string()],
    }
}

#[test]
fn aligning_looks_for_bright_stars() {
    let align = fov_catalog_match(chosen(), true);
    assert_eq!(align.faintest_magnitude, Some(4));
    assert_eq!(align.object_type_label, ["star", "double star", "nova star", "planet"]);
    let operate = fov_catalog_match(chosen(), false);
    assert_eq!(operate.faintest_magnitude, Some(9));
    assert!(!operate.match_catalog_label && !operate.match_object_type_label);
}

#[test]
fn queries_reach_the_farthest_corner() {
    let query = plan_fov_query(None, 600, 800, 6 * DEGREE);
    // Half of the diagonal is 500 pixels, of a hundredth of a degree each.
    assert_eq!(query.max_distance, 5 * DEGREE as i128);
    assert_eq!((query.decrowd_distance, query.limit_result), (6 * DEGREE / 15, 50));
    let corner = plan_fov_query(Some(at(0.0, 0.0)), 600, 800, 6 * DEGREE);
    assert_eq!(corner.max_distance, 10 * DEGREE as i128);
    let wide = plan_fov_query(None, u32::MAX, u32::MAX, 2 * DEGREE);
    assert_eq!(wide.max_distance, (2f64.sqrt() * DEGREE as f64) as i128);
}

fn solution() -> Solution {
    Solution {
        image_sky_coord: sky(10, 20),
        target_sky_coord: vec![],
        roll: 30 * DEGREE,
        catalog_stars: vec![CatalogStar { pixel: at(320.0, 240.0), magnitude: 6000 }],
    }
}

#[test]
fn solutions_are_posted() {
    let slew = SlewGeometry { target: sky(11, 21), distance: 7, position_angle: 0 };
    let apart = |a: CelestialCoord, b: CelestialCoord| (a.dec - b.dec).abs();
    let mut engine = SolveEngine::new();
    let posted = post_solution(
        &mut engine,
        Some(Attempt { finish_time: 1_700_000_000_000_000, solution: Some(solution()) }),
        &vec![at(320.0, 240.0)],
        Some(slew),
        Some(&vec![sky(11, 22), sky(11, 23)]),
        &apart,
        Some(at(5.0, 6.0)),
        None,
        640,
        480,
    );
    let request = posted.slew_request.unwrap();
    assert_eq!((request.target_angle, request.target_distance), (30 * DEGREE, 7));
    // The nearest object of the catalog goes along.
    let object = CatalogTarget { index: 0, coord: sky(11, 22), distance: DEGREE };
    assert_eq!(request.target_catalog_entry, Some(object));
    assert!(posted.boresight_image_region.is_some() && posted.fov_catalog_entries.is_none());
    assert_eq!(engine.slew_target, Some(sky(11, 21)));
    assert_eq!(engine.boresight_pixel, Some(at(5.0, 6.0)));
    let selected = Some(vec![]);
    let none = post_solution(
        &mut engine, None, &vec![], Some(slew), None, &apart, None, selected, 640, 480,
    );
    assert!(none.slew_request.is_none() && none.fov_catalog_entries.is_none());
    // The time is that of the attempt, whether it succeeded or not.
    assert_eq!(posted.solve_finish_time, Some(1_700_000_000_000_000));
    assert_eq!(none.solve_finish_time, None);
    let attempt = Some(Attempt { finish_time: 5, solution: None });
    let failed = post_solution(
        &mut engine, attempt, &vec![], Some(slew), None, &apart, None, None, 640, 480,
    );
    assert!(failed.solution.is_none() && failed.slew_request.is_none());
    assert_eq!(failed.solve_finish_time, Some(5));
    apply_callback(&mut engine, None, None);
    assert_eq!((engine.slew_target, engine.boresight_pixel), (None, Some(at(5.0, 6.0))));
}

#[test]
fn images_are_named() {
    let when = LocalDateTime {
        year: 2025,
        ordinal0: 0,
        month: 1,
        day: 2,
        hour: 3,
        minute: 4,
        second: 5,
        nanosecond: 0,
        offset_seconds: 0,
        unix_seconds: 0,
    };
    assert_eq!(image_file_name(100 * MS, &when), "img_100ms_20250102_030405.bmp");
    let named = |year: i32| image_file_name(100 * MS, &LocalDateTime { year, ..when });
    assert_eq!(named(0), "img_100ms_00000102_030405.bmp");
    assert_eq!(named(9999), "img_100ms_99990102_030405.bmp");
    assert_eq!(named(10_000), "img_100ms_+100000102_030405.bmp");
    assert_eq!(named(-1), "img_100ms_-00010102_030405.bmp");
}

// --- Serving ---

fn detection() -> DetectResult {
    DetectResult {
        frame_id: 7,
        width: 640,
        height: 480,
        exposure: 100 * MS,
        readout_time: 1_700_000_000_000_000_000,
        camera_binning: 1,
        is_color: true,
        daylight_mode: false,
        focus_aid: None,
        star_candidates: vec![StarCentroid {
            centroid_position: at(320.0, 240.0),
            brightness: 9000,
            num_saturated: 0,
        }],
        star_count_moving_average: 3 * ONE_STAR,
        hot_pixel_count: 12,
        noise_estimate: 2500,
        display_black_level: 100,
        peak_value: 200,
        has_binned_image: false,
    }
}

fn calibration_data() -> CalibrationData {
    CalibrationData {
        calibration_time: Some(1_600_000_000_000_000_000),
        camera_offset: Some(4),
        target_exposure_time: Some(90 * MS),
        fov_horizontal: Some(10 * DEGREE),
        lens_distortion: None,
        match_max_error: None,
        lens_fl: None,
        pixel_angular_size: None,
    }
}

fn gyro_transform() -> TransformCalibration {
    TransformCalibration {
        transform_error_fraction: 50_000_000,
        camera_view_gyro_axis: GyroAxis::PlusZ,
        camera_view_misalignment: DEGREE,
        camera_up_gyro_axis: GyroAxis::MinusX,
        camera_up_misalignment: 2 * DEGREE,
    }
}

fn context() -> ServeContext {
    ServeContext {
        operating_mode: OperatingMode::Operate,
        focus_assist_mode: true,
        daylight_mode: true,
        jpeg_quality: 95,
        calibration_data: calibration_data(),
        imu_calibration: Some(ImuCalibration {
            zero_bias: Some(ZeroBias { x: 1, y: 2, z: 3 }),
            transform_calibration: Some(gyro_transform()),
        }),
        hot_pixel_map: Some(HotPixelMap { is_ready: true, count: 17 }),
        mount_type: Some(MountType::Equatorial),
        landscape: true,
        detect_binning: 4,
        display_sampling: true,
        boresight_pixel: None,
        previous_rotator: ImageRotator::new(0, 0, TRIG_ONE),
    }
}

fn horizon() -> Horizon {
    Horizon {
        zenith_position_angle: 60 * DEGREE,
        altitude: 45 * DEGREE,
        azimuth: 180 * DEGREE,
        hour_angle: 0,
    }
}

fn outcome() -> PlateSolution {
    PlateSolution {
        solution: Some(solution()),
        solve_finish_time: Some(1_700_000_000_000_000),
        slew_request: Some(SlewRequest {
            target: sky(350, 25),
            target_distance: 5,
            target_angle: 10 * DEGREE,
            target_catalog_entry: None,
            image_pos: Some(at(320.0, 240.0)),
            offset_rotation_axis: None,
            offset_tilt_axis: None,
        }),
        boresight_image_region: Some(rect(1, 2, 3, 4)),
        fov_catalog_entries: Some(vec![FovCatalogEntry {
            magnitude: 5000,
            image_pos: at(320.0, 240.0),
        }]),
        decrowded_fov_catalog_entries: None,
    }
}

#[test]
fn displays_are_planned() {
    let plan = plan_display(&detection(), 1, 4, true);
    assert_eq!((plan.bins, plan.sample, plan.binning_factor), (2, true, 8));
    // Sampling dims points of light, and black stays below white.
    assert_eq!((plan.black_level, plan.peak_value, plan.gamma), (50, 50, 700));
}

#[test]
fn frames_are_turned_upright() {
    let frame = produce_serve_result(
        &detection(),
        &Some(outcome()),
        &context(),
        Some(horizon()),
        None,
        &trig,
        &scale,
    );
    assert_eq!(frame.image_rotator.angle, -90 * DEGREE);
    assert_eq!(frame.location_based_info.unwrap().zenith_roll_angle, 0);
    // The center stays the center, here of the central square.
    assert_eq!(frame.boresight_position, at(240.0, 240.0));
    assert_eq!(frame.star_candidates[0].centroid_position, at(240.0, 240.0));
    let slew = frame.slew_request.unwrap();
    assert_eq!(slew.image_pos, Some(at(240.0, 240.0)));
    assert_eq!(slew.target_angle, -80 * DEGREE);
    assert_eq!(slew.offset_rotation_axis, Some(-20 * DEGREE));
    assert_eq!(slew.offset_tilt_axis, Some(5 * DEGREE));
    assert_eq!(frame.image_rectangle, rect(80, 0, 480, 480));
    let mut engine = ServeEngine::new(context());
    engine.note_result(&detection(), &frame);
    assert_eq!((engine.frame_id, engine.image_rotator().angle), (Some(7), -90 * DEGREE));
    // Everything but the rotator is taken over from a new context.
    let other = ServeContext { jpeg_quality: 50, daylight_mode: false, ..context() };
    engine.update_context(other);
    assert_eq!(engine.image_rotator().angle, -90 * DEGREE);
    assert_eq!((engine.context.jpeg_quality, engine.context.daylight_mode), (50, false));
    engine.update_render_params(false, 80);
    engine.update_operation_settings(OperatingMode::Setup, true, false);
    engine.update_preferences(None);
    assert_eq!((engine.context.jpeg_quality, engine.context.mount_type), (80, None));
    assert_eq!(engine.center_peak_position(), None);
    let modes = engine.context;
    assert!(polls_detector(modes.operating_mode, modes.focus_assist_mode, modes.daylight_mode));
}

#[test]
fn an_engine_starts_with_its_context() {
    let engine = ServeEngine::new(context());
    assert_eq!((engine.context.jpeg_quality, engine.frame_id), (95, None));
    assert!(engine.context.focus_assist_mode && engine.context.daylight_mode);
    assert_eq!(engine.image_rotator(), ImageRotator::new(0, 0, TRIG_ONE));
}

#[test]
fn frames_hand_on_what_was_measured() {
    let make = |outcome: &Option<PlateSolution>, context: &ServeContext| {
        produce_serve_result(&detection(), outcome, context, Some(horizon()), None, &trig, &scale)
    };
    let frame = make(&Some(outcome()), &context());
    assert_eq!((frame.exposure_time, frame.capture_time), (100 * MS, 1_700_000_000_000_000_000));
    assert_eq!((frame.noise_estimate, frame.hot_pixel_count), (2500, Some(12)));
    assert_eq!(frame.star_count_moving_average, 3 * ONE_STAR);
    assert_eq!((frame.operating_mode, frame.jpeg_quality), (OperatingMode::Operate, 95));
    assert!(frame.focus_assist_mode && !frame.daylight_mode);
    assert_eq!(frame.calibration_data, calibration_data());
    assert_eq!(frame.gyro_zero_bias, Some(ZeroBias { x: 1, y: 2, z: 3 }));
    assert_eq!(frame.gyro_transform, Some(gyro_transform()));
    assert_eq!(frame.hot_pixel_map_count, Some(17));
    let carried = frame.plate_solution.unwrap();
    assert_eq!((carried.roll, carried.image_sky_coord), (30 * DEGREE, sky(10, 20)));
    assert_eq!(carried.catalog_stars, solution().catalog_stars);
    let bare = ServeContext {
        imu_calibration: None,
        hot_pixel_map: Some(HotPixelMap { is_ready: false, count: 17 }),
        ..context()
    };
    let frame = make(&None, &bare);
    assert!(frame.gyro_zero_bias.is_none() && frame.gyro_transform.is_none());
    assert!(frame.hot_pixel_map_count.is_none() && frame.plate_solution.is_none());
}

#[test]
fn mounts_turn_about_their_axes() {
    let slew = outcome().slew_request.unwrap();
    let offsets = add_offsets(
        slew,
        sky(10, 20),
        Some(MountType::AltAz),
        Some(horizon()),
        Some((50 * DEGREE, 170 * DEGREE)),
    );
    assert_eq!(offsets.offset_rotation_axis, Some(-10 * DEGREE));
    assert_eq!(offsets.offset_tilt_axis, Some(5 * DEGREE));
    let unknown = add_offsets(slew, sky(10, 20), Some(MountType::AltAz), None, None);
    assert_eq!(unknown.offset_rotation_axis, None);
    assert_eq!(boresight_coords(&solution()), sky(10, 20));
}

#[test]
fn hot_pixels_are_repaired() {
    let mut image = GrayImage { width: 3, height: 3, pixels: vec![10; 9] };
    image.pixels[4] = 255;
    fix_hot_pixel(&mut image, 1, 1);
    assert_eq!(image.pixels, vec![10; 9]);
    let mut image = GrayImage { width: 3, height: 3, pixels: vec![10; 9] };
    image.pixels[4] = 255;
    let upright = ImageRotator::new(0, 0, TRIG_ONE);
    repair_hot_pixels(&mut image, &vec![at(1.0, 1.0)], &upright, 1, 3, 3);
    assert_eq!(image.pixels, vec![10; 9]);
}

fn frame_context() -> FrameContext {
    FrameContext {
        operating_mode: OperatingMode::Setup,
        focus_assist_mode: false,
        mount_type: None,
        landscape: false,
        detect_binning: 2,
        display_sampling: false,
        boresight_pixel: None,
        previous_rotator: None,
        calibration_data: calibration_data(),
    }
}

#[test]
fn next_frames_are_turned_upright() {
    let frame = get_next_frame(
        &detection(),
        &Some(outcome()),
        &frame_context(),
        Some(horizon()),
        None,
        &trig,
        &scale,
    );
    // The zenith is to the right, as the display is higher than wide: nothing has to be turned.
    assert_eq!(frame.image_rotator.unwrap().angle, 0);
    assert_eq!(frame.location_based_info.unwrap().zenith_roll_angle, 90 * DEGREE);
    assert_eq!(frame.plate_solution.unwrap().roll, 30 * DEGREE);
    assert_eq!((frame.exposure_time, frame.capture_time), (100 * MS, 1_700_000_000_000_000_000));
    assert_eq!((frame.noise_estimate, frame.calibration_data), (2500, calibration_data()));
    assert_eq!(frame.display.binning_factor, 2);
    assert_eq!(frame.image_rectangle, rect(0, 0, 640, 480));
    let closeup = frame.boresight_image.unwrap();
    assert_eq!((closeup.rectangle, closeup.binning_factor), (rect(1, 2, 3, 4), 2));
    // The catalog star and the labeled object are at one place.
    assert_eq!(frame.star_candidates.len(), 1);
    assert_eq!(frame.star_candidates[0].brightness, 1000);
}

#[test]
fn requests_for_frames_are_read() {
    let options = frame_options(None, None);
    assert!(options.landscape && !options.non_blocking);
    assert!(!frame_options(Some(true), Some(DisplayOrientation::Portrait)).landscape);
    assert_eq!(has_result(true, false), Some(false));
    assert_eq!(has_result(true, true), Some(true));
    assert_eq!(has_result(false, true), None);
}

#[test]
fn next_frames_keep_still_while_focusing() {
    let aid = FocusAid {
        center_peak_position: Some(at(3.0, 4.0)),
        center_peak_value: Some(99),
        peak_image_region: Some(rect(0, 0, 8, 8)),
        daylight_focus_zoom_region: None,
    };
    let detection = DetectResult { focus_aid: Some(aid), ..detection() };
    let turned = ImageRotator::new(90 * DEGREE, TRIG_ONE, 0);
    let context = FrameContext {
        focus_assist_mode: true,
        previous_rotator: Some(turned),
        ..frame_context()
    };
    let frame = get_next_frame(&detection, &None, &context, None, None, &trig, &scale);
    assert!(frame.image_rotator.is_none());
    assert_eq!(frame.retained_rotator, Some(turned));
    assert_eq!(frame.center_peak_position, Some(at(3.0, 4.0)));
    assert_eq!(frame.boresight_position, at(320.0, 240.0));
    assert_eq!(frame.star_candidates, detection.star_candidates);
    assert!(is_from_detector(OperatingMode::Setup, true));
    assert!(!is_from_detector(OperatingMode::Operate, true));
    assert_eq!(repeated_rectangle(320, 240, 2), rect(0, 0, 640, 480));
}

// --- Calibrating ---

#[test]
fn frames_tell_of_a_calibration() {
    let saved = SavedImage { frame_id: 8, width: 320, height: 240, binning_factor: 2 };
    let frame = calibrating_frame(1500 * MS, 6000 * MS, Some(saved), true);
    assert!(frame.calibrating && frame.with_settings);
    assert_eq!((frame.progress, frame.has_result), (250_000, Some(true)));
    let image = frame.image.unwrap();
    assert_eq!((image.frame_id, image.binning_factor), (8, 2));
    assert_eq!(image.rectangle, rect(0, 0, 640, 480));
    // It can take longer than estimated, and there may be no image yet.
    let frame = calibrating_frame(7000 * MS, 6000 * MS, None, false);
    assert_eq!((frame.progress, frame.has_result, frame.image), (1_000_000, None, None));
    assert!(frame.calibrating && !frame.with_settings);
}

#[test]
fn a_calibrating_server_answers_at_once() {
    let saved = Some(SavedImage { frame_id: 8, width: 320, height: 240, binning_factor: 2 });
    let run = CalibrationUnderWay { elapsed: 1500 * MS, estimate: 6000 * MS };
    for (posted, prev, non_blocking) in
        [(None, None, false), (Some(8), Some(8), false), (Some(9), Some(8), true)]
    {
        let frame = calibrating_frame(1500 * MS, 6000 * MS, saved, non_blocking);
        let reply = answer_frame_request(Some(run), saved, posted, prev, non_blocking);
        assert_eq!(reply, FrameReply::Calibrating(frame));
    }
    let answer = |posted, prev, non_blocking| {
        answer_frame_request(None, saved, posted, prev, non_blocking)
    };
    assert_eq!(answer(Some(9), Some(8), false), FrameReply::Live { has_result: None });
    assert_eq!(answer(Some(9), None, true), FrameReply::Live { has_result: Some(true) });
    assert_eq!(answer(Some(8), Some(8), true), FrameReply::NoFrame);
    assert_eq!(answer(Some(8), Some(8), false), FrameReply::Wait);
    assert_eq!(answer(None, None, false), FrameReply::Wait);
}

#[test]
fn offsets_avoid_black() {
    let mut image = GrayImage { width: 100, height: 100, pixels: vec![3; 10_000] };
    assert_eq!(count_zero_pixels(&image), 0);
    assert_eq!(begin_offset(true), OffsetStep::Aborted);
    assert_eq!(begin_offset(false), OffsetStep::Try(0));
    assert_eq!(calibrate_offset(4, &image, 100, 100, false), OffsetStep::Found(5));
    assert_eq!(calibrate_offset(20, &image, 100, 100, false), OffsetStep::Found(20));
    // The camera is left at the offset that was found.
    assert_eq!(offset_to_set(OffsetStep::Try(4)), Some(4));
    assert_eq!(offset_to_set(OffsetStep::Found(5)), Some(5));
    assert_eq!(offset_to_set(OffsetStep::Failed), None);
    assert_eq!(offset_to_set(OffsetStep::Aborted), None);
    image.pixels[0..10].fill(0);
    assert_eq!(count_zero_pixels(&image), 10);
    assert_eq!(calibrate_offset(4, &image, 100, 100, false), OffsetStep::Try(5));
    assert_eq!(calibrate_offset(4, &image, 100, 100, true), OffsetStep::Aborted);
    assert_eq!(judge_offset(20, 10, 10_000, false), OffsetStep::Failed);
    assert_eq!(judge_capture(None), CaptureStep::Wait);
    assert_eq!(judge_capture(Some(false)), CaptureStep::Skip);
    assert_eq!(judge_capture(Some(true)), CaptureStep::Take);
}

fn trial(round: u32, stars: u32) -> ExposureTrial {
    ExposureTrial {
        round,
        exposure: 100 * MS,
        stars,
        mean: 10_000,
        star_count_goal: 20,
        max_exposure: 1000 * MS,
    }
}

#[test]
fn exposures_are_calibrated() {
    let step = |trial: ExposureTrial| calibrate_exposure_duration(&trial, false);
    assert_eq!(begin_exposure(5, false), ExposureStep::Again(5));
    assert_eq!(
        begin_exposure(5, true),
        ExposureStep::Failed(ExposureCalibrationError::Aborted)
    );
    assert_eq!(step(trial(1, 20)), ExposureStep::Found(100 * MS));
    assert_eq!(step(trial(1, 10)), ExposureStep::Again(200 * MS));
    assert_eq!(step(trial(1, 0)), ExposureStep::Again(1000 * MS));
    assert_eq!(step(trial(3, 50)), ExposureStep::Found(40 * MS));
    let bright = ExposureTrial { mean: 193_000, ..trial(1, 10) };
    assert_eq!(step(bright), ExposureStep::Failed(ExposureCalibrationError::BrightSky));
    let long = ExposureTrial { exposure: 1000 * MS, ..trial(2, 10) };
    assert_eq!(step(long), ExposureStep::Failed(ExposureCalibrationError::TooFewStars));
    let first = ExposureTrial { round: 1, ..long };
    assert_eq!(step(first), ExposureStep::Again(1000 * MS));
    assert_eq!(
        calibrate_exposure_duration(&trial(2, 10), true),
        ExposureStep::Failed(ExposureCalibrationError::Aborted)
    );
}

#[test]
fn optics_are_calibrated() {
    let first = OpticalSolution { fov: 10 * DEGREE, distortion: 5, p90_error: 36_000_000 };
    assert_eq!(first_solve_params().match_max_error, Some(5_000_000));
    let params = second_solve_params(Ok(first), false).unwrap();
    assert_eq!(params.fov_estimate, Some((10 * DEGREE, DEGREE)));
    // 36 arc seconds are a thousandth of ten degrees.
    assert_eq!(params.match_max_error, Some(2_000_000));
    assert_eq!(second_solve_params(Ok(first), true), Err(CanonicalErrorCode::Aborted));
    assert_eq!(
        second_solve_params(Err(CanonicalErrorCode::NotFound), false),
        Err(CanonicalErrorCode::NotFound)
    );
    let done = finish_optical(first, Ok(9)).unwrap();
    assert_eq!((done.fov, done.match_max_error, done.solve_duration), (10 * DEGREE, 2_000_000, 9));
    assert_eq!(
        finish_optical(first, Err(CanonicalErrorCode::NotFound)),
        Err(CanonicalErrorCode::Internal)
    );
}
