//! The server's decisions: settings, calibration, clients and starting up.

use cedar_server::astro_util::ImageCoord;
use cedar_server::calibration::{
    after_exposure, after_offset, after_optical, begin_calibration, calibration_progress,
    finish_calibration, plan_operate, tonic_status, CalibrationData, CanonicalErrorCode, NewModes,
    Optics, SolverSettings, StepEnd,
};
use cedar_server::cedar::{
    normalize_angle, relative_angle, remainder_angle, CelestialCoord, FeatureLevel, LatLong,
    MountType, OperatingMode, SearchOrder, SlewRequest,
};
use cedar_server::cedar_server::{
    action_refusal_message, capture_boresight, designate_boresight, initiate_slew, is_clock_close,
    plan_actions, plan_catalog_query, plan_fixed_settings, refusal_code, refusal_message,
    search_order, solution_callback, ActionRefusal, ActionRequest, ActionStep, FixedRefusal,
    FixedStep, Observed,
};
use cedar_server::image_utils::{ImageRotator, TRIG_ONE};
use cedar_server::multiplex::{is_grpc_request, MultiplexService, Service};
use cedar_server::operation_settings::{
    compute_binning, next_stage, plan_new_camera, update_operation_settings, Action, Progress,
    Refusal, RequestedMode, SettingsRequest, SettingsState, Stage,
};
use cedar_server::position_reporter::TelescopePosition;
use cedar_server::preferences::{CatalogEntryMatch, Interval, Preferences};
use cedar_server::solve_engine::{SettingError, SolveEngine};
use cedar_server::startup::{
    check_binning, described_camera, feature_level, find_most_recent_file, get_camera, is_demo_image,
    log_bytes_to_read, needs_row_normalization, parse_camera_interface, parse_os_version,
    plan_startup, prepare_preferences, trim_log_tail, CameraChoice, CameraInterface,
    InvalidArgument,
};

const DEGREE: i64 = 3_600_000_000;

fn pixel(x: i64, y: i64) -> ImageCoord {
    ImageCoord { x: x * 1_000_000, y: y * 1_000_000 }
}

fn nanos(nanos: i32) -> Interval {
    Interval { seconds: 0, nanos }
}

// --- Settings ---

fn setup() -> SettingsState {
    SettingsState {
        operating_mode: OperatingMode::Setup,
        focus_assist_mode: true,
        daylight_mode: false,
        calibrating: false,
        update_interval: nanos(5),
    }
}

fn request() -> SettingsRequest {
    SettingsRequest {
        operating_mode: None,
        focus_assist_mode: None,
        daylight_mode: None,
        update_interval: None,
        dwell_update_interval: false,
        log_dwelled_positions: false,
        catalog_entry_match: false,
        demo_image_is_empty: None,
        invert_camera: None,
    }
}

/// What a request ends with where nothing fails, and all that is done for it.
fn run(
    state: SettingsState,
    request: SettingsRequest,
    has_cedar_sky: bool,
) -> (Result<SettingsState, Refusal>, Vec<Action>) {
    let (mut stage, mut state, mut request) = (Some(Stage::Mode), state, request);
    let mut done = vec![];
    loop {
        match update_operation_settings(stage, state, request, has_cedar_sky) {
            Progress::Perform { stage: at, plan } => {
                done.extend(plan.actions);
                (stage, state, request) = (next_stage(at), plan.state, plan.request);
            }
            Progress::Refused { refusal, .. } => return (Err(refusal), done),
            Progress::Finished { state } => return (Ok(state), done),
        }
    }
}

#[test]
fn empty_requests_change_nothing() {
    assert_eq!(run(setup(), request(), true), (Ok(setup()), vec![]));
}

#[test]
fn operating_takes_a_calibration() {
    let operate = SettingsRequest { operating_mode: Some(RequestedMode::Operate), ..request() };
    let spawn =
        Action::SpawnCalibration { operate_mode: true, focus_mode: false, daylight_mode: false };
    assert_eq!(run(setup(), operate, true), (Ok(setup()), vec![spawn]));
    let aligning = SettingsState { focus_assist_mode: false, ..setup() };
    let (state, done) = run(aligning, operate, true);
    assert_eq!(state.unwrap().operating_mode, OperatingMode::Operate);
    assert_eq!(
        done,
        vec![
            Action::SetGain { daylight_mode: false },
            Action::SetDaylightMode(false),
            Action::SetAlignMode(false),
            Action::StartSolver,
            Action::SetUpdateInterval(nanos(5)),
        ]
    );
    let calibrating = SettingsState { calibrating: true, ..setup() };
    assert_eq!(run(calibrating, operate, true), (Err(Refusal::ModeWhileCalibrating), vec![]));
    let unknown = SettingsRequest { operating_mode: Some(RequestedMode::Invalid(7)), ..request() };
    assert_eq!(run(setup(), unknown, true).0, Err(Refusal::InvalidMode(7)));
}

#[test]
fn setting_up_runs_at_full_speed() {
    let operating = SettingsState { operating_mode: OperatingMode::Operate, ..setup() };
    let wanted = SettingsRequest {
        operating_mode: Some(RequestedMode::Setup),
        daylight_mode: Some(true),
        ..request()
    };
    let (state, done) = run(operating, wanted, true);
    assert_eq!(state, Ok(SettingsState { daylight_mode: true, ..setup() }));
    assert_eq!(done.len(), 10);
    assert_eq!(done[0], Action::SetGain { daylight_mode: true });
    assert_eq!(done[1], Action::SetUpdateInterval(nanos(0)));
    assert_eq!(done[9], Action::StopSlew);
}

#[test]
fn submodes_change() {
    let aligning = SettingsState { focus_assist_mode: false, daylight_mode: true, ..setup() };
    let dark = SettingsRequest { daylight_mode: Some(false), ..request() };
    let spawn =
        Action::SpawnCalibration { operate_mode: false, focus_mode: false, daylight_mode: false };
    assert_eq!(run(aligning, dark, true), (Ok(aligning), vec![spawn]));
    let bright = SettingsRequest { daylight_mode: Some(true), ..request() };
    assert_eq!(
        run(setup(), bright, true).1,
        vec![Action::SetGain { daylight_mode: true }, Action::SetDaylightMode(true)]
    );
    let sharp = SettingsRequest { focus_assist_mode: Some(false), ..request() };
    assert_eq!(run(setup(), sharp, true), (Ok(setup()), vec![spawn]));
    let daylight = SettingsState { daylight_mode: true, ..setup() };
    assert_eq!(run(daylight, sharp, true).1, vec![Action::SetFocusMode(false)]);
    let calibrating = SettingsState { calibrating: true, ..setup() };
    assert_eq!(run(calibrating, sharp, true).0, Err(Refusal::FocusWhileCalibrating));
    assert_eq!(run(calibrating, bright, true).0, Err(Refusal::DaylightWhileCalibrating));
}

#[test]
fn other_settings_change() {
    let slower = SettingsRequest { update_interval: Some(nanos(9)), ..request() };
    let (state, done) = run(setup(), slower, true);
    assert_eq!(state.unwrap().update_interval, nanos(9));
    assert_eq!(done, vec![Action::SaveUpdateInterval(nanos(9))]);
    let negative = SettingsRequest { update_interval: Some(nanos(-1)), ..request() };
    assert_eq!(run(setup(), negative, true).0, Err(Refusal::NegativeInterval(nanos(-1))));
    let dwell = SettingsRequest { dwell_update_interval: true, ..request() };
    assert_eq!(run(setup(), dwell, true).0, Err(Refusal::DwellIntervalUnimplemented));
    let log = SettingsRequest { log_dwelled_positions: true, ..request() };
    assert_eq!(run(setup(), log, true).0, Err(Refusal::LogDwelledUnimplemented));
    let sky = SettingsRequest { catalog_entry_match: true, ..request() };
    assert_eq!(run(setup(), sky, false).0, Err(Refusal::NoCedarSky));
    assert_eq!(
        run(setup(), sky, true).1,
        vec![Action::SetCatalogEntryMatch, Action::SaveCatalogEntryMatch]
    );
    let demo = SettingsRequest {
        demo_image_is_empty: Some(false),
        invert_camera: Some(true),
        ..request()
    };
    assert_eq!(
        run(setup(), demo, true).1,
        vec![Action::OpenDemoImage, Action::SetInverted(true)]
    );
}

#[test]
fn cameras_are_binned() {
    assert_eq!(compute_binning(1000, 750, None, None), (1, false));
    assert_eq!(compute_binning(1280, 960, None, None), (2, false));
    assert_eq!(compute_binning(4000, 3000, None, None), (4, false));
    assert_eq!(compute_binning(4056, 3040, None, None), (4, true));
    assert_eq!(compute_binning(4056, 3040, Some(1), Some(false)), (1, false));
    let actions = plan_new_camera(setup(), 1280, 960, None, None, Some(pixel(1270, 100)));
    assert_eq!(
        actions,
        vec![
            Action::SetUpdateInterval(nanos(0)),
            Action::SetBinning { binning: 2, display_sampling: false },
            Action::ReplaceCamera,
            Action::ForgetBoresight,
        ]
    );
    assert_eq!(plan_new_camera(setup(), 1280, 960, None, None, Some(pixel(16, 16))).len(), 3);
}

#[test]
fn refusals_are_worded() {
    let message = |refusal: Refusal| refusal_message(refusal, "Cedar-Box", "-1s");
    assert_eq!(message(Refusal::InvalidMode(-7)), "Got invalid operating_mode: -7.");
    assert_eq!(message(Refusal::NegativeInterval(nanos(-1))), "Got negative update_interval: -1s.");
    assert_eq!(message(Refusal::NoCedarSky), "Cedar-Box does not include Cedar Sky.");
    assert_eq!(
        message(Refusal::ModeWhileCalibrating),
        "Cannot change operating mode while calibrating"
    );
    assert_eq!(refusal_code(Refusal::NoCedarSky), CanonicalErrorCode::Unimplemented);
    assert_eq!(refusal_code(Refusal::InvalidMode(1)), CanonicalErrorCode::InvalidArgument);
    assert_eq!(
        action_refusal_message(ActionRefusal::NoWifi, "Cedar-Box"),
        (
            CanonicalErrorCode::Unimplemented,
            "Cedar-Box does not include WiFi control.".to_string()
        )
    );
    assert_eq!(tonic_status(CanonicalErrorCode::Aborted), 10);
    assert_eq!(tonic_status(CanonicalErrorCode::Unauthenticated), 16);
}

// --- Calibration ---

#[test]
fn calibrations_begin_and_end() {
    let mut state = setup();
    let mut data = nothing_found();
    assert_eq!(
        begin_calibration(&mut state, &mut data, 1_000_000_000, 77),
        Some((Action::SetGain { daylight_mode: false }, 6_000_000_000))
    );
    // The time of one that is under way stays.
    assert!(state.calibrating && begin_calibration(&mut state, &mut data, 0, 78).is_none());
    assert_eq!(data, CalibrationData { calibration_time: Some(77), ..nothing_found() });
    assert_eq!(calibration_progress(3, 12), 250_000);
    assert_eq!(calibration_progress(13, 12), 1_000_000);
    let modes = NewModes { operate_mode: true, focus_mode: false, daylight_mode: false };
    let mut cancelled = state;
    let (actions, operate) = finish_calibration(&mut cancelled, true, true, modes);
    assert_eq!((cancelled, operate, actions[0]), (setup(), false, Action::ClearCancel));
    let (actions, operate) = finish_calibration(&mut state, false, true, modes);
    assert!(operate && !state.calibrating && !state.focus_assist_mode);
    assert_eq!(actions.len(), 3);
    let (actions, after) = plan_operate(state);
    assert_eq!(after.operating_mode, OperatingMode::Operate);
    assert_eq!(actions[4], Action::SetUpdateInterval(nanos(5)));
}

fn nothing_found() -> CalibrationData {
    CalibrationData {
        calibration_time: None,
        camera_offset: None,
        target_exposure_time: None,
        fov_horizontal: None,
        lens_distortion: None,
        match_max_error: None,
        lens_fl: None,
        pixel_angular_size: None,
    }
}

#[test]
fn calibrations_go_step_by_step() {
    let mut data = nothing_found();
    let aborted = CanonicalErrorCode::Aborted;
    assert_eq!(after_offset(&mut data, Err(aborted)), StepEnd::Aborted);
    assert_eq!(data, nothing_found());
    assert_eq!(after_offset(&mut data, Err(CanonicalErrorCode::Unimplemented)), StepEnd::GoOn);
    assert_eq!(data.camera_offset, Some(3));
    assert_eq!(after_exposure(&mut data, Err(CanonicalErrorCode::Internal)), StepEnd::Failed);
    assert_eq!(after_exposure(&mut data, Ok(7)), StepEnd::GoOn);
    let optics = Optics {
        fov: 10 * DEGREE,
        distortion: 1,
        match_max_error: 2_000_000,
        solve_duration: 70_000_000,
        lens_fl: 25_000_000,
        pixel_angular_size: 30,
    };
    let (settings, end) = after_optical(&mut data, Ok(optics));
    assert_eq!((settings.solve_timeout, end), (700_000_000, StepEnd::GoOn));
    assert_eq!(data.fov_horizontal, Some(10 * DEGREE));
    let quick = Optics { solve_duration: 1, ..optics };
    assert_eq!(after_optical(&mut data, Ok(quick)).0.solve_timeout, 500_000_000);
    let slow = Optics { solve_duration: u64::MAX, ..optics };
    assert_eq!(after_optical(&mut data, Ok(slow)).0.solve_timeout, 1_000_000_000);
    let mut engine = SolveEngine::new();
    assert_eq!(engine.configure(&settings), Ok(()));
    assert_eq!((engine.fov_estimate, engine.solve_timeout), (Some(10 * DEGREE), 700_000_000));
    let curved = SolverSettings { fov_estimate: None, distortion: 300_000_000, ..settings };
    assert_eq!(engine.configure(&curved), Err(SettingError::DistortionOutOfRange));
    assert_eq!((engine.fov_estimate, engine.distortion), (None, 1));
    let (settings, end) = after_optical(&mut data, Err(aborted));
    assert_eq!((settings.match_max_error, end), (5_000_000, StepEnd::Aborted));
    assert_eq!((data.fov_horizontal, data.camera_offset), (None, Some(3)));
}

// --- Clients ---

#[test]
fn fixed_settings_are_planned() {
    assert_eq!(
        plan_fixed_settings(true, true, false, true),
        (
            vec![FixedStep::SetObserverLocation, FixedStep::SetClock],
            Some(FixedRefusal::MaxExposureTime)
        )
    );
    assert_eq!(
        plan_fixed_settings(false, false, true, true),
        (vec![], Some(FixedRefusal::SessionName))
    );
    assert!(is_clock_close(100, 41) && !is_clock_close(100, 40));
    assert!(!is_clock_close(i64::MIN, i64::MAX));
}

fn slew(image_pos: Option<ImageCoord>) -> SlewRequest {
    SlewRequest {
        target: CelestialCoord { ra: 1, dec: 2 },
        target_distance: 3,
        target_angle: 4,
        target_catalog_entry: None,
        image_pos,
        offset_rotation_axis: None,
        offset_tilt_axis: None,
    }
}

#[test]
fn actions_are_planned() {
    let nothing = ActionRequest {
        cancel_calibration: false,
        capture_boresight: false,
        designate_boresight: false,
        shutdown_server: false,
        restart_server: false,
        initiate_slew: false,
        stop_slew: false,
        save_image: false,
        update_wifi_access_point: false,
    };
    assert!(plan_actions(nothing).is_empty());
    let both = ActionRequest { stop_slew: true, cancel_calibration: true, ..nothing };
    assert_eq!(plan_actions(both), vec![ActionStep::CancelCalibration, ActionStep::StopSlew]);
    let here = Some(pixel(3, 4));
    assert_eq!(
        capture_boresight(OperatingMode::Setup, Some(slew(here))),
        Err(ActionRefusal::CaptureInSetup)
    );
    assert_eq!(
        capture_boresight(OperatingMode::Operate, None),
        Err(ActionRefusal::NoSlewActive)
    );
    assert_eq!(capture_boresight(OperatingMode::Operate, Some(slew(here))), Ok(pixel(3, 4)));
    let around = Some(ImageRotator::new(180 * DEGREE, 0, -TRIG_ONE));
    assert_eq!(designate_boresight(pixel(10, 20), true, false, around, 100, 60), pixel(10, 20));
    assert_eq!(designate_boresight(pixel(10, 20), false, false, around, 100, 60), pixel(70, 40));
}

#[test]
fn slews_need_to_know_where() {
    let mut position = TelescopePosition::new();
    let target = CelestialCoord { ra: 5, dec: 6 };
    assert_eq!(
        initiate_slew(&mut position, target, Some(MountType::AltAz), false),
        Err(ActionRefusal::NeedObserverLocation)
    );
    assert!(!position.slew_active);
    assert_eq!(initiate_slew(&mut position, target, Some(MountType::Equatorial), false), Ok(()));
    assert_eq!((position.slew_target_ra, position.slew_active), (5, true));
}

#[test]
fn searches_are_sorted() {
    assert_eq!(search_order(Some(3)), SearchOrder::Elevation);
    assert_eq!(search_order(None), SearchOrder::Brightness);
    assert_eq!(
        plan_catalog_query(false, None, None, None, None),
        Err(ActionRefusal::NoCedarSky)
    );
    let query = plan_catalog_query(true, Some(2), Some(8), None, None).unwrap();
    assert_eq!((query.order, query.limit), (SearchOrder::SkyLocation, Some(8)));
}

#[test]
fn reports_are_consumed() {
    let mut position = TelescopePosition::new();
    position.site_latitude = Some(1);
    position.site_longitude = Some(2);
    position.sync_ra = Some(3);
    position.sync_dec = Some(4);
    position.slew_active = true;
    let mut observed = Observed {
        preferred_boresight: None,
        preferred_location: None,
        observer_location: None,
        position,
    };
    let none = solution_callback(&mut observed, None, None);
    assert_eq!((none.sync_coord, none.save_preferences), (None, false));
    assert!(none.slew_target.is_some() && !observed.position.boresight_valid);
    let here = CelestialCoord { ra: 7, dec: 8 };
    let first = solution_callback(&mut observed, Some(pixel(5, 5)), Some(here));
    assert_eq!(first.sync_coord, Some(CelestialCoord { ra: 3, dec: 4 }));
    assert!(first.save_preferences);
    assert_eq!(observed.observer_location, Some(LatLong { latitude: 1, longitude: 2 }));
    assert_eq!(observed.preferred_boresight, Some(pixel(5, 5)));
    assert_eq!((observed.position.boresight_ra, observed.position.boresight_valid), (7, true));
    let second = solution_callback(&mut observed, Some(pixel(5, 5)), Some(here));
    assert_eq!((second.sync_coord, second.save_preferences), (None, false));
}

#[test]
fn angles_are_kept_in_range() {
    assert_eq!(normalize_angle(-DEGREE), 359 * DEGREE);
    assert_eq!(remainder_angle(-361 * DEGREE), -DEGREE);
    assert_eq!(relative_angle(350 * DEGREE, 10 * DEGREE), -20 * DEGREE);
    assert_eq!(relative_angle(10 * DEGREE, 350 * DEGREE), 20 * DEGREE);
}

#[test]
fn services_share_a_port() {
    let mut services = MultiplexService::new();
    assert_eq!(services.next_to_poll(), Some(Service::Rest));
    services.set_ready(Service::Rest);
    assert_eq!(services.next_to_poll(), Some(Service::Grpc));
    services.set_ready(Service::Grpc);
    assert_eq!(services.next_to_poll(), None);
    assert!(is_grpc_request(Some(b"application/grpc-web+proto")));
    assert!(!is_grpc_request(Some(b"text/html")) && !is_grpc_request(None));
    assert_eq!(services.dispatch(true), Service::Grpc);
    assert_eq!(services.next_to_poll(), Some(Service::Grpc));
}

// --- Starting up ---

#[test]
fn arguments_are_checked() {
    assert_eq!(parse_camera_interface(""), Ok(None));
    assert_eq!(parse_camera_interface("rpi"), Ok(Some(CameraInterface::Rpi)));
    assert_eq!(parse_camera_interface("usb"), Err(InvalidArgument));
    assert_eq!(check_binning(Some(4)), Ok(Some(4)));
    assert_eq!(check_binning(Some(3)), Err(InvalidArgument));
}

#[test]
fn products_differ() {
    assert_eq!(feature_level("CEDAR-box", Some("imx296")), FeatureLevel::Diy);
    assert_eq!(feature_level("Hopper", Some("imx296")), FeatureLevel::Plus);
    assert_eq!(feature_level("Hopper", Some("imx477")), FeatureLevel::Basic);
    assert_eq!(feature_level("Hopper", None), FeatureLevel::Diy);
    assert!(needs_row_normalization(Some("imx290"), "Raspberry Pi Zero 2 W Rev 1.0"));
    assert!(!needs_row_normalization(Some("imx290"), "Raspberry Pi 4"));
    assert_eq!(get_camera(true, true), CameraChoice::TestImage);
    assert_eq!(get_camera(true, false), CameraChoice::Attached);
    assert_eq!(described_camera(true, false), Some(CameraChoice::Attached));
    assert_eq!(described_camera(false, false), None);
    assert_eq!(
        get_camera(false, false),
        CameraChoice::Gray { width: 800, height: 600, level: 16 }
    );
}

#[test]
fn preferences_are_prepared() {
    let file = Preferences {
        eyepiece_fov: Some(DEGREE / 2),
        boresight_pixel: Some(pixel(5, 5)),
        update_interval: Some(nanos(1)),
        mount_type: Some(MountType::Equatorial),
        catalog_entry_match: Some(CatalogEntryMatch {
            faintest_magnitude: Some(19),
            match_catalog_label: false,
            catalog_label: vec!["M".to_string()],
            match_object_type_label: false,
            object_type_label: vec![],
        }),
        ..Preferences::default()
    };
    let prefs = prepare_preferences(FeatureLevel::Basic, true, true, Some(file), 640, 480);
    assert_eq!((prefs.eyepiece_fov, prefs.boresight_pixel), (Some(DEGREE / 2), None));
    assert_eq!(prefs.update_interval, Some(nanos(200_000_000)));
    assert_eq!(prefs.mount_type, Some(MountType::AltAz));
    assert_eq!((prefs.invert_camera, prefs.right_handed), (Some(true), Some(true)));
    let wanted = prefs.catalog_entry_match.unwrap();
    assert_eq!((wanted.faintest_magnitude, wanted.catalog_label.len()), (Some(12), 1));
    let fresh = prepare_preferences(FeatureLevel::Plus, true, false, None, 640, 480);
    assert_eq!(fresh.update_interval, Some(nanos(100_000_000)));
    assert_eq!(fresh.catalog_entry_match.unwrap().object_type_label.len(), 20);
}

#[test]
fn servers_start_setting_up() {
    let (state, actions) = plan_startup(nanos(5), 1280, 960, None, None, Some(pixel(20, 20)));
    assert_eq!(state, setup());
    assert_eq!(actions[1], Action::SetBinning { binning: 2, display_sampling: false });
    assert_eq!(actions[2], Action::SetFocusMode(true));
    assert_eq!(actions[6], Action::SetBoresight(pixel(20, 20)));
}

#[test]
fn files_are_read() {
    let lines = |text: &str| text.lines().map(|line| line.to_string()).collect::<Vec<String>>();
    let release = lines("ID=debian\nPRETTY_NAME=\"Debian 12\"\nPRETTY_NAME=\"other\"");
    assert_eq!(parse_os_version(&release), "Debian 12");
    assert_eq!(parse_os_version(&lines("PRETTY_NAME=a=b")), "a");
    assert_eq!(parse_os_version(&lines("ID=x")), "");
    assert_eq!(find_most_recent_file(&vec![3, 9, 9, 1]), Some(1));
    assert_eq!(find_most_recent_file(&vec![]), None);
    assert_eq!(log_bytes_to_read(100, 30), 30);
    assert_eq!(log_bytes_to_read(20, 30), 20);
    assert_eq!(log_bytes_to_read(20, -1), 20);
    assert_eq!(trim_log_tail("half\nwhole\n"), "whole\n");
    assert_eq!(trim_log_tail("half"), "half");
    assert!(is_demo_image("jpg") && is_demo_image("bmp") && !is_demo_image("png"));
}
