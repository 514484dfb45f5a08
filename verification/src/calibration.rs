//! The course of a calibration: starting it, its steps, and what follows from how it ends.
//!
//! Durations are in nanoseconds, angles in microarcseconds, and the distortion and the match
//! error in billionths.

use vstd::prelude::*;

use crate::cedar::OperatingMode;
use crate::operation_settings::{Action, SettingsState};
use crate::units::{NANOSECONDS_PER_MILLISECOND, NANOSECONDS_PER_SECOND};

verus! {

/// The kinds of error that operations of the camera and the engines end with.
#[derive(Clone, Copy, Debug, PartialEq, Eq, Structural)]
pub enum CanonicalErrorCode {
    /// Nothing is known of the error.
    Unknown,
    /// An argument is not valid, whatever the state.
    InvalidArgument,
    /// It took too long.
    DeadlineExceeded,
    /// Something was not found.
    NotFound,
    /// Something exists already.
    AlreadyExists,
    /// It is not allowed.
    PermissionDenied,
    /// It is not known who asks.
    Unauthenticated,
    /// Something was used up.
    ResourceExhausted,
    /// The state does not permit it.
    FailedPrecondition,
    /// It was cancelled.
    Aborted,
    /// An argument is beyond a limit.
    OutOfRange,
    /// There is no such operation.
    Unimplemented,
    /// Something is broken.
    Internal,
    /// It is not possible for now.
    Unavailable,
    /// Data was lost.
    DataLoss,
}

/// The number by which remote procedure calls know a kind of error.
pub open spec fn status_value(code: CanonicalErrorCode) -> i32 {
    match code {
        CanonicalErrorCode::Unknown => 2,
        CanonicalErrorCode::InvalidArgument => 3,
        CanonicalErrorCode::DeadlineExceeded => 4,
        CanonicalErrorCode::NotFound => 5,
        CanonicalErrorCode::AlreadyExists => 6,
        CanonicalErrorCode::PermissionDenied => 7,
        CanonicalErrorCode::ResourceExhausted => 8,
        CanonicalErrorCode::FailedPrecondition => 9,
        CanonicalErrorCode::Aborted => 10,
        CanonicalErrorCode::OutOfRange => 11,
        CanonicalErrorCode::Unimplemented => 12,
        CanonicalErrorCode::Internal => 13,
        CanonicalErrorCode::Unavailable => 14,
        CanonicalErrorCode::DataLoss => 15,
        CanonicalErrorCode::Unauthenticated => 16,
    }
}

/// The number by which remote procedure calls know a kind of error.
pub fn tonic_status(code: CanonicalErrorCode) -> (number: i32)
    ensures
        number == status_value(code),
{
    match code {
        CanonicalErrorCode::Unknown => 2,
        CanonicalErrorCode::InvalidArgument => 3,
        CanonicalErrorCode::DeadlineExceeded => 4,
        CanonicalErrorCode::NotFound => 5,
        CanonicalErrorCode::AlreadyExists => 6,
        CanonicalErrorCode::PermissionDenied => 7,
        CanonicalErrorCode::ResourceExhausted => 8,
        CanonicalErrorCode::FailedPrecondition => 9,
        CanonicalErrorCode::Aborted => 10,
        CanonicalErrorCode::OutOfRange => 11,
        CanonicalErrorCode::Unimplemented => 12,
        CanonicalErrorCode::Internal => 13,
        CanonicalErrorCode::Unavailable => 14,
        CanonicalErrorCode::DataLoss => 15,
        CanonicalErrorCode::Unauthenticated => 16,
    }
}

/// Kinds of error are known by different numbers.
pub proof fn law_status_tells_errors_apart(a: CanonicalErrorCode, b: CanonicalErrorCode)
    requires
        status_value(a) == status_value(b),
    ensures
        a == b,
{
}

/// What a calibration found out. What was not found out is missing.
#[derive(Clone, Copy, Debug, PartialEq, Eq, Structural)]
pub struct CalibrationData {
    /// When the calibration started, in nanoseconds since 1970 (UTC).
    pub calibration_time: Option<u64>,
    /// The camera's offset.
    pub camera_offset: Option<i32>,
    /// The exposure that gives the number of stars wanted.
    pub target_exposure_time: Option<u64>,
    /// The width of the field of view.
    pub fov_horizontal: Option<i64>,
    /// The distortion of the lens.
    pub lens_distortion: Option<i64>,
    /// The error up to which stars match the catalog.
    pub match_max_error: Option<i64>,
    /// The focal length, in nanometers.
    pub lens_fl: Option<i64>,
    /// The angle that a pixel covers.
    pub pixel_angular_size: Option<i64>,
}

/// What is known once the optics are calibrated.
#[derive(Clone, Copy, Debug, PartialEq, Eq, Structural)]
pub struct Optics {
    /// The width of the field of view.
    pub fov: i64,
    /// The distortion of the lens.
    pub distortion: i64,
    /// The error up to which stars match the catalog.
    pub match_max_error: i64,
    /// How long the solver took.
    pub solve_duration: u64,
    /// The focal length, in nanometers.
    pub lens_fl: i64,
    /// The angle that a pixel covers.
    pub pixel_angular_size: i64,
}

/// What the solver works with.
#[derive(Clone, Copy, Debug, PartialEq, Eq, Structural)]
pub struct SolverSettings {
    /// The width of the field of view, where it is known.
    pub fov_estimate: Option<i64>,
    /// The distortion of the lens.
    pub distortion: i64,
    /// The error up to which stars match the catalog.
    pub match_max_error: i64,
    /// How long the solver may take.
    pub solve_timeout: u64,
}

/// How a step of a calibration ends.
#[derive(Clone, Copy, Debug, PartialEq, Eq, Structural)]
pub enum StepEnd {
    /// The next step follows.
    GoOn,
    /// The calibration was cancelled.
    Aborted,
    /// The calibration has failed.
    Failed,
}

/// The camera's offset where it could not be calibrated.
pub const FALLBACK_OFFSET: i32 = 3;

/// What the first step leaves: the offset, or a sane one where it could not be found. Only a
/// cancelled calibration ends here.
pub open spec fn offset_step(
    data: CalibrationData,
    offset: Result<i32, CanonicalErrorCode>,
) -> (CalibrationData, StepEnd) {
    match offset {
        Ok(offset) => (CalibrationData { camera_offset: Some(offset), ..data }, StepEnd::GoOn),
        Err(CanonicalErrorCode::Aborted) => (data, StepEnd::Aborted),
        Err(_) => (
            CalibrationData { camera_offset: Some(FALLBACK_OFFSET), ..data },
            StepEnd::GoOn,
        ),
    }
}

/// Takes note of the camera's offset.
pub fn after_offset(data: &mut CalibrationData, offset: Result<i32, CanonicalErrorCode>) -> (end:
    StepEnd)
    ensures
        (*final(data), end) == offset_step(*old(data), offset),
{
    match offset {
        Ok(offset) => {
            data.camera_offset = Some(offset);
            StepEnd::GoOn
        },
        Err(CanonicalErrorCode::Aborted) => StepEnd::Aborted,
        Err(_) => {
            data.camera_offset = Some(FALLBACK_OFFSET);
            StepEnd::GoOn
        },
    }
}

/// What the second step leaves: the exposure. Without it the calibration ends.
pub open spec fn exposure_step(
    data: CalibrationData,
    exposure: Result<u64, CanonicalErrorCode>,
) -> (CalibrationData, StepEnd) {
    match exposure {
        Ok(exposure) => (
            CalibrationData { target_exposure_time: Some(exposure), ..data },
            StepEnd::GoOn,
        ),
        Err(CanonicalErrorCode::Aborted) => (data, StepEnd::Aborted),
        Err(_) => (data, StepEnd::Failed),
    }
}

/// Takes note of the exposure. Where it was found the detector is to use it.
pub fn after_exposure(
    data: &mut CalibrationData,
    exposure: Result<u64, CanonicalErrorCode>,
) -> (end: StepEnd)
    ensures
        (*final(data), end) == exposure_step(*old(data), exposure),
{
    match exposure {
        Ok(exposure) => {
            data.target_exposure_time = Some(exposure);
            StepEnd::GoOn
        },
        Err(CanonicalErrorCode::Aborted) => StepEnd::Aborted,
        Err(_) => StepEnd::Failed,
    }
}

/// How long the solver may take while operating: ten times as long as it took, but half a second
/// at least and a second at most.
pub open spec fn operation_solve_timeout(solve_duration: int) -> int {
    let wanted = solve_duration * 10;
    if wanted < 500_000_000 {
        500_000_000
    } else if wanted > 1_000_000_000 {
        1_000_000_000
    } else {
        wanted
    }
}

/// What the third step leaves: the optics, for the solver to work with, or nothing of them where
/// the step failed.
pub open spec fn optical_step(
    data: CalibrationData,
    optics: Result<Optics, CanonicalErrorCode>,
) -> (CalibrationData, SolverSettings, StepEnd) {
    match optics {
        Ok(optics) => (
            CalibrationData {
                fov_horizontal: Some(optics.fov),
                lens_distortion: Some(optics.distortion),
                match_max_error: Some(optics.match_max_error),
                lens_fl: Some(optics.lens_fl),
                pixel_angular_size: Some(optics.pixel_angular_size),
                ..data
            },
            SolverSettings {
                fov_estimate: Some(optics.fov),
                distortion: optics.distortion,
                match_max_error: optics.match_max_error,
                solve_timeout: operation_solve_timeout(optics.solve_duration as int) as u64,
            },
            StepEnd::GoOn,
        ),
        Err(code) => (
            CalibrationData {
                fov_horizontal: None,
                lens_distortion: None,
                match_max_error: None,
                lens_fl: None,
                pixel_angular_size: None,
                ..data
            },
            SolverSettings {
                fov_estimate: None,
                distortion: 0,
                match_max_error: 5_000_000,
                solve_timeout: NANOSECONDS_PER_SECOND,
            },
            if code == CanonicalErrorCode::Aborted {
                StepEnd::Aborted
            } else {
                StepEnd::Failed
            },
        ),
    }
}

/// Takes note of the optics, and gives what the solver is to work with.
pub fn after_optical(
    data: &mut CalibrationData,
    optics: Result<Optics, CanonicalErrorCode>,
) -> (r: (SolverSettings, StepEnd))
    ensures
        (*final(data), r.0, r.1) == optical_step(*old(data), optics),
{
    match optics {
        Ok(optics) => {
            data.fov_horizontal = Some(optics.fov);
            data.lens_distortion = Some(optics.distortion);
            data.match_max_error = Some(optics.match_max_error);
            data.lens_fl = Some(optics.lens_fl);
            data.pixel_angular_size = Some(optics.pixel_angular_size);
            let solve_timeout: u64 = if optics.solve_duration < 50 * NANOSECONDS_PER_MILLISECOND {
                500 * NANOSECONDS_PER_MILLISECOND
            } else if optics.solve_duration > 100 * NANOSECONDS_PER_MILLISECOND {
                NANOSECONDS_PER_SECOND
            } else {
                optics.solve_duration * 10
            };
            let settings = SolverSettings {
                fov_estimate: Some(optics.fov),
                distortion: optics.distortion,
                match_max_error: optics.match_max_error,
                solve_timeout,
            };
            (settings, StepEnd::GoOn)
        },
        Err(code) => {
            data.fov_horizontal = None;
            data.lens_distortion = None;
            data.match_max_error = None;
            data.lens_fl = None;
            data.pixel_angular_size = None;
            let settings = SolverSettings {
                fov_estimate: None,
                distortion: 0,
                match_max_error: 5_000_000,
                solve_timeout: NANOSECONDS_PER_SECOND,
            };
            let end = if code == CanonicalErrorCode::Aborted {
                StepEnd::Aborted
            } else {
                StepEnd::Failed
            };
            (settings, end)
        },
    }
}

/// A calibration that went on to its end has found everything out, and the solver is given a
/// time between half a second and a second.
pub proof fn law_complete_calibration(
    data: CalibrationData,
    offset: Result<i32, CanonicalErrorCode>,
    exposure: Result<u64, CanonicalErrorCode>,
    optics: Result<Optics, CanonicalErrorCode>,
)
    ensures
        ({
            let first = offset_step(data, offset);
            let second = exposure_step(first.0, exposure);
            let third = optical_step(second.0, optics);
            &&& first.1 == StepEnd::GoOn && second.1 == StepEnd::GoOn && third.2 == StepEnd::GoOn
                ==> {
                &&& third.0.camera_offset is Some
                &&& third.0.target_exposure_time is Some
                &&& third.0.fov_horizontal is Some
                &&& third.0.lens_distortion is Some
                &&& third.0.match_max_error is Some
                &&& third.0.lens_fl is Some
                &&& third.0.pixel_angular_size is Some
            }
            &&& first.0.calibration_time == data.calibration_time
            &&& second.0.calibration_time == data.calibration_time
            &&& third.0.calibration_time == data.calibration_time
            &&& 500_000_000 <= third.1.solve_timeout <= 1_000_000_000
            &&& (third.1.fov_estimate is Some <==> optics is Ok)
        }),
{
}

/// What starting a calibration asks for, and how long it should take: five seconds and as long
/// as the solver may take. The time at which it starts, in nanoseconds since 1970 (UTC), is taken
/// note of. One that is under way is left alone.
pub fn begin_calibration(
    state: &mut SettingsState,
    data: &mut CalibrationData,
    solver_timeout: u64,
    now: u64,
) -> (started: Option<(Action, u64)>)
    requires
        solver_timeout <= u64::MAX - 5_000_000_000,
    ensures
        old(state).calibrating ==> started is None && *final(state) == *old(state) && *final(data)
            == *old(data),
        !old(state).calibrating ==> {
            &&& *final(data) == (CalibrationData { calibration_time: Some(now), ..*old(data) })
            &&& started == Some(
                (
                    Action::SetGain { daylight_mode: false },
                    (5 * NANOSECONDS_PER_SECOND + solver_timeout) as u64,
                ),
            )
            &&& *final(state) == (SettingsState { calibrating: true, ..*old(state) })
        },
{
    if state.calibrating {
        return None;
    }
    state.calibrating = true;
    data.calibration_time = Some(now);
    Some(
        (
            Action::SetGain { daylight_mode: false },
            5 * NANOSECONDS_PER_SECOND + solver_timeout,
        ),
    )
}

/// The modes that follow a calibration, as the request that started it wants them.
#[derive(Clone, Copy, Debug, PartialEq, Eq, Structural)]
pub struct NewModes {
    /// Whether operate mode is entered.
    pub operate_mode: bool,
    /// Whether setup mode helps to focus.
    pub focus_mode: bool,
    /// Whether the camera looks at something bright.
    pub daylight_mode: bool,
}

/// What the end of a calibration asks for. One that failed or was cancelled leaves the modes as
/// they were.
pub open spec fn finish_actions(state: SettingsState, completed: bool, modes: NewModes) -> Seq<
    Action,
> {
    if !completed {
        seq![
            Action::ClearCancel,
            Action::SetGain { daylight_mode: state.daylight_mode },
            Action::SetFocusMode(state.focus_assist_mode),
            Action::SetDaylightMode(state.daylight_mode),
        ]
    } else {
        seq![
            Action::SetGain { daylight_mode: modes.daylight_mode },
            Action::SetDaylightMode(modes.daylight_mode),
            Action::SetFocusMode(modes.focus_mode),
        ]
    }
}

/// What entering operate mode after a calibration asks for.
pub open spec fn operate_actions(state: SettingsState) -> Seq<Action> {
    seq![
        Action::SetFocusMode(false),
        Action::SetDaylightMode(false),
        Action::SetAlignMode(false),
        Action::StartSolver,
        Action::SetUpdateInterval(state.update_interval),
    ]
}

/// Ends a calibration. Where it returns `true` operate mode follows: see `plan_operate`.
pub fn finish_calibration(
    state: &mut SettingsState,
    cancelled: bool,
    succeeded: bool,
    modes: NewModes,
) -> (r: (Vec<Action>, bool))
    ensures
        r.0@ == finish_actions(*old(state), succeeded && !cancelled, modes),
        r.1 == (succeeded && !cancelled && modes.operate_mode),
        succeeded && !cancelled ==> *final(state) == (SettingsState {
            calibrating: false,
            focus_assist_mode: modes.focus_mode,
            daylight_mode: modes.daylight_mode,
            ..*old(state)
        }),
        cancelled || !succeeded ==> *final(state) == (SettingsState {
            calibrating: false,
            ..*old(state)
        }),
{
    let mut actions: Vec<Action> = Vec::new();
    state.calibrating = false;
    let completed: bool = succeeded && !cancelled;
    if !completed {
        actions.push(Action::ClearCancel);
        actions.push(Action::SetGain { daylight_mode: state.daylight_mode });
        actions.push(Action::SetFocusMode(state.focus_assist_mode));
        actions.push(Action::SetDaylightMode(state.daylight_mode));
    } else {
        actions.push(Action::SetGain { daylight_mode: modes.daylight_mode });
        actions.push(Action::SetDaylightMode(modes.daylight_mode));
        actions.push(Action::SetFocusMode(modes.focus_mode));
        state.daylight_mode = modes.daylight_mode;
        state.focus_assist_mode = modes.focus_mode;
    }
    assert(actions@ =~= finish_actions(*old(state), completed, modes));
    (actions, completed && modes.operate_mode)
}

/// Plans how operate mode is entered after a calibration: what is to be done, and the settings
/// once it is done.
pub fn plan_operate(state: SettingsState) -> (r: (Vec<Action>, SettingsState))
    ensures
        r.0@ == operate_actions(state),
        r.1 == (SettingsState { operating_mode: OperatingMode::Operate, ..state }),
{
    let mut actions: Vec<Action> = Vec::new();
    actions.push(Action::SetFocusMode(false));
    actions.push(Action::SetDaylightMode(false));
    actions.push(Action::SetAlignMode(false));
    actions.push(Action::StartSolver);
    actions.push(Action::SetUpdateInterval(state.update_interval));
    assert(actions@ =~= operate_actions(state));
    let mut after: SettingsState = state;
    after.operating_mode = OperatingMode::Operate;
    (actions, after)
}

/// How far a calibration has come, in millionths, where it takes as long as estimated.
pub open spec fn progress_value(elapsed: int, estimate: int) -> int {
    if elapsed >= estimate {
        1_000_000
    } else {
        elapsed * 1_000_000 / estimate
    }
}

/// How far a calibration has come, in millionths.
pub fn calibration_progress(elapsed: u64, estimate: u64) -> (progress: u32)
    requires
        estimate > 0,
    ensures
        progress == progress_value(elapsed as int, estimate as int),
        progress <= 1_000_000,
{
    if elapsed >= estimate {
        return 1_000_000;
    }
    let scaled: u128 = elapsed as u128 * 1_000_000 / estimate as u128;
    proof {
        let e = elapsed as int;
        let d = estimate as int;
        assert(e * 1_000_000 / d <= 1_000_000) by (nonlinear_arith)
            requires
                0 <= e < d,
        ;
        assert(0 <= e * 1_000_000 / d) by (nonlinear_arith)
            requires
                0 <= e < d,
        ;
    }
    scaled as u32
}

/// The kinds of error that this server ends requests with are known by the numbers that remote
/// procedure calls give them; no kind stands for success.
pub proof fn law_status_numbers(code: CanonicalErrorCode, number: i32)
    requires
        call_ensures(tonic_status, (code,), number),
    ensures
        2 <= number <= 16,
        number == 3 <==> code == CanonicalErrorCode::InvalidArgument,
        number == 9 <==> code == CanonicalErrorCode::FailedPrecondition,
        number == 10 <==> code == CanonicalErrorCode::Aborted,
        number == 12 <==> code == CanonicalErrorCode::Unimplemented,
        number == 13 <==> code == CanonicalErrorCode::Internal,
        number == 4 <==> code == CanonicalErrorCode::DeadlineExceeded,
        number == 5 <==> code == CanonicalErrorCode::NotFound,
{
}

/// The first step keeps what it found, or falls back to three; the second needs what it looked for.
/// Either ends as cancelled exactly where it was, and neither touches what the other steps find.
pub proof fn law_first_steps_of_a_calibration(
    first: &mut CalibrationData,
    offset: Result<i32, CanonicalErrorCode>,
    first_end: StepEnd,
    second: &mut CalibrationData,
    exposure: Result<u64, CanonicalErrorCode>,
    second_end: StepEnd,
)
    requires
        call_ensures(after_offset, (first, offset), first_end),
        call_ensures(after_exposure, (second, exposure), second_end),
    ensures
        first_end == StepEnd::Aborted <==> offset == Err::<i32, CanonicalErrorCode>(
            CanonicalErrorCode::Aborted,
        ),
        first_end != StepEnd::Failed,
        offset matches Ok(found) ==> final(first).camera_offset == Some(found),
        offset is Err && first_end == StepEnd::GoOn ==> final(first).camera_offset == Some(3i32),
        first_end == StepEnd::Aborted ==> *final(first) == *old(first),
        final(first).target_exposure_time == old(first).target_exposure_time
            && final(first).fov_horizontal == old(first).fov_horizontal,
        second_end == StepEnd::GoOn <==> exposure is Ok,
        second_end == StepEnd::Aborted <==> exposure == Err::<u64, CanonicalErrorCode>(
            CanonicalErrorCode::Aborted,
        ),
        exposure matches Ok(found) ==> final(second).target_exposure_time == Some(found),
        exposure is Err ==> *final(second) == *old(second),
        final(second).camera_offset == old(second).camera_offset,
{
}

/// The last step keeps what it found of the optics, and the solver works with it: ten times as long
/// as it took, within half a second and a second. Where it failed, nothing is known of the optics.
pub proof fn law_last_step_of_a_calibration(
    data: &mut CalibrationData,
    optics: Result<Optics, CanonicalErrorCode>,
    after: (SolverSettings, StepEnd),
)
    requires
        call_ensures(after_optical, (data, optics), after),
    ensures
        after.1 == StepEnd::GoOn <==> optics is Ok,
        after.1 == StepEnd::Aborted <==> (optics matches Err(code) && code
            == CanonicalErrorCode::Aborted),
        500_000_000 <= after.0.solve_timeout <= 1_000_000_000,
        optics matches Ok(found) ==> {
            &&& final(data).fov_horizontal == Some(found.fov) && final(data).lens_distortion
                == Some(found.distortion) && final(data).match_max_error == Some(
                found.match_max_error,
            ) && final(data).lens_fl == Some(found.lens_fl) && final(data).pixel_angular_size
                == Some(found.pixel_angular_size)
            &&& after.0.fov_estimate == Some(found.fov) && after.0.distortion == found.distortion
                && after.0.match_max_error == found.match_max_error
            &&& 50_000_000 <= found.solve_duration <= 100_000_000 ==> after.0.solve_timeout == 10
                * found.solve_duration
            &&& found.solve_duration < 50_000_000 ==> after.0.solve_timeout == 500_000_000
            &&& found.solve_duration > 100_000_000 ==> after.0.solve_timeout == 1_000_000_000
        },
        optics is Err ==> {
            &&& final(data).fov_horizontal is None && final(data).lens_distortion is None
                && final(data).match_max_error is None && final(data).lens_fl is None
                && final(data).pixel_angular_size is None
            &&& after.0.fov_estimate is None && after.0.distortion == 0 && after.0.match_max_error
                == 5_000_000 && after.0.solve_timeout == 1_000_000_000
        },
        final(data).camera_offset == old(data).camera_offset && final(data).target_exposure_time
            == old(data).target_exposure_time && final(data).calibration_time
                == old(data).calibration_time,
{
}

/// A calibration that starts and ends without success leaves the settings as they were, and the
/// camera and the detector are told so. One that succeeds brings the modes that were asked for.
/// Only the latter leads to operate mode, and only where that was asked for.
pub proof fn law_calibration_starts_and_ends(
    state: &mut SettingsState,
    data: &mut CalibrationData,
    timeout: u64,
    now: u64,
    started: Option<(Action, u64)>,
    at_end: &mut SettingsState,
    cancelled: bool,
    succeeded: bool,
    modes: NewModes,
    ended: (Vec<Action>, bool),
)
    requires
        timeout <= u64::MAX - 5_000_000_000,
        !old(state).calibrating,
        call_ensures(begin_calibration, (state, data, timeout, now), started),
        *old(at_end) == *final(state),
        call_ensures(finish_calibration, (at_end, cancelled, succeeded, modes), ended),
    ensures
        final(state).calibrating && !final(at_end).calibrating,
        final(data).calibration_time == Some(now),
        final(data).camera_offset == old(data).camera_offset,
        started matches Some(start) && start.1 == timeout + 5_000_000_000 && start.0 == (
        Action::SetGain { daylight_mode: false }),
        !succeeded || cancelled ==> {
            &&& *final(at_end) == *old(state)
            &&& !ended.1
            &&& ended.0@.contains(Action::ClearCancel)
            &&& ended.0@.contains(Action::SetGain { daylight_mode: old(state).daylight_mode })
            &&& ended.0@.contains(Action::SetDaylightMode(old(state).daylight_mode))
            &&& ended.0@.contains(Action::SetFocusMode(old(state).focus_assist_mode))
        },
        succeeded && !cancelled ==> {
            &&& final(at_end).focus_assist_mode == modes.focus_mode
                && final(at_end).daylight_mode == modes.daylight_mode
            &&& final(at_end).operating_mode == old(state).operating_mode
                && final(at_end).update_interval == old(state).update_interval
            &&& ended.1 == modes.operate_mode
            &&& ended.0@.len() == 3
            &&& ended.0@.contains(Action::SetGain { daylight_mode: modes.daylight_mode })
            &&& ended.0@.contains(Action::SetDaylightMode(modes.daylight_mode))
            &&& ended.0@.contains(Action::SetFocusMode(modes.focus_mode))
        },
{
    let actions = ended.0@;
    if !succeeded || cancelled {
        assert(actions[0] == Action::ClearCancel);
        assert(actions[1] == (Action::SetGain { daylight_mode: old(state).daylight_mode }));
        assert(actions[2] == Action::SetFocusMode(old(state).focus_assist_mode));
        assert(actions[3] == Action::SetDaylightMode(old(state).daylight_mode));
    } else {
        assert(actions[0] == (Action::SetGain { daylight_mode: modes.daylight_mode }));
        assert(actions[1] == Action::SetDaylightMode(modes.daylight_mode));
        assert(actions[2] == Action::SetFocusMode(modes.focus_mode));
    }
}

/// A calibration that is under way is not started again, and nothing changes.
pub proof fn law_calibration_starts_once(
    state: &mut SettingsState,
    data: &mut CalibrationData,
    timeout: u64,
    now: u64,
    started: Option<(Action, u64)>,
)
    requires
        timeout <= u64::MAX - 5_000_000_000,
        call_ensures(begin_calibration, (state, data, timeout, now), started),
    ensures
        started is Some <==> !old(state).calibrating,
        old(state).calibrating ==> *final(state) == *old(state) && *final(data) == *old(data),
{
}

/// Operate mode after a calibration neither focuses nor looks at something bright, chooses no stars
/// to align by, starts the solver and goes at the user's pace. Nothing else about the settings
/// changes.
pub proof fn law_operate_mode_follows(state: SettingsState, plan: (Vec<Action>, SettingsState))
    requires
        call_ensures(plan_operate, (state,), plan),
    ensures
        plan.1 == (SettingsState { operating_mode: OperatingMode::Operate, ..state }),
        plan.0@.len() == 5,
        plan.0@.contains(Action::SetFocusMode(false)),
        plan.0@.contains(Action::SetDaylightMode(false)),
        plan.0@.contains(Action::SetAlignMode(false)),
        plan.0@.contains(Action::StartSolver),
        plan.0@.last() == Action::SetUpdateInterval(state.update_interval),
{
    assert(plan.0@[0] == Action::SetFocusMode(false));
    assert(plan.0@[1] == Action::SetDaylightMode(false));
    assert(plan.0@[2] == Action::SetAlignMode(false));
    assert(plan.0@[3] == Action::StartSolver);
}

/// The progress of a calibration grows with the time that has passed, from nothing to all of it,
/// and is the part of the estimate that has passed.
pub proof fn law_progress_is_the_part_that_passed(
    early: u64,
    late: u64,
    estimate: u64,
    before: u32,
    after: u32,
)
    requires
        0 < estimate,
        early <= late,
        call_ensures(calibration_progress, (early, estimate), before),
        call_ensures(calibration_progress, (late, estimate), after),
    ensures
        before <= after <= 1_000_000,
        early == 0 ==> before == 0,
        late >= estimate <==> after == 1_000_000,
        early < estimate ==> before * estimate <= early * 1_000_000 < (before + 1) * estimate,
{
    let d = estimate as int;
    let a = early as int;
    let b = late as int;
    if a < d {
        let p = a * 1_000_000 / d;
        assert(p * d <= a * 1_000_000 < (p + 1) * d && p < 1_000_000) by (nonlinear_arith)
            requires
                0 <= a < d,
                p == a * 1_000_000 / d,
        ;
        if b < d {
            let q = b * 1_000_000 / d;
            assert(p <= q && q < 1_000_000) by (nonlinear_arith)
                requires
                    0 <= a <= b < d,
                    p == a * 1_000_000 / d,
                    q == b * 1_000_000 / d,
            ;
        }
        if a == 0 {
            assert(0int * 1_000_000 / d == 0) by (nonlinear_arith)
                requires
                    0 < d,
            ;
        }
    }
}

} // verus!
