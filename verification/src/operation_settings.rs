//! Changes of the mode of operation and of other settings while the server runs.
//!
//! A request is worked through stage by stage. For each stage a plan says what is to be done with
//! the camera and the engines, in order, and what the settings are once all of it is done. Where
//! one of the steps fails the request fails with it, and the settings stay as they were.

use vstd::prelude::*;

use crate::astro_util::ImageCoord;
use crate::cedar::OperatingMode;
use crate::preferences::{Interval, is_boresight_valid};

verus! {

/// The settings that decisions depend on.
#[derive(Clone, Copy, Debug, PartialEq, Eq, Structural)]
pub struct SettingsState {
    /// The mode of operation.
    pub operating_mode: OperatingMode,
    /// Whether setup mode helps to focus.
    pub focus_assist_mode: bool,
    /// Whether the camera looks at something bright.
    pub daylight_mode: bool,
    /// Whether a calibration is under way.
    pub calibrating: bool,
    /// The time between frames that the user wants.
    pub update_interval: Interval,
}

/// The mode of operation that a request names.
#[derive(Clone, Copy, Debug, PartialEq, Eq, Structural)]
pub enum RequestedMode {
    /// Setup mode.
    Setup,
    /// Operate mode.
    Operate,
    /// A number that stands for no mode.
    Invalid(i32),
}

/// A request to change settings. A missing field leaves the setting as it is.
#[derive(Clone, Copy, Debug, PartialEq, Eq, Structural)]
pub struct SettingsRequest {
    /// The mode of operation.
    pub operating_mode: Option<RequestedMode>,
    /// Whether setup mode helps to focus.
    pub focus_assist_mode: Option<bool>,
    /// Whether the camera looks at something bright.
    pub daylight_mode: Option<bool>,
    /// The time between frames.
    pub update_interval: Option<Interval>,
    /// Whether the time between frames while dwelling is to be set.
    pub dwell_update_interval: bool,
    /// Whether it is to be set that dwelled positions are logged.
    pub log_dwelled_positions: bool,
    /// Whether the choice of catalog entries is to be set.
    pub catalog_entry_match: bool,
    /// Whether a demonstration image is to be set, and if so whether its name is empty.
    pub demo_image_is_empty: Option<bool>,
    /// Whether the camera is upside down.
    pub invert_camera: Option<bool>,
}

/// Something to be done with the camera or an engine.
#[derive(Clone, Copy, Debug, PartialEq, Eq, Structural)]
pub enum Action {
    /// Set the camera's gain: the least in daylight, the best one otherwise.
    SetGain { daylight_mode: bool },
    /// Set the camera's time between frames. This can fail.
    SetUpdateInterval(Interval),
    /// Set the camera to what it starts with before a calibration. This can fail.
    SetPreCalibrationDefaults,
    /// Tell the solver whether stars are chosen to align by.
    SetAlignMode(bool),
    /// Forget how the image was rotated.
    ForgetImageRotator,
    /// Start statistics anew.
    ResetSessionStats,
    /// Tell the detector whether it helps to focus.
    SetFocusMode(bool),
    /// Tell the detector whether it is in daylight.
    SetDaylightMode(bool),
    /// Make the detector forget the exposure that was calibrated.
    ForgetCalibratedExposure,
    /// End a slew.
    StopSlew,
    /// Start the solver.
    StartSolver,
    /// Calibrate in the background, and change modes when that succeeds.
    SpawnCalibration { operate_mode: bool, focus_mode: bool, daylight_mode: bool },
    /// Forget that the calibration was cancelled.
    ClearCancel,
    /// Save the time between frames with the preferences.
    SaveUpdateInterval(Interval),
    /// Set the choice of catalog entries.
    SetCatalogEntryMatch,
    /// Save the choice of catalog entries with the preferences.
    SaveCatalogEntryMatch,
    /// Use the camera that was configured.
    UseConfiguredCamera,
    /// Use the demonstration image in place of a camera. This can fail.
    OpenDemoImage,
    /// Tell the detector how to bin.
    SetBinning { binning: u32, display_sampling: bool },
    /// Give the engines the camera now in use.
    ReplaceCamera,
    /// Set where the telescope points in the image.
    SetBoresight(ImageCoord),
    /// Forget where the telescope points in the image.
    ForgetBoresight,
    /// Set whether the camera is upside down, and save it with the preferences.
    SetInverted(bool),
}

/// Why a request is refused.
#[derive(Clone, Copy, Debug, PartialEq, Eq, Structural)]
pub enum Refusal {
    /// The mode cannot change while calibrating.
    ModeWhileCalibrating,
    /// Daylight mode cannot change while calibrating.
    DaylightWhileCalibrating,
    /// Focus assist mode cannot change while calibrating.
    FocusWhileCalibrating,
    /// There is no such mode.
    InvalidMode(i32),
    /// A time between frames cannot be negative.
    NegativeInterval(Interval),
    /// The time between frames while dwelling cannot be set.
    DwellIntervalUnimplemented,
    /// The logging of dwelled positions cannot be set.
    LogDwelledUnimplemented,
    /// There is no sky catalog.
    NoCedarSky,
}

/// What a stage of a request asks for.
#[derive(Debug)]
pub struct StagePlan {
    /// What is to be done, in order.
    pub actions: Vec<Action>,
    /// The settings once it is done.
    pub state: SettingsState,
    /// What is left of the request for the stages that follow.
    pub request: SettingsRequest,
}

/// What a stage of a request asks for, as mathematical values.
pub struct StagePlanView {
    /// See `StagePlan::actions`.
    pub actions: Seq<Action>,
    /// See `StagePlan::state`.
    pub state: SettingsState,
    /// See `StagePlan::request`.
    pub request: SettingsRequest,
}

impl View for StagePlan {
    type V = StagePlanView;

    open spec fn view(&self) -> StagePlanView {
        StagePlanView { actions: self.actions@, state: self.state, request: self.request }
    }
}

/// A plan, or why there is none, as mathematical values.
pub open spec fn plan_view(plan: Result<StagePlan, Refusal>) -> Result<StagePlanView, Refusal> {
    match plan {
        Ok(plan) => Ok(plan@),
        Err(refusal) => Err(refusal),
    }
}

/// No time at all.
pub open spec fn no_interval() -> Interval {
    Interval { seconds: 0, nanos: 0 }
}

/// A value of a request, or else the one that is.
pub open spec fn requested(value: Option<bool>, current: bool) -> bool {
    match value {
        Some(value) => value,
        None => current,
    }
}

/// Whether the mode that a request names is the one that is.
pub open spec fn is_current(mode: RequestedMode, current: OperatingMode) -> bool {
    match mode {
        RequestedMode::Setup => current == OperatingMode::Setup,
        RequestedMode::Operate => current == OperatingMode::Operate,
        RequestedMode::Invalid(_) => false,
    }
}

/// What entering setup mode asks for. While focusing the camera runs at full speed with the
/// settings from before a calibration.
pub open spec fn enter_setup_actions(focus: bool, daylight: bool) -> Seq<Action> {
    seq![Action::SetGain { daylight_mode: daylight }] + (if focus {
        seq![Action::SetUpdateInterval(no_interval()), Action::SetPreCalibrationDefaults]
    } else {
        seq![]
    }) + seq![
        Action::SetAlignMode(true),
        Action::ForgetImageRotator,
        Action::ResetSessionStats,
        Action::SetFocusMode(focus),
        Action::SetDaylightMode(daylight),
    ] + (if focus {
        seq![Action::ForgetCalibratedExposure]
    } else {
        seq![]
    }) + seq![Action::StopSlew]
}

/// What entering operate mode asks for, once calibrated.
pub open spec fn enter_operate_actions(update_interval: Interval) -> Seq<Action> {
    seq![
        Action::SetGain { daylight_mode: false },
        Action::SetDaylightMode(false),
        Action::SetAlignMode(false),
        Action::StartSolver,
        Action::SetUpdateInterval(update_interval),
    ]
}

/// The plan for a change of the mode of operation. It settles focus assist and daylight mode too.
/// Operate mode is entered at once where setup mode was calibrated, that is, neither focusing nor
/// in daylight; else a calibration comes first, and the mode changes when that succeeds.
pub open spec fn mode_plan(state: SettingsState, request: SettingsRequest) -> Result<
    StagePlanView,
    Refusal,
> {
    let nothing = StagePlanView { actions: seq![], state, request };
    match request.operating_mode {
        None => Ok(nothing),
        Some(mode) => if is_current(mode, state.operating_mode) {
            Ok(nothing)
        } else if state.calibrating {
            Err(Refusal::ModeWhileCalibrating)
        } else {
            let focus = requested(request.focus_assist_mode, state.focus_assist_mode);
            let daylight = requested(request.daylight_mode, state.daylight_mode);
            let rest = SettingsRequest { focus_assist_mode: None, daylight_mode: None, ..request };
            let settled = SettingsState {
                focus_assist_mode: focus,
                daylight_mode: daylight,
                ..state
            };
            match mode {
                RequestedMode::Setup => Ok(
                    StagePlanView {
                        actions: enter_setup_actions(focus, daylight),
                        state: SettingsState { operating_mode: OperatingMode::Setup, ..settled },
                        request: rest,
                    },
                ),
                RequestedMode::Operate => if state.focus_assist_mode || state.daylight_mode {
                    Ok(
                        StagePlanView {
                            actions: seq![
                                Action::SpawnCalibration {
                                    operate_mode: true,
                                    focus_mode: false,
                                    daylight_mode: false,
                                },
                            ],
                            state,
                            request: rest,
                        },
                    )
                } else {
                    Ok(
                        StagePlanView {
                            actions: enter_operate_actions(state.update_interval),
                            state: SettingsState {
                                operating_mode: OperatingMode::Operate,
                                ..settled
                            },
                            request: rest,
                        },
                    )
                },
                RequestedMode::Invalid(number) => Err(Refusal::InvalidMode(number)),
            }
        },
    }
}

/// Plans a change of the mode of operation.
pub fn plan_mode(state: SettingsState, request: SettingsRequest) -> (plan: Result<
    StagePlan,
    Refusal,
>)
    ensures
        plan_view(plan) == mode_plan(state, request),
{
    let mut actions: Vec<Action> = Vec::new();
    let mode: RequestedMode = match request.operating_mode {
        None => return Ok(StagePlan { actions, state, request }),
        Some(mode) => mode,
    };
    let unchanged: bool = match mode {
        RequestedMode::Setup => state.operating_mode == OperatingMode::Setup,
        RequestedMode::Operate => state.operating_mode == OperatingMode::Operate,
        RequestedMode::Invalid(_) => false,
    };
    if unchanged {
        return Ok(StagePlan { actions, state, request });
    }
    if state.calibrating {
        return Err(Refusal::ModeWhileCalibrating);
    }
    let focus: bool = match request.focus_assist_mode {
        Some(value) => value,
        None => state.focus_assist_mode,
    };
    let daylight: bool = match request.daylight_mode {
        Some(value) => value,
        None => state.daylight_mode,
    };
    let mut rest: SettingsRequest = request;
    rest.focus_assist_mode = None;
    rest.daylight_mode = None;
    let mut settled: SettingsState = state;
    settled.focus_assist_mode = focus;
    settled.daylight_mode = daylight;
    match mode {
        RequestedMode::Setup => {
            actions.push(Action::SetGain { daylight_mode: daylight });
            if focus {
                actions.push(Action::SetUpdateInterval(Interval { seconds: 0, nanos: 0 }));
                actions.push(Action::SetPreCalibrationDefaults);
            }
            actions.push(Action::SetAlignMode(true));
            actions.push(Action::ForgetImageRotator);
            actions.push(Action::ResetSessionStats);
            actions.push(Action::SetFocusMode(focus));
            actions.push(Action::SetDaylightMode(daylight));
            if focus {
                actions.push(Action::ForgetCalibratedExposure);
            }
            actions.push(Action::StopSlew);
            assert(actions@ =~= enter_setup_actions(focus, daylight));
            settled.operating_mode = OperatingMode::Setup;
            Ok(StagePlan { actions, state: settled, request: rest })
        },
        RequestedMode::Operate => {
            if state.focus_assist_mode || state.daylight_mode {
                actions.push(
                    Action::SpawnCalibration {
                        operate_mode: true,
                        focus_mode: false,
                        daylight_mode: false,
                    },
                );
                assert(actions@ =~= seq![
                    Action::SpawnCalibration {
                        operate_mode: true,
                        focus_mode: false,
                        daylight_mode: false,
                    },
                ]);
                Ok(StagePlan { actions, state, request: rest })
            } else {
                actions.push(Action::SetGain { daylight_mode: false });
                actions.push(Action::SetDaylightMode(false));
                actions.push(Action::SetAlignMode(false));
                actions.push(Action::StartSolver);
                actions.push(Action::SetUpdateInterval(state.update_interval));
                assert(actions@ =~= enter_operate_actions(state.update_interval));
                settled.operating_mode = OperatingMode::Operate;
                Ok(StagePlan { actions, state: settled, request: rest })
            }
        },
        RequestedMode::Invalid(number) => Err(Refusal::InvalidMode(number)),
    }
}

/// The plan for a change of daylight mode. Turning it off while aligning asks for a calibration.
pub open spec fn daylight_plan(state: SettingsState, request: SettingsRequest) -> Result<
    StagePlanView,
    Refusal,
> {
    match request.daylight_mode {
        None => Ok(StagePlanView { actions: seq![], state, request }),
        Some(daylight) => {
            let changes = daylight != state.daylight_mode;
            let focus = requested(request.focus_assist_mode, state.focus_assist_mode);
            let rest = if changes {
                SettingsRequest { focus_assist_mode: None, ..request }
            } else {
                request
            };
            let settled = SettingsState { daylight_mode: daylight, ..state };
            let set_up = state.operating_mode == OperatingMode::Setup;
            if changes && state.calibrating {
                Err(Refusal::DaylightWhileCalibrating)
            } else if changes && set_up && !state.focus_assist_mode && !daylight {
                Ok(
                    StagePlanView {
                        actions: seq![
                            Action::SpawnCalibration {
                                operate_mode: false,
                                focus_mode: focus,
                                daylight_mode: daylight,
                            },
                        ],
                        state,
                        request: rest,
                    },
                )
            } else if changes && set_up {
                Ok(
                    StagePlanView {
                        actions: seq![
                            Action::SetGain { daylight_mode: daylight },
                            Action::SetDaylightMode(daylight),
                        ],
                        state: settled,
                        request: rest,
                    },
                )
            } else {
                Ok(
                    StagePlanView {
                        actions: seq![Action::SetDaylightMode(daylight)],
                        state: settled,
                        request: rest,
                    },
                )
            }
        },
    }
}

/// Plans a change of daylight mode.
pub fn plan_daylight(state: SettingsState, request: SettingsRequest) -> (plan: Result<
    StagePlan,
    Refusal,
>)
    ensures
        plan_view(plan) == daylight_plan(state, request),
{
    let mut actions: Vec<Action> = Vec::new();
    let daylight: bool = match request.daylight_mode {
        None => return Ok(StagePlan { actions, state, request }),
        Some(daylight) => daylight,
    };
    let mut rest: SettingsRequest = request;
    if daylight != state.daylight_mode {
        if state.calibrating {
            return Err(Refusal::DaylightWhileCalibrating);
        }
        let focus: bool = match request.focus_assist_mode {
            Some(value) => value,
            None => state.focus_assist_mode,
        };
        rest.focus_assist_mode = None;
        if state.operating_mode == OperatingMode::Setup {
            if !state.focus_assist_mode && !daylight {
                let spawn = Action::SpawnCalibration {
                    operate_mode: false,
                    focus_mode: focus,
                    daylight_mode: daylight,
                };
                actions.push(spawn);
                assert(actions@ =~= seq![spawn]);
                return Ok(StagePlan { actions, state, request: rest });
            }
            actions.push(Action::SetGain { daylight_mode: daylight });
        }
    }
    actions.push(Action::SetDaylightMode(daylight));
    let mut settled: SettingsState = state;
    settled.daylight_mode = daylight;
    let plan = StagePlan { actions, state: settled, request: rest };
    proof {
        let changes = daylight != state.daylight_mode;
        if changes && state.operating_mode == OperatingMode::Setup {
            assert(plan.actions@ =~= seq![
                Action::SetGain { daylight_mode: daylight },
                Action::SetDaylightMode(daylight),
            ]);
        } else {
            assert(plan.actions@ =~= seq![Action::SetDaylightMode(daylight)]);
        }
    }
    Ok(plan)
}

/// The plan for a change of focus assist mode. Outside of setup mode it is only noted. Entering
/// it makes the camera run at full speed; leaving it asks for a calibration, unless in daylight.
pub open spec fn focus_plan(state: SettingsState, request: SettingsRequest) -> Result<
    StagePlanView,
    Refusal,
> {
    match request.focus_assist_mode {
        None => Ok(StagePlanView { actions: seq![], state, request }),
        Some(focus) => {
            let changes = state.operating_mode == OperatingMode::Setup && focus
                != state.focus_assist_mode;
            let settled = SettingsState { focus_assist_mode: focus, ..state };
            if changes && state.calibrating {
                Err(Refusal::FocusWhileCalibrating)
            } else if changes && focus {
                Ok(
                    StagePlanView {
                        actions: seq![
                            Action::SetUpdateInterval(no_interval()),
                            Action::SetPreCalibrationDefaults,
                            Action::SetGain { daylight_mode: state.daylight_mode },
                            Action::SetFocusMode(focus),
                        ],
                        state: settled,
                        request,
                    },
                )
            } else if changes && !state.daylight_mode {
                Ok(
                    StagePlanView {
                        actions: seq![
                            Action::SpawnCalibration {
                                operate_mode: false,
                                focus_mode: focus,
                                daylight_mode: state.daylight_mode,
                            },
                        ],
                        state,
                        request,
                    },
                )
            } else {
                Ok(
                    StagePlanView {
                        actions: seq![Action::SetFocusMode(focus)],
                        state: settled,
                        request,
                    },
                )
            }
        },
    }
}

/// Plans a change of focus assist mode.
pub fn plan_focus(state: SettingsState, request: SettingsRequest) -> (plan: Result<
    StagePlan,
    Refusal,
>)
    ensures
        plan_view(plan) == focus_plan(state, request),
{
    let mut actions: Vec<Action> = Vec::new();
    let focus: bool = match request.focus_assist_mode {
        None => return Ok(StagePlan { actions, state, request }),
        Some(focus) => focus,
    };
    let changes: bool = state.operating_mode == OperatingMode::Setup && focus
        != state.focus_assist_mode;
    if changes {
        if state.calibrating {
            return Err(Refusal::FocusWhileCalibrating);
        }
        if focus {
            actions.push(Action::SetUpdateInterval(Interval { seconds: 0, nanos: 0 }));
            actions.push(Action::SetPreCalibrationDefaults);
            actions.push(Action::SetGain { daylight_mode: state.daylight_mode });
        } else if !state.daylight_mode {
            let spawn = Action::SpawnCalibration {
                operate_mode: false,
                focus_mode: focus,
                daylight_mode: state.daylight_mode,
            };
            actions.push(spawn);
            assert(actions@ =~= seq![spawn]);
            return Ok(StagePlan { actions, state, request });
        }
    }
    actions.push(Action::SetFocusMode(focus));
    let mut settled: SettingsState = state;
    settled.focus_assist_mode = focus;
    let plan = StagePlan { actions, state: settled, request };
    proof {
        if changes && focus {
            assert(plan.actions@ =~= seq![
                Action::SetUpdateInterval(no_interval()),
                Action::SetPreCalibrationDefaults,
                Action::SetGain { daylight_mode: state.daylight_mode },
                Action::SetFocusMode(focus),
            ]);
        } else {
            assert(plan.actions@ =~= seq![Action::SetFocusMode(focus)]);
        }
    }
    Ok(plan)
}

/// The plan for a change of the time between frames. While focusing the camera keeps running at
/// full speed.
pub open spec fn interval_plan(state: SettingsState, request: SettingsRequest) -> Result<
    StagePlanView,
    Refusal,
> {
    match request.update_interval {
        None => Ok(StagePlanView { actions: seq![], state, request }),
        Some(interval) => if interval.seconds < 0 || interval.nanos < 0 {
            Err(Refusal::NegativeInterval(interval))
        } else {
            Ok(
                StagePlanView {
                    actions: (if state.operating_mode == OperatingMode::Operate
                        || !state.focus_assist_mode {
                        seq![Action::SetUpdateInterval(interval)]
                    } else {
                        seq![]
                    }) + seq![Action::SaveUpdateInterval(interval)],
                    state: SettingsState { update_interval: interval, ..state },
                    request,
                },
            )
        },
    }
}

/// Plans a change of the time between frames.
pub fn plan_interval(state: SettingsState, request: SettingsRequest) -> (plan: Result<
    StagePlan,
    Refusal,
>)
    ensures
        plan_view(plan) == interval_plan(state, request),
{
    let mut actions: Vec<Action> = Vec::new();
    let interval: Interval = match request.update_interval {
        None => return Ok(StagePlan { actions, state, request }),
        Some(interval) => interval,
    };
    if interval.seconds < 0 || interval.nanos < 0 {
        return Err(Refusal::NegativeInterval(interval));
    }
    if state.operating_mode == OperatingMode::Operate || !state.focus_assist_mode {
        actions.push(Action::SetUpdateInterval(interval));
    }
    actions.push(Action::SaveUpdateInterval(interval));
    assert(actions@ =~= (if state.operating_mode == OperatingMode::Operate
        || !state.focus_assist_mode {
        seq![Action::SetUpdateInterval(interval)]
    } else {
        seq![]
    }) + seq![Action::SaveUpdateInterval(interval)]);
    let mut settled: SettingsState = state;
    settled.update_interval = interval;
    Ok(StagePlan { actions, state: settled, request })
}

/// The stages of a request, in the order in which they are worked through.
#[derive(Clone, Copy, Debug, PartialEq, Eq, Structural)]
pub enum Stage {
    /// The mode of operation.
    Mode,
    /// Daylight mode.
    Daylight,
    /// Focus assist mode.
    Focus,
    /// The time between frames.
    Interval,
    /// What cannot be set.
    Dwell,
    /// The choice of catalog entries.
    CatalogMatch,
    /// The demonstration image.
    DemoImage,
    /// Whether the camera is upside down.
    Invert,
}

/// The stage after another.
pub open spec fn stage_after(stage: Stage) -> Option<Stage> {
    match stage {
        Stage::Mode => Some(Stage::Daylight),
        Stage::Daylight => Some(Stage::Focus),
        Stage::Focus => Some(Stage::Interval),
        Stage::Interval => Some(Stage::Dwell),
        Stage::Dwell => Some(Stage::CatalogMatch),
        Stage::CatalogMatch => Some(Stage::DemoImage),
        Stage::DemoImage => Some(Stage::Invert),
        Stage::Invert => None,
    }
}

/// The stage after another.
pub fn next_stage(stage: Stage) -> (next: Option<Stage>)
    ensures
        next == stage_after(stage),
{
    match stage {
        Stage::Mode => Some(Stage::Daylight),
        Stage::Daylight => Some(Stage::Focus),
        Stage::Focus => Some(Stage::Interval),
        Stage::Interval => Some(Stage::Dwell),
        Stage::Dwell => Some(Stage::CatalogMatch),
        Stage::CatalogMatch => Some(Stage::DemoImage),
        Stage::DemoImage => Some(Stage::Invert),
        Stage::Invert => None,
    }
}

/// The plan of a stage of a request.
pub open spec fn stage_plan(
    stage: Stage,
    state: SettingsState,
    request: SettingsRequest,
    has_cedar_sky: bool,
) -> Result<StagePlanView, Refusal> {
    let nothing = StagePlanView { actions: seq![], state, request };
    match stage {
        Stage::Mode => mode_plan(state, request),
        Stage::Daylight => daylight_plan(state, request),
        Stage::Focus => focus_plan(state, request),
        Stage::Interval => interval_plan(state, request),
        Stage::Dwell => if request.dwell_update_interval {
            Err(Refusal::DwellIntervalUnimplemented)
        } else if request.log_dwelled_positions {
            Err(Refusal::LogDwelledUnimplemented)
        } else {
            Ok(nothing)
        },
        Stage::CatalogMatch => if !request.catalog_entry_match {
            Ok(nothing)
        } else if !has_cedar_sky {
            Err(Refusal::NoCedarSky)
        } else {
            Ok(
                StagePlanView {
                    actions: seq![Action::SetCatalogEntryMatch, Action::SaveCatalogEntryMatch],
                    ..nothing
                },
            )
        },
        Stage::DemoImage => match request.demo_image_is_empty {
            None => Ok(nothing),
            Some(true) => Ok(
                StagePlanView { actions: seq![Action::UseConfiguredCamera], ..nothing },
            ),
            Some(false) => Ok(StagePlanView { actions: seq![Action::OpenDemoImage], ..nothing }),
        },
        Stage::Invert => match request.invert_camera {
            None => Ok(nothing),
            Some(inverted) => Ok(
                StagePlanView { actions: seq![Action::SetInverted(inverted)], ..nothing },
            ),
        },
    }
}

/// Plans a stage of a request. After the stage of the demonstration image, where it was asked
/// for, what `plan_new_camera` asks for comes next.
pub fn plan_stage(
    stage: Stage,
    state: SettingsState,
    request: SettingsRequest,
    has_cedar_sky: bool,
) -> (plan: Result<StagePlan, Refusal>)
    ensures
        plan_view(plan) == stage_plan(stage, state, request, has_cedar_sky),
{
    let mut actions: Vec<Action> = Vec::new();
    match stage {
        Stage::Mode => return plan_mode(state, request),
        Stage::Daylight => return plan_daylight(state, request),
        Stage::Focus => return plan_focus(state, request),
        Stage::Interval => return plan_interval(state, request),
        Stage::Dwell => {
            if request.dwell_update_interval {
                return Err(Refusal::DwellIntervalUnimplemented);
            }
            if request.log_dwelled_positions {
                return Err(Refusal::LogDwelledUnimplemented);
            }
        },
        Stage::CatalogMatch => {
            if request.catalog_entry_match {
                if !has_cedar_sky {
                    return Err(Refusal::NoCedarSky);
                }
                actions.push(Action::SetCatalogEntryMatch);
                actions.push(Action::SaveCatalogEntryMatch);
                assert(actions@ =~= seq![
                    Action::SetCatalogEntryMatch,
                    Action::SaveCatalogEntryMatch,
                ]);
            }
        },
        Stage::DemoImage => {
            if let Some(is_empty) = request.demo_image_is_empty {
                let open = if is_empty {
                    Action::UseConfiguredCamera
                } else {
                    Action::OpenDemoImage
                };
                actions.push(open);
                assert(actions@ =~= seq![open]);
            }
        },
        Stage::Invert => {
            if let Some(inverted) = request.invert_camera {
                actions.push(Action::SetInverted(inverted));
                assert(actions@ =~= seq![Action::SetInverted(inverted)]);
            }
        },
    }
    Ok(StagePlan { actions, state, request })
}

/// How far a request has come.
#[derive(Debug)]
pub enum Progress {
    /// A stage asks for something to be done.
    Perform {
        /// The stage.
        stage: Stage,
        /// What it asks for.
        plan: StagePlan,
    },
    /// A stage is refused, and the request ends with these settings.
    Refused {
        /// The settings.
        state: SettingsState,
        /// Why it is refused.
        refusal: Refusal,
    },
    /// The request ends with these settings.
    Finished {
        /// The settings.
        state: SettingsState,
    },
}

/// How far a request has come, as mathematical values.
pub enum ProgressView {
    /// See `Progress::Perform`.
    Perform {
        /// The stage.
        stage: Stage,
        /// What it asks for.
        plan: StagePlanView,
    },
    /// See `Progress::Refused`.
    Refused {
        /// The settings.
        state: SettingsState,
        /// Why it is refused.
        refusal: Refusal,
    },
    /// See `Progress::Finished`.
    Finished {
        /// The settings.
        state: SettingsState,
    },
}

impl View for Progress {
    type V = ProgressView;

    open spec fn view(&self) -> ProgressView {
        match *self {
            Progress::Perform { stage, plan } => ProgressView::Perform { stage, plan: plan@ },
            Progress::Refused { state, refusal } => ProgressView::Refused { state, refusal },
            Progress::Finished { state } => ProgressView::Finished { state },
        }
    }
}

/// How many stages there are from a stage on.
pub open spec fn stages_left(stage: Option<Stage>) -> nat {
    match stage {
        Some(Stage::Mode) => 8,
        Some(Stage::Daylight) => 7,
        Some(Stage::Focus) => 6,
        Some(Stage::Interval) => 5,
        Some(Stage::Dwell) => 4,
        Some(Stage::CatalogMatch) => 3,
        Some(Stage::DemoImage) => 2,
        Some(Stage::Invert) => 1,
        None => 0,
    }
}

/// How far a request comes from a stage on without anything being done.
pub open spec fn progress_from(
    stage: Option<Stage>,
    state: SettingsState,
    request: SettingsRequest,
    has_cedar_sky: bool,
) -> ProgressView
    decreases stages_left(stage),
{
    match stage {
        None => ProgressView::Finished { state },
        Some(stage) => match stage_plan(stage, state, request, has_cedar_sky) {
            Err(refusal) => ProgressView::Refused { state, refusal },
            Ok(plan) => if plan.actions.len() > 0 {
                ProgressView::Perform { stage, plan }
            } else {
                progress_from(stage_after(stage), plan.state, plan.request, has_cedar_sky)
            },
        },
    }
}

/// Works through a request from a stage on, up to the first that asks for something to be done.
/// Once that is done the caller goes on with the plan's settings and request at the stage after
/// it. A request starts at the stage of the mode.
pub fn update_operation_settings(
    from: Option<Stage>,
    state: SettingsState,
    request: SettingsRequest,
    has_cedar_sky: bool,
) -> (progress: Progress)
    ensures
        progress@ == progress_from(from, state, request, has_cedar_sky),
{
    let mut next: Option<Stage> = from;
    let mut current: SettingsState = state;
    let mut rest: SettingsRequest = request;
    loop
        invariant
            progress_from(next, current, rest, has_cedar_sky) == progress_from(
                from,
                state,
                request,
                has_cedar_sky,
            ),
        decreases stages_left(next),
    {
        let stage: Stage = match next {
            Some(stage) => stage,
            None => return Progress::Finished { state: current },
        };
        match plan_stage(stage, current, rest, has_cedar_sky) {
            Err(refusal) => return Progress::Refused { state: current, refusal },
            Ok(plan) => {
                if plan.actions.len() > 0 {
                    return Progress::Perform { stage, plan };
                }
                current = plan.state;
                rest = plan.request;
            },
        }
        next = next_stage(stage);
    }
}

/// How much to bin the images of a camera, and whether to sample the display image down once
/// more: nothing up to 0.75 megapixels, two by two up to 3, four by four beyond, and sampling too
/// beyond 12. What the command line asks for goes first.
pub open spec fn binning_for(
    width: int,
    height: int,
    args_binning: Option<u32>,
    args_display_sampling: Option<bool>,
) -> (u32, bool) {
    let pixels = width * height;
    (
        match args_binning {
            Some(binning) => binning,
            None => if pixels <= 750_000 {
                1
            } else if pixels <= 3_000_000 {
                2
            } else {
                4
            },
        },
        match args_display_sampling {
            Some(sampling) => sampling,
            None => pixels > 12_000_000,
        },
    )
}

/// Decides how much to bin the images of a camera.
pub fn compute_binning(
    width: u32,
    height: u32,
    args_binning: Option<u32>,
    args_display_sampling: Option<bool>,
) -> (r: (u32, bool))
    requires
        width * height <= u32::MAX,
    ensures
        r == binning_for(width as int, height as int, args_binning, args_display_sampling),
{
    let pixels: u32 = width * height;
    let mut binning: u32 = 1;
    let mut display_sampling: bool = false;
    if pixels <= 750_000 {
    } else if pixels <= 3_000_000 {
        binning = 2;
    } else if pixels <= 12_000_000 {
        binning = 4;
    } else {
        binning = 4;
        display_sampling = true;
    }
    if let Some(wanted) = args_binning {
        binning = wanted;
    }
    if let Some(wanted) = args_display_sampling {
        display_sampling = wanted;
    }
    (binning, display_sampling)
}

/// What a camera that was just put to use asks for: its time between frames, how to bin its
/// images, and that the boresight is forgotten where it no longer lies within them.
pub open spec fn new_camera_actions(
    state: SettingsState,
    width: int,
    height: int,
    args_binning: Option<u32>,
    args_display_sampling: Option<bool>,
    boresight: Option<ImageCoord>,
) -> Seq<Action> {
    let binning = binning_for(width, height, args_binning, args_display_sampling);
    seq![
        Action::SetUpdateInterval(
            if state.operating_mode == OperatingMode::Setup && state.focus_assist_mode {
                no_interval()
            } else {
                state.update_interval
            },
        ),
        Action::SetBinning { binning: binning.0, display_sampling: binning.1 },
        Action::ReplaceCamera,
    ] + (match boresight {
        Some(boresight) => if crate::preferences::boresight_fits(boresight, width, height) {
            seq![]
        } else {
            seq![Action::ForgetBoresight]
        },
        None => seq![],
    })
}

/// Plans what a camera that was just put to use asks for.
pub fn plan_new_camera(
    state: SettingsState,
    width: i32,
    height: i32,
    args_binning: Option<u32>,
    args_display_sampling: Option<bool>,
    boresight: Option<ImageCoord>,
) -> (actions: Vec<Action>)
    requires
        0 <= width,
        0 <= height,
        width * height <= u32::MAX,
    ensures
        actions@ == new_camera_actions(
            state,
            width as int,
            height as int,
            args_binning,
            args_display_sampling,
            boresight,
        ),
{
    let mut actions: Vec<Action> = Vec::new();
    let interval: Interval = if state.operating_mode == OperatingMode::Setup
        && state.focus_assist_mode {
        Interval { seconds: 0, nanos: 0 }
    } else {
        state.update_interval
    };
    actions.push(Action::SetUpdateInterval(interval));
    let (binning, display_sampling) = compute_binning(
        width as u32,
        height as u32,
        args_binning,
        args_display_sampling,
    );
    actions.push(Action::SetBinning { binning, display_sampling });
    actions.push(Action::ReplaceCamera);
    if let Some(boresight) = boresight {
        if !is_boresight_valid(boresight, width, height) {
            actions.push(Action::ForgetBoresight);
        }
    }
    assert(actions@ =~= new_camera_actions(
        state,
        width as int,
        height as int,
        args_binning,
        args_display_sampling,
        boresight,
    ));
    actions
}

/// While a calibration is under way no stage changes a mode: it is refused, or the mode stays.
pub proof fn law_modes_hold_while_calibrating(
    stage: Stage,
    state: SettingsState,
    request: SettingsRequest,
    has_cedar_sky: bool,
)
    requires
        state.calibrating,
        state.operating_mode == OperatingMode::Setup,
    ensures
        stage_plan(stage, state, request, has_cedar_sky) matches Ok(plan) ==> {
            &&& plan.state.operating_mode == state.operating_mode
            &&& plan.state.focus_assist_mode == state.focus_assist_mode
            &&& plan.state.daylight_mode == state.daylight_mode
            &&& plan.state.calibrating
        },
{
}

/// Operate mode is entered at once only from a setup mode that was calibrated; otherwise the plan
/// asks for a calibration and leaves the settings as they are.
pub proof fn law_operate_mode_is_calibrated(state: SettingsState, request: SettingsRequest)
    requires
        state.operating_mode == OperatingMode::Setup,
        request.operating_mode == Some(RequestedMode::Operate),
        !state.calibrating,
    ensures
        mode_plan(state, request) matches Ok(plan) && {
            if state.focus_assist_mode || state.daylight_mode {
                &&& plan.state == state
                &&& plan.actions == seq![
                    Action::SpawnCalibration {
                        operate_mode: true,
                        focus_mode: false,
                        daylight_mode: false,
                    },
                ]
            } else {
                plan.state.operating_mode == OperatingMode::Operate
            }
        },
{
}

/// The request that asks for nothing.
pub open spec fn empty_request() -> SettingsRequest {
    SettingsRequest {
        operating_mode: None,
        focus_assist_mode: None,
        daylight_mode: None,
        update_interval: None,
        dwell_update_interval: false,
        log_dwelled_positions: false,
        catalog_entry_match: false,
        demo_image_is_empty: None,
        invert_camera: None,
    }
}

/// A request that asks for nothing changes nothing, and nothing is done for it.
pub proof fn law_empty_request_changes_nothing(
    stage: Option<Stage>,
    state: SettingsState,
    has_cedar_sky: bool,
)
    ensures
        progress_from(stage, state, empty_request(), has_cedar_sky) == (ProgressView::Finished {
            state,
        }),
    decreases stages_left(stage),
{
    if let Some(current) = stage {
        law_empty_request_changes_nothing(stage_after(current), state, has_cedar_sky);
    }
}

/// A stage that is refused leaves the settings as the stages before it left them, and so does one
/// that has nothing to do.
pub proof fn law_settings_change_only_with_actions(
    stage: Option<Stage>,
    state: SettingsState,
    request: SettingsRequest,
    has_cedar_sky: bool,
)
    ensures
        match progress_from(stage, state, request, has_cedar_sky) {
            ProgressView::Perform { stage: at, plan } => {
                &&& plan.actions.len() > 0
                &&& stage_plan(at, state, request, has_cedar_sky) == Ok::<StagePlanView, Refusal>(
                    plan,
                )
            },
            ProgressView::Refused { state: left, refusal } => left == state,
            ProgressView::Finished { state: left } => left == state,
        },
    decreases stages_left(stage),
{
    if let Some(current) = stage {
        law_settings_change_only_with_actions(
            stage_after(current),
            state,
            request,
            has_cedar_sky,
        );
        assert(stage_plan(current, state, request, has_cedar_sky) matches Ok(plan) ==> (
        plan.actions.len() == 0 ==> plan.state == state && plan.request == request));
    }
}

/// Every stage is worked through once, starting with the mode.
pub proof fn law_stages_end()
    ensures
        stage_after(Stage::Invert) is None,
        forall|stage: Stage| stage_after(stage) is None ==> stage == Stage::Invert,
        forall|a: Stage, b: Stage|
            #[trigger] stage_after(a) is Some && stage_after(a) == #[trigger] stage_after(b) ==> a
                == b,
        forall|stage: Stage| #[trigger] stage_after(stage) != Some(Stage::Mode),
{
}

/// Setup mode is entered as the request says, and where it says nothing as the settings were. The
/// gain goes by daylight and is set first, stars are chosen to align by, the rotation, the
/// statistics and any slew end, and only to focus does the camera go back to full speed and to what
/// it starts with.
pub proof fn law_setup_mode_is_entered(
    state: SettingsState,
    request: SettingsRequest,
    has_cedar_sky: bool,
    plan: Result<StagePlan, Refusal>,
    focus: bool,
    daylight: bool,
)
    requires
        state.operating_mode == OperatingMode::Operate,
        !state.calibrating,
        request.operating_mode == Some(RequestedMode::Setup),
        request.focus_assist_mode == Some(focus) || (request.focus_assist_mode is None
            && state.focus_assist_mode == focus),
        request.daylight_mode == Some(daylight) || (request.daylight_mode is None
            && state.daylight_mode == daylight),
        call_ensures(plan_stage, (Stage::Mode, state, request, has_cedar_sky), plan),
    ensures
        plan matches Ok(plan) && {
            let actions = plan.actions@;
            &&& plan.state.operating_mode == OperatingMode::Setup
            &&& plan.state.focus_assist_mode == focus && plan.state.daylight_mode == daylight
            &&& plan.state.update_interval == state.update_interval && !plan.state.calibrating
            &&& plan.request.focus_assist_mode is None && plan.request.daylight_mode is None
            &&& plan.request.update_interval == request.update_interval
                && plan.request.invert_camera == request.invert_camera
                && plan.request.demo_image_is_empty == request.demo_image_is_empty
            &&& actions[0] == (Action::SetGain { daylight_mode: daylight })
            &&& actions.contains(Action::SetAlignMode(true))
            &&& actions.contains(Action::ForgetImageRotator)
            &&& actions.contains(Action::ResetSessionStats)
            &&& actions.contains(Action::SetFocusMode(focus))
            &&& actions.contains(Action::SetDaylightMode(daylight))
            &&& actions.last() == Action::StopSlew
            &&& actions.contains(
                Action::SetUpdateInterval(Interval { seconds: 0, nanos: 0 }),
            ) <==> focus
            &&& actions.contains(Action::SetPreCalibrationDefaults) <==> focus
            &&& actions.contains(Action::ForgetCalibratedExposure) <==> focus
            &&& actions.len() == (if focus {
                10int
            } else {
                7
            })
        },
{
    let actions = plan->Ok_0.actions@;
    if focus {
        assert(actions[1] == Action::SetUpdateInterval(Interval { seconds: 0, nanos: 0 }));
        assert(actions[2] == Action::SetPreCalibrationDefaults);
        assert(actions[3] == Action::SetAlignMode(true));
        assert(actions[4] == Action::ForgetImageRotator);
        assert(actions[5] == Action::ResetSessionStats);
        assert(actions[6] == Action::SetFocusMode(focus));
        assert(actions[7] == Action::SetDaylightMode(daylight));
        assert(actions[8] == Action::ForgetCalibratedExposure);
    } else {
        assert(actions[1] == Action::SetAlignMode(true));
        assert(actions[2] == Action::ForgetImageRotator);
        assert(actions[3] == Action::ResetSessionStats);
        assert(actions[4] == Action::SetFocusMode(focus));
        assert(actions[5] == Action::SetDaylightMode(daylight));
    }
}

/// Operate mode is entered from setup mode. Where that was neither focusing nor in daylight, the
/// solver starts at once, in the dark, at the pace that the user wants; else a calibration comes
/// first, and the settings wait for it.
pub proof fn law_operate_mode_is_entered(
    state: SettingsState,
    request: SettingsRequest,
    has_cedar_sky: bool,
    plan: Result<StagePlan, Refusal>,
)
    requires
        state.operating_mode == OperatingMode::Setup,
        !state.calibrating,
        request.operating_mode == Some(RequestedMode::Operate),
        call_ensures(plan_stage, (Stage::Mode, state, request, has_cedar_sky), plan),
    ensures
        plan matches Ok(plan) && {
            let actions = plan.actions@;
            &&& plan.request.focus_assist_mode is None && plan.request.daylight_mode is None
            &&& plan.state.update_interval == state.update_interval
            &&& state.focus_assist_mode || state.daylight_mode ==> {
                &&& plan.state == state
                &&& actions.len() == 1
                &&& actions[0] == (Action::SpawnCalibration {
                    operate_mode: true,
                    focus_mode: false,
                    daylight_mode: false,
                })
            }
            &&& !state.focus_assist_mode && !state.daylight_mode ==> {
                &&& plan.state.operating_mode == OperatingMode::Operate
                &&& actions.len() == 5
                &&& actions[0] == (Action::SetGain { daylight_mode: false })
                &&& actions.contains(Action::SetDaylightMode(false))
                &&& actions.contains(Action::SetAlignMode(false))
                &&& actions.contains(Action::StartSolver)
                &&& actions.contains(Action::SetUpdateInterval(state.update_interval))
            }
        },
{
    let actions = plan->Ok_0.actions@;
    if !state.focus_assist_mode && !state.daylight_mode {
        assert(actions[1] == Action::SetDaylightMode(false));
        assert(actions[2] == Action::SetAlignMode(false));
        assert(actions[3] == Action::StartSolver);
        assert(actions[4] == Action::SetUpdateInterval(state.update_interval));
    }
}

/// A request for the mode that is, or for none, does nothing. Any other is refused while
/// calibrating, and one for a mode that there is not at any time.
pub proof fn law_mode_requests_are_refused(
    state: SettingsState,
    request: SettingsRequest,
    has_cedar_sky: bool,
    plan: Result<StagePlan, Refusal>,
)
    requires
        call_ensures(plan_stage, (Stage::Mode, state, request, has_cedar_sky), plan),
    ensures
        ({
            let same = request.operating_mode is None || (request.operating_mode == Some(
                RequestedMode::Setup,
            ) && state.operating_mode == OperatingMode::Setup) || (request.operating_mode == Some(
                RequestedMode::Operate,
            ) && state.operating_mode == OperatingMode::Operate);
            &&& same ==> (plan matches Ok(plan) && plan.actions@.len() == 0 && plan.state == state
                && plan.request == request)
            &&& !same && state.calibrating ==> plan == Err::<StagePlan, Refusal>(
                Refusal::ModeWhileCalibrating,
            )
            &&& !state.calibrating ==> (request.operating_mode matches Some(mode) ==> (
            mode matches RequestedMode::Invalid(number) ==> plan == Err::<StagePlan, Refusal>(
                Refusal::InvalidMode(number),
            )))
            &&& plan is Err ==> state.calibrating || (request.operating_mode matches Some(mode)
                && mode is Invalid)
        }),
{
}

/// Daylight mode changes as asked, not while calibrating. Turning it off while aligning calibrates
/// first; in setup mode the gain goes along with it otherwise.
pub proof fn law_daylight_changes(
    state: SettingsState,
    request: SettingsRequest,
    has_cedar_sky: bool,
    daylight: bool,
    plan: Result<StagePlan, Refusal>,
)
    requires
        request.daylight_mode == Some(daylight),
        call_ensures(plan_stage, (Stage::Daylight, state, request, has_cedar_sky), plan),
    ensures
        plan is Err <==> state.calibrating && daylight != state.daylight_mode,
        plan matches Err(refusal) ==> refusal == Refusal::DaylightWhileCalibrating,
        plan matches Ok(plan) ==> {
            let actions = plan.actions@;
            let set_up = state.operating_mode == OperatingMode::Setup;
            let aligning_at_night = set_up && !state.focus_assist_mode && state.daylight_mode
                && !daylight;
            &&& plan.state.operating_mode == state.operating_mode && plan.state.focus_assist_mode
                == state.focus_assist_mode && plan.state.update_interval == state.update_interval
            &&& aligning_at_night ==> plan.state == state && actions.len() == 1 && (
            actions[0] matches Action::SpawnCalibration {
                operate_mode,
                focus_mode,
                daylight_mode,
            } && !operate_mode && !daylight_mode && focus_mode == (request.focus_assist_mode
                == Some(true)))
            &&& !aligning_at_night ==> plan.state.daylight_mode == daylight && actions.last()
                == Action::SetDaylightMode(daylight)
            &&& !aligning_at_night && set_up && daylight != state.daylight_mode ==> actions.len()
                == 2 && actions[0] == (Action::SetGain { daylight_mode: daylight })
            &&& !aligning_at_night && (!set_up || daylight == state.daylight_mode)
                ==> actions.len() == 1
            &&& daylight != state.daylight_mode ==> plan.request.focus_assist_mode is None
            &&& daylight == state.daylight_mode ==> plan.request == request
        },
{
}

/// Focus assist changes as asked, not while calibrating in setup mode. Turning it on there makes
/// the camera run at full speed with what it starts with; turning it off at night calibrates first.
pub proof fn law_focus_changes(
    state: SettingsState,
    request: SettingsRequest,
    has_cedar_sky: bool,
    focus: bool,
    plan: Result<StagePlan, Refusal>,
)
    requires
        request.focus_assist_mode == Some(focus),
        call_ensures(plan_stage, (Stage::Focus, state, request, has_cedar_sky), plan),
    ensures
        ({
            let changes = state.operating_mode == OperatingMode::Setup && focus
                != state.focus_assist_mode;
            &&& plan is Err <==> state.calibrating && changes
            &&& plan matches Err(refusal) ==> refusal == Refusal::FocusWhileCalibrating
            &&& plan matches Ok(plan) ==> {
                let actions = plan.actions@;
                &&& plan.request == request
                &&& plan.state.operating_mode == state.operating_mode && plan.state.daylight_mode
                    == state.daylight_mode && plan.state.update_interval == state.update_interval
                &&& changes && !focus && !state.daylight_mode ==> plan.state == state
                    && actions.len() == 1 && actions[0] == (Action::SpawnCalibration {
                    operate_mode: false,
                    focus_mode: false,
                    daylight_mode: false,
                })
                &&& !changes || focus || state.daylight_mode ==> plan.state.focus_assist_mode
                    == focus && actions.last() == Action::SetFocusMode(focus)
                &&& changes && focus ==> actions.len() == 4 && actions[0]
                    == Action::SetUpdateInterval(Interval { seconds: 0, nanos: 0 }) && actions[1]
                    == Action::SetPreCalibrationDefaults && actions[2] == (Action::SetGain {
                    daylight_mode: state.daylight_mode,
                })
                &&& !changes || (!focus && state.daylight_mode) ==> actions.len() == 1
            }
        }),
{
}

/// The time between frames is saved as asked and used at once unless the user is focusing. It
/// cannot be negative.
pub proof fn law_interval_changes(
    state: SettingsState,
    request: SettingsRequest,
    has_cedar_sky: bool,
    interval: Interval,
    plan: Result<StagePlan, Refusal>,
)
    requires
        request.update_interval == Some(interval),
        call_ensures(plan_stage, (Stage::Interval, state, request, has_cedar_sky), plan),
    ensures
        plan is Ok <==> interval.seconds >= 0 && interval.nanos >= 0,
        plan matches Err(refusal) ==> refusal == Refusal::NegativeInterval(interval),
        plan matches Ok(plan) ==> {
            let actions = plan.actions@;
            let focusing = state.operating_mode == OperatingMode::Setup && state.focus_assist_mode;
            &&& plan.request == request
            &&& plan.state == (SettingsState { update_interval: interval, ..state })
            &&& actions.last() == Action::SaveUpdateInterval(interval)
            &&& focusing ==> actions.len() == 1
            &&& !focusing ==> actions.len() == 2 && actions[0] == Action::SetUpdateInterval(
                interval,
            )
        },
{
}

/// What cannot be set is refused, what needs a catalog is refused without one, and the rest does
/// what it says and changes no mode. A stage that is not asked for does nothing.
pub proof fn law_other_stages(
    state: SettingsState,
    request: SettingsRequest,
    has_cedar_sky: bool,
    dwell: Result<StagePlan, Refusal>,
    catalog: Result<StagePlan, Refusal>,
    demo: Result<StagePlan, Refusal>,
    invert: Result<StagePlan, Refusal>,
)
    requires
        call_ensures(plan_stage, (Stage::Dwell, state, request, has_cedar_sky), dwell),
        call_ensures(plan_stage, (Stage::CatalogMatch, state, request, has_cedar_sky), catalog),
        call_ensures(plan_stage, (Stage::DemoImage, state, request, has_cedar_sky), demo),
        call_ensures(plan_stage, (Stage::Invert, state, request, has_cedar_sky), invert),
    ensures
        dwell is Ok <==> !request.dwell_update_interval && !request.log_dwelled_positions,
        request.dwell_update_interval ==> dwell == Err::<StagePlan, Refusal>(
            Refusal::DwellIntervalUnimplemented,
        ),
        request.log_dwelled_positions && !request.dwell_update_interval ==> dwell == Err::<
            StagePlan,
            Refusal,
        >(Refusal::LogDwelledUnimplemented),
        dwell matches Ok(plan) ==> plan.actions@.len() == 0 && plan.state == state,
        catalog is Err <==> request.catalog_entry_match && !has_cedar_sky,
        catalog matches Err(refusal) ==> refusal == Refusal::NoCedarSky,
        catalog matches Ok(plan) ==> plan.state == state && plan.request == request && (
        if request.catalog_entry_match {
            plan.actions@ == seq![Action::SetCatalogEntryMatch, Action::SaveCatalogEntryMatch]
        } else {
            plan.actions@.len() == 0
        }),
        demo matches Ok(plan) && plan.state == state && plan.request == request && (
        match request.demo_image_is_empty {
            None => plan.actions@.len() == 0,
            Some(empty) => plan.actions@.len() == 1 && (plan.actions@[0]
                == Action::UseConfiguredCamera <==> empty) && (plan.actions@[0]
                == Action::OpenDemoImage <==> !empty),
        }),
        invert matches Ok(plan) && plan.state == state && plan.request == request && (
        match request.invert_camera {
            None => plan.actions@.len() == 0,
            Some(inverted) => plan.actions@ == seq![Action::SetInverted(inverted)],
        }),
{
}

/// A request that asks for one thing only comes to the stage of that thing, whatever stages lie
/// before it; the stages run from the mode to the camera's orientation and then end.
pub proof fn law_single_requests_reach_their_stage(
    state: SettingsState,
    has_cedar_sky: bool,
    interval: Interval,
    inverted: bool,
    empty: bool,
    paced: Progress,
    turned: Progress,
    shown: Progress,
    undone: Progress,
    last: Option<Stage>,
)
    requires
        interval.seconds >= 0 && interval.nanos >= 0,
        call_ensures(
            update_operation_settings,
            (
                Some(Stage::Mode),
                state,
                SettingsRequest { update_interval: Some(interval), ..empty_request() },
                has_cedar_sky,
            ),
            paced,
        ),
        call_ensures(
            update_operation_settings,
            (
                Some(Stage::Mode),
                state,
                SettingsRequest { invert_camera: Some(inverted), ..empty_request() },
                has_cedar_sky,
            ),
            turned,
        ),
        call_ensures(
            update_operation_settings,
            (
                Some(Stage::Mode),
                state,
                SettingsRequest { demo_image_is_empty: Some(empty), ..empty_request() },
                has_cedar_sky,
            ),
            shown,
        ),
        call_ensures(
            update_operation_settings,
            (
                Some(Stage::Mode),
                state,
                SettingsRequest { log_dwelled_positions: true, ..empty_request() },
                has_cedar_sky,
            ),
            undone,
        ),
        call_ensures(next_stage, (Stage::Invert,), last),
    ensures
        paced matches Progress::Perform { stage, plan } && stage == Stage::Interval
            && plan.state.update_interval == interval && plan.actions@.last()
            == Action::SaveUpdateInterval(interval),
        turned matches Progress::Perform { stage, plan } && stage == Stage::Invert && plan.state
            == state && plan.actions@ == seq![Action::SetInverted(inverted)],
        shown matches Progress::Perform { stage, plan } && stage == Stage::DemoImage && plan.state
            == state,
        undone matches Progress::Refused { state: left, refusal } && left == state && refusal
            == Refusal::LogDwelledUnimplemented,
        last is None,
{
    reveal_with_fuel(progress_from, 9);
}

/// Where a request ends without a refusal, no stage from there on had anything to do. Where it
/// stops at a stage, that stage does something or is refused.
pub proof fn law_no_stage_is_skipped(
    from: Option<Stage>,
    state: SettingsState,
    request: SettingsRequest,
    has_cedar_sky: bool,
    progress: Progress,
    stage: Stage,
    plan: Result<StagePlan, Refusal>,
)
    requires
        call_ensures(update_operation_settings, (from, state, request, has_cedar_sky), progress),
        call_ensures(plan_stage, (stage, state, request, has_cedar_sky), plan),
        stages_left(Some(stage)) <= stages_left(from),
    ensures
        progress is Finished ==> (plan matches Ok(plan) && plan.actions@.len() == 0),
        progress matches Progress::Perform { stage: at, plan: done } ==> done.actions@.len() > 0,
{
    lemma_finished_is_idle(from, state, request, has_cedar_sky, stage);
    law_settings_change_only_with_actions(from, state, request, has_cedar_sky);
}

/// Where a request ends without a refusal, no stage from there on had anything to do.
proof fn lemma_finished_is_idle(
    from: Option<Stage>,
    state: SettingsState,
    request: SettingsRequest,
    has_cedar_sky: bool,
    stage: Stage,
)
    requires
        stages_left(Some(stage)) <= stages_left(from),
    ensures
        progress_from(from, state, request, has_cedar_sky) is Finished ==> (
        stage_plan(stage, state, request, has_cedar_sky) matches Ok(plan) && plan.actions.len()
            == 0),
    decreases stages_left(from),
{
    if let Some(current) = from {
        assert(stage_plan(current, state, request, has_cedar_sky) matches Ok(plan) ==> (
        plan.actions.len() == 0 ==> plan.state == state && plan.request == request));
        if current != stage {
            lemma_finished_is_idle(stage_after(current), state, request, has_cedar_sky, stage);
        }
    }
}

/// Images are binned just as much as it takes to have no more than 750 thousand pixels left, by
/// one, two or four; the display is sampled once more where even four does not do. What the command
/// line asks for goes first.
pub proof fn law_binning_goes_by_the_size(
    width: u32,
    height: u32,
    wanted: u32,
    sampled: bool,
    plain: (u32, bool),
    told: (u32, bool),
)
    requires
        width * height <= u32::MAX,
        call_ensures(compute_binning, (width, height, None::<u32>, None::<bool>), plain),
        call_ensures(compute_binning, (width, height, Some(wanted), Some(sampled)), told),
    ensures
        told == (wanted, sampled),
        plain.0 == 1 || plain.0 == 2 || plain.0 == 4,
        plain.1 <==> width * height > 12_000_000,
        !plain.1 ==> width * height <= 750_000 * (plain.0 * plain.0),
        plain.0 == 2 ==> width * height > 750_000,
        plain.0 == 4 ==> width * height > 3_000_000,
{
    let n = plain.0 as int;
    assert(n == 1 ==> n * n == 1) by (nonlinear_arith);
    assert(n == 2 ==> n * n == 4) by (nonlinear_arith);
    assert(n == 4 ==> n * n == 16) by (nonlinear_arith);
}

/// A camera that was just put to use runs at full speed while focusing and at the user's pace
/// otherwise, its images are binned by their size, and a boresight that lies no longer within them,
/// sixteen pixels from the edge, is forgotten.
pub proof fn law_new_camera_is_set_up(
    state: SettingsState,
    width: i32,
    height: i32,
    boresight: ImageCoord,
    actions: Vec<Action>,
    without: Vec<Action>,
)
    requires
        0 <= width && 0 <= height,
        width * height <= u32::MAX,
        call_ensures(
            plan_new_camera,
            (state, width, height, None::<u32>, None::<bool>, Some(boresight)),
            actions,
        ),
        call_ensures(
            plan_new_camera,
            (state, width, height, None::<u32>, None::<bool>, None::<ImageCoord>),
            without,
        ),
    ensures
        actions@[0] == Action::SetUpdateInterval(
            if state.operating_mode == OperatingMode::Setup && state.focus_assist_mode {
                Interval { seconds: 0, nanos: 0 }
            } else {
                state.update_interval
            },
        ),
        actions@[1] matches Action::SetBinning { binning, display_sampling } && (display_sampling
            <==> width * height > 12_000_000) && (binning == 1 <==> width * height <= 750_000),
        actions@[2] == Action::ReplaceCamera,
        without@ == actions@.take(3),
        ({
            let inside = 16_000_000 <= boresight.x <= 1_000_000 * (width - 16) && 16_000_000
                <= boresight.y <= 1_000_000 * (height - 16);
            &&& inside ==> actions@.len() == 3
            &&& !inside ==> actions@.len() == 4 && actions@[3] == Action::ForgetBoresight
        }),
{
    assert(without@ =~= actions@.take(3));
}

} // verus!
