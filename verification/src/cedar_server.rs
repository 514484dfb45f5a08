//! What the server decides on behalf of its clients.

use vstd::prelude::*;
use vstd::string::*;

use crate::astro_util::ImageCoord;
use crate::calibration::CanonicalErrorCode;
use crate::cedar::{
    CelestialCoord, LatLong, MountType, OperatingMode, SearchOrder, SlewRequest,
};
use crate::image_utils::ImageRotator;
use crate::operation_settings::Refusal;
use crate::position_reporter::TelescopePosition;
use crate::text;
use crate::text::push_decimal;

verus! {

broadcast use vstd::string::group_string_axioms;

/// The kind of error that a refusal of settings is.
pub open spec fn refusal_value(refusal: Refusal) -> CanonicalErrorCode {
    match refusal {
        Refusal::ModeWhileCalibrating => CanonicalErrorCode::FailedPrecondition,
        Refusal::DaylightWhileCalibrating => CanonicalErrorCode::FailedPrecondition,
        Refusal::FocusWhileCalibrating => CanonicalErrorCode::FailedPrecondition,
        Refusal::InvalidMode(_) => CanonicalErrorCode::InvalidArgument,
        Refusal::NegativeInterval(_) => CanonicalErrorCode::InvalidArgument,
        Refusal::DwellIntervalUnimplemented => CanonicalErrorCode::Unimplemented,
        Refusal::LogDwelledUnimplemented => CanonicalErrorCode::Unimplemented,
        Refusal::NoCedarSky => CanonicalErrorCode::Unimplemented,
    }
}

/// The kind of error that a refusal of settings is.
pub fn refusal_code(refusal: Refusal) -> (code: CanonicalErrorCode)
    ensures
        code == refusal_value(refusal),
{
    match refusal {
        Refusal::ModeWhileCalibrating => CanonicalErrorCode::FailedPrecondition,
        Refusal::DaylightWhileCalibrating => CanonicalErrorCode::FailedPrecondition,
        Refusal::FocusWhileCalibrating => CanonicalErrorCode::FailedPrecondition,
        Refusal::InvalidMode(_) => CanonicalErrorCode::InvalidArgument,
        Refusal::NegativeInterval(_) => CanonicalErrorCode::InvalidArgument,
        Refusal::DwellIntervalUnimplemented => CanonicalErrorCode::Unimplemented,
        Refusal::LogDwelledUnimplemented => CanonicalErrorCode::Unimplemented,
        Refusal::NoCedarSky => CanonicalErrorCode::Unimplemented,
    }
}

/// An integer in decimal.
pub open spec fn integer_text(n: int) -> Seq<char> {
    if n < 0 {
        seq!['-'] + text::decimal((-n) as nat)
    } else {
        text::decimal(n as nat)
    }
}

/// What a client is told of a refusal of settings. `interval` is the time between frames that it
/// asked for, in words.
pub open spec fn refusal_text(refusal: Refusal, product: Seq<char>, interval: Seq<char>) -> Seq<
    char,
> {
    match refusal {
        Refusal::ModeWhileCalibrating => "Cannot change operating mode while calibrating"@,
        Refusal::DaylightWhileCalibrating => "Cannot change daylight mode while calibrating"@,
        Refusal::FocusWhileCalibrating => "Cannot change focus assist mode while calibrating"@,
        Refusal::InvalidMode(number) => "Got invalid operating_mode: "@ + integer_text(
            number as int,
        ) + "."@,
        Refusal::NegativeInterval(_) => "Got negative update_interval: "@ + interval + "."@,
        Refusal::DwellIntervalUnimplemented =>
            "rpc UpdateOperationSettings not implemented for dwell_update_interval."@,
        Refusal::LogDwelledUnimplemented =>
            "rpc UpdateOperationSettings not implemented for log_dwelled_positions."@,
        Refusal::NoCedarSky => product + " does not include Cedar Sky."@,
    }
}

/// Puts a refusal of settings in words.
pub fn refusal_message(refusal: Refusal, product: &str, interval: &str) -> (message: String)
    ensures
        message@ == refusal_text(refusal, product@, interval@),
{
    match refusal {
        Refusal::ModeWhileCalibrating =>
            "Cannot change operating mode while calibrating".to_owned(),
        Refusal::DaylightWhileCalibrating =>
            "Cannot change daylight mode while calibrating".to_owned(),
        Refusal::FocusWhileCalibrating =>
            "Cannot change focus assist mode while calibrating".to_owned(),
        Refusal::InvalidMode(number) => {
            let mut message: String = "Got invalid operating_mode: ".to_owned();
            let ghost start = message@;
            let n: i64 = number as i64;
            if n < 0 {
                message.push('-');
                push_decimal(&mut message, (-n) as u64);
            } else {
                push_decimal(&mut message, n as u64);
            }
            assert(message@ =~= start + integer_text(number as int));
            message.append(".");
            message
        },
        Refusal::NegativeInterval(_) => {
            let mut message: String = "Got negative update_interval: ".to_owned();
            message.append(interval);
            message.append(".");
            message
        },
        Refusal::DwellIntervalUnimplemented =>
            "rpc UpdateOperationSettings not implemented for dwell_update_interval.".to_owned(),
        Refusal::LogDwelledUnimplemented =>
            "rpc UpdateOperationSettings not implemented for log_dwelled_positions.".to_owned(),
        Refusal::NoCedarSky => {
            let mut message: String = product.to_owned();
            message.append(" does not include Cedar Sky.");
            message
        },
    }
}

/// A part of a request to change settings that do not change while observing.
#[derive(Clone, Copy, Debug, PartialEq, Eq, Structural)]
pub enum FixedStep {
    /// Set the place of the observer, and save it with the preferences.
    SetObserverLocation,
    /// Set the clock. This can fail.
    SetClock,
}

/// Why a request to change settings that do not change while observing is refused.
#[derive(Clone, Copy, Debug, PartialEq, Eq, Structural)]
pub enum FixedRefusal {
    /// A session cannot be named.
    SessionName,
    /// The longest exposure cannot be set.
    MaxExposureTime,
}

/// Plans a request to change settings that do not change while observing: what is to be done, in
/// order, and whether the request is refused after that.
pub fn plan_fixed_settings(
    observer_location: bool,
    current_time: bool,
    session_name: bool,
    max_exposure_time: bool,
) -> (r: (Vec<FixedStep>, Option<FixedRefusal>))
    ensures
        r.0@ == (if observer_location {
            seq![FixedStep::SetObserverLocation]
        } else {
            seq![]
        }) + (if current_time {
            seq![FixedStep::SetClock]
        } else {
            seq![]
        }),
        r.1 == (if session_name {
            Some(FixedRefusal::SessionName)
        } else if max_exposure_time {
            Some(FixedRefusal::MaxExposureTime)
        } else {
            None
        }),
{
    let mut steps: Vec<FixedStep> = Vec::new();
    if observer_location {
        steps.push(FixedStep::SetObserverLocation);
    }
    if current_time {
        steps.push(FixedStep::SetClock);
    }
    assert(steps@ =~= (if observer_location {
        seq![FixedStep::SetObserverLocation]
    } else {
        seq![]
    }) + (if current_time {
        seq![FixedStep::SetClock]
    } else {
        seq![]
    }));
    let refusal: Option<FixedRefusal> = if session_name {
        Some(FixedRefusal::SessionName)
    } else if max_exposure_time {
        Some(FixedRefusal::MaxExposureTime)
    } else {
        None
    };
    (steps, refusal)
}

/// Whether two times, in seconds, are less than a minute apart. A clock that could not be set
/// matters little then.
pub fn is_clock_close(now: i64, wanted: i64) -> (close: bool)
    ensures
        close == (-60 < now - wanted < 60),
{
    let apart: i128 = now as i128 - wanted as i128;
    -60 < apart && apart < 60
}

/// A part of a request for an action.
#[derive(Clone, Copy, Debug, PartialEq, Eq, Structural)]
pub enum ActionStep {
    /// Cancel the calibration, if one is under way.
    CancelCalibration,
    /// Take the target of the slew as the boresight.
    CaptureBoresight,
    /// Take a place of the shown image as the boresight.
    DesignateBoresight,
    /// Shut the computer down.
    Shutdown,
    /// Start the computer anew.
    Restart,
    /// Start a slew.
    InitiateSlew,
    /// End a slew.
    StopSlew,
    /// Save the image.
    SaveImage,
    /// Change the wireless network.
    UpdateWifi,
}

/// A request for actions.
#[derive(Clone, Copy, Debug, PartialEq, Eq, Structural)]
pub struct ActionRequest {
    /// Cancel the calibration.
    pub cancel_calibration: bool,
    /// Take the target of the slew as the boresight.
    pub capture_boresight: bool,
    /// Take a place of the shown image as the boresight.
    pub designate_boresight: bool,
    /// Shut the computer down.
    pub shutdown_server: bool,
    /// Start the computer anew.
    pub restart_server: bool,
    /// Start a slew.
    pub initiate_slew: bool,
    /// End a slew.
    pub stop_slew: bool,
    /// Save the image.
    pub save_image: bool,
    /// Change the wireless network.
    pub update_wifi_access_point: bool,
}

/// A step, where it was asked for.
pub open spec fn step_if(wanted: bool, step: ActionStep) -> Seq<ActionStep> {
    if wanted {
        seq![step]
    } else {
        seq![]
    }
}

/// The steps that a request for actions asks for, in order.
pub open spec fn action_steps(request: ActionRequest) -> Seq<ActionStep> {
    step_if(request.cancel_calibration, ActionStep::CancelCalibration) + step_if(
        request.capture_boresight,
        ActionStep::CaptureBoresight,
    ) + step_if(request.designate_boresight, ActionStep::DesignateBoresight) + step_if(
        request.shutdown_server,
        ActionStep::Shutdown,
    ) + step_if(request.restart_server, ActionStep::Restart) + step_if(
        request.initiate_slew,
        ActionStep::InitiateSlew,
    ) + step_if(request.stop_slew, ActionStep::StopSlew) + step_if(
        request.save_image,
        ActionStep::SaveImage,
    ) + step_if(request.update_wifi_access_point, ActionStep::UpdateWifi)
}

/// Appends a step, where it was asked for.
fn push_step(steps: &mut Vec<ActionStep>, wanted: bool, step: ActionStep)
    ensures
        final(steps)@ == old(steps)@ + step_if(wanted, step),
{
    if wanted {
        steps.push(step);
    }
    assert(steps@ =~= old(steps)@ + step_if(wanted, step));
}

/// Plans the steps of a request for actions. The first that fails ends the request.
pub fn plan_actions(request: ActionRequest) -> (steps: Vec<ActionStep>)
    ensures
        steps@ == action_steps(request),
{
    let mut steps: Vec<ActionStep> = Vec::new();
    push_step(&mut steps, request.cancel_calibration, ActionStep::CancelCalibration);
    push_step(&mut steps, request.capture_boresight, ActionStep::CaptureBoresight);
    push_step(&mut steps, request.designate_boresight, ActionStep::DesignateBoresight);
    push_step(&mut steps, request.shutdown_server, ActionStep::Shutdown);
    push_step(&mut steps, request.restart_server, ActionStep::Restart);
    push_step(&mut steps, request.initiate_slew, ActionStep::InitiateSlew);
    push_step(&mut steps, request.stop_slew, ActionStep::StopSlew);
    push_step(&mut steps, request.save_image, ActionStep::SaveImage);
    push_step(&mut steps, request.update_wifi_access_point, ActionStep::UpdateWifi);
    assert(steps@ =~= action_steps(request));
    steps
}

/// Why an action is refused.
#[derive(Clone, Copy, Debug, PartialEq, Eq, Structural)]
pub enum ActionRefusal {
    /// A boresight cannot be captured in setup mode.
    CaptureInSetup,
    /// There is no slew whose target could be the boresight.
    NoSlewActive,
    /// An alt-az mount needs the place of the observer.
    NeedObserverLocation,
    /// The wireless network is not under control.
    NoWifi,
    /// There is no sky catalog.
    NoCedarSky,
}

/// The kind of error that a refusal of an action is, and what a client is told of it.
pub fn action_refusal_message(refusal: ActionRefusal, product: &str) -> (r: (
    CanonicalErrorCode,
    String,
))
    ensures
        r.0 == (match refusal {
            ActionRefusal::NoWifi => CanonicalErrorCode::Unimplemented,
            ActionRefusal::NoCedarSky => CanonicalErrorCode::Unimplemented,
            _ => CanonicalErrorCode::FailedPrecondition,
        }),
        r.1@ == (match refusal {
            ActionRefusal::CaptureInSetup => "Capture boresight not valid in setup mode."@,
            ActionRefusal::NoSlewActive => "No slew request active"@,
            ActionRefusal::NeedObserverLocation =>
                "Need observer location for goto with alt-az mount"@,
            ActionRefusal::NoWifi => product@ + " does not include WiFi control."@,
            ActionRefusal::NoCedarSky => "Cedar Sky is not present"@,
        }),
{
    match refusal {
        ActionRefusal::CaptureInSetup => (
            CanonicalErrorCode::FailedPrecondition,
            "Capture boresight not valid in setup mode.".to_owned(),
        ),
        ActionRefusal::NoSlewActive => (
            CanonicalErrorCode::FailedPrecondition,
            "No slew request active".to_owned(),
        ),
        ActionRefusal::NeedObserverLocation => (
            CanonicalErrorCode::FailedPrecondition,
            "Need observer location for goto with alt-az mount".to_owned(),
        ),
        ActionRefusal::NoWifi => {
            let mut message: String = product.to_owned();
            message.append(" does not include WiFi control.");
            (CanonicalErrorCode::Unimplemented, message)
        },
        ActionRefusal::NoCedarSky => (
            CanonicalErrorCode::Unimplemented,
            "Cedar Sky is not present".to_owned(),
        ),
    }
}

/// The boresight that the target of a slew stands for. It lies in the image.
pub fn capture_boresight(operating_mode: OperatingMode, slew_request: Option<SlewRequest>) -> (r:
    Result<ImageCoord, ActionRefusal>)
    requires
        operating_mode == OperatingMode::Operate ==> (slew_request matches Some(slew)
            ==> slew.image_pos is Some),
    ensures
        r == (if operating_mode == OperatingMode::Setup {
            Err::<ImageCoord, ActionRefusal>(ActionRefusal::CaptureInSetup)
        } else {
            match slew_request {
                Some(slew) => Ok(slew.image_pos->0),
                None => Err(ActionRefusal::NoSlewActive),
            }
        }),
{
    if operating_mode == OperatingMode::Setup {
        return Err(ActionRefusal::CaptureInSetup);
    }
    match slew_request {
        Some(slew) => Ok(slew.image_pos.unwrap()),
        None => Err(ActionRefusal::NoSlewActive),
    }
}

/// The boresight that a place of the shown image stands for. Neither focusing nor in daylight the
/// image that was shown may have been rotated.
pub fn designate_boresight(
    place: ImageCoord,
    focus_mode: bool,
    daylight_mode: bool,
    image_rotator: Option<ImageRotator>,
    width: u32,
    height: u32,
) -> (boresight: ImageCoord)
    requires
        crate::image_utils::in_reach(place),
        image_rotator matches Some(rotator) ==> rotator.wf(),
    ensures
        (boresight.x as int, boresight.y as int) == (match image_rotator {
            Some(rotator) => if !focus_mode && !daylight_mode {
                rotator.from_rotated(place, width as int, height as int)
            } else {
                (place.x as int, place.y as int)
            },
            None => (place.x as int, place.y as int),
        }),
{
    match image_rotator {
        Some(rotator) => if !focus_mode && !daylight_mode {
            rotator.transform_from_rotated(place, width, height)
        } else {
            place
        },
        None => place,
    }
}

/// Starts a slew. An alt-az mount can only be told where to go where the place of the observer
/// is known.
pub fn initiate_slew(
    position: &mut TelescopePosition,
    target: CelestialCoord,
    mount_type: Option<MountType>,
    observer_location_known: bool,
) -> (r: Result<(), ActionRefusal>)
    ensures
        mount_type == Some(MountType::AltAz) && !observer_location_known ==> {
            &&& r == Err::<(), ActionRefusal>(ActionRefusal::NeedObserverLocation)
            &&& *final(position) == *old(position)
        },
        mount_type != Some(MountType::AltAz) || observer_location_known ==> {
            &&& r == Ok::<(), ActionRefusal>(())
            &&& *final(position) == (TelescopePosition {
                slew_target_ra: target.ra,
                slew_target_dec: target.dec,
                slew_active: true,
                ..*old(position)
            })
        },
{
    if let Some(MountType::AltAz) = mount_type {
        if !observer_location_known {
            return Err(ActionRefusal::NeedObserverLocation);
        }
    }
    position.slew_target_ra = target.ra;
    position.slew_target_dec = target.dec;
    position.slew_active = true;
    Ok(())
}

/// How a catalog search is sorted, from the number in the request: by brightness where it names
/// nothing else.
pub fn search_order(number: Option<i32>) -> (order: SearchOrder)
    ensures
        order == (match number {
            Some(2) => SearchOrder::SkyLocation,
            Some(3) => SearchOrder::Elevation,
            _ => SearchOrder::Brightness,
        }),
{
    match number {
        Some(2) => SearchOrder::SkyLocation,
        Some(3) => SearchOrder::Elevation,
        _ => SearchOrder::Brightness,
    }
}

/// A catalog search, as far as the server fills it in.
#[derive(Clone, Copy, Debug, PartialEq, Eq, Structural)]
pub struct CatalogQuery {
    /// How the results are sorted.
    pub order: SearchOrder,
    /// How many results there may be.
    pub limit: Option<usize>,
    /// Where distances are counted from.
    pub sky_location: Option<CelestialCoord>,
    /// Where the observer is.
    pub observer_location: Option<LatLong>,
}

/// Plans a catalog search. Distances are counted from the boresight of the current solution.
pub fn plan_catalog_query(
    has_cedar_sky: bool,
    order: Option<i32>,
    limit: Option<u32>,
    boresight: Option<CelestialCoord>,
    observer_location: Option<LatLong>,
) -> (r: Result<CatalogQuery, ActionRefusal>)
    ensures
        !has_cedar_sky ==> r == Err::<CatalogQuery, ActionRefusal>(ActionRefusal::NoCedarSky),
        has_cedar_sky ==> (r matches Ok(query) && {
            &&& query.order == (match order {
                Some(2) => SearchOrder::SkyLocation,
                Some(3) => SearchOrder::Elevation,
                _ => SearchOrder::Brightness,
            })
            &&& query.limit == (match limit {
                Some(limit) => Some(limit as usize),
                None => None,
            })
            &&& query.sky_location == boresight
            &&& query.observer_location == observer_location
        }),
{
    if !has_cedar_sky {
        return Err(ActionRefusal::NoCedarSky);
    }
    Ok(
        CatalogQuery {
            order: search_order(order),
            limit: match limit {
                Some(limit) => Some(limit as usize),
                None => None,
            },
            sky_location: boresight,
            observer_location,
        },
    )
}

/// What a solution, or its absence, changes.
#[derive(Clone, Copy, Debug, PartialEq, Eq, Structural)]
pub struct Observed {
    /// The boresight that the preferences hold.
    pub preferred_boresight: Option<ImageCoord>,
    /// The place of the observer that the preferences hold.
    pub preferred_location: Option<LatLong>,
    /// The place of the observer.
    pub observer_location: Option<LatLong>,
    /// The position shared with planetarium clients.
    pub position: TelescopePosition,
}

/// What the solver is told in return.
#[derive(Clone, Copy, Debug, PartialEq, Eq, Structural)]
pub struct CallbackResult {
    /// Where the telescope is sent, if it is.
    pub slew_target: Option<CelestialCoord>,
    /// Where a client says that the telescope points, if it does.
    pub sync_coord: Option<CelestialCoord>,
    /// Whether the preferences are to be saved.
    pub save_preferences: bool,
}

/// Whether the boresight differs from the one that the preferences hold.
pub open spec fn boresight_changes(observed: Observed, boresight: Option<ImageCoord>) -> bool {
    boresight is Some && observed.preferred_boresight != boresight
}

/// Whether a client has reported where the observer is, and there is a solution to go with it.
pub open spec fn site_is_reported(observed: Observed, solution: Option<CelestialCoord>) -> bool {
    &&& solution is Some
    &&& observed.position.site_latitude is Some
    &&& observed.position.site_longitude is Some
}

/// Whether a client has synced, and there is a solution to go with it.
pub open spec fn sync_is_reported(observed: Observed, solution: Option<CelestialCoord>) -> bool {
    &&& solution is Some
    &&& observed.position.sync_ra is Some
    &&& observed.position.sync_dec is Some
}

/// The shared position after a solution or its absence: where the telescope points, or that this
/// is stale. What a client reported is consumed.
pub open spec fn observed_position(
    observed: Observed,
    solution: Option<CelestialCoord>,
) -> TelescopePosition {
    match solution {
        Some(coords) => TelescopePosition {
            boresight_ra: coords.ra,
            boresight_dec: coords.dec,
            boresight_valid: true,
            site_latitude: if site_is_reported(observed, solution) {
                None
            } else {
                observed.position.site_latitude
            },
            site_longitude: if site_is_reported(observed, solution) {
                None
            } else {
                observed.position.site_longitude
            },
            sync_ra: if sync_is_reported(observed, solution) {
                None
            } else {
                observed.position.sync_ra
            },
            sync_dec: if sync_is_reported(observed, solution) {
                None
            } else {
                observed.position.sync_dec
            },
            ..observed.position
        },
        None => TelescopePosition { boresight_valid: false, ..observed.position },
    }
}

/// The place that a client reported.
pub open spec fn reported_site(observed: Observed) -> LatLong {
    LatLong {
        latitude: observed.position.site_latitude->0,
        longitude: observed.position.site_longitude->0,
    }
}

/// What is known after a solution or its absence.
pub open spec fn observed_after(
    observed: Observed,
    boresight: Option<ImageCoord>,
    solution: Option<CelestialCoord>,
) -> Observed {
    let site = if site_is_reported(observed, solution) {
        Some(reported_site(observed))
    } else {
        None
    };
    Observed {
        preferred_boresight: if boresight_changes(observed, boresight) {
            boresight
        } else {
            observed.preferred_boresight
        },
        preferred_location: if site is Some {
            site
        } else {
            observed.preferred_location
        },
        observer_location: if site is Some {
            site
        } else {
            observed.observer_location
        },
        position: observed_position(observed, solution),
    }
}

/// Takes note of a solution, by the place in the sky that the telescope points at, or of its
/// absence. What planetarium clients have reported since is picked up along with a solution.
pub fn solution_callback(
    observed: &mut Observed,
    boresight_pixel: Option<ImageCoord>,
    solution: Option<CelestialCoord>,
) -> (r: CallbackResult)
    ensures
        *final(observed) == observed_after(*old(observed), boresight_pixel, solution),
        r.slew_target == (if old(observed).position.slew_active {
            Some(
                CelestialCoord {
                    ra: old(observed).position.slew_target_ra,
                    dec: old(observed).position.slew_target_dec,
                },
            )
        } else {
            None
        }),
        r.sync_coord == (if sync_is_reported(*old(observed), solution) {
            Some(
                CelestialCoord {
                    ra: old(observed).position.sync_ra->0,
                    dec: old(observed).position.sync_dec->0,
                },
            )
        } else {
            None
        }),
        r.save_preferences == (boresight_changes(*old(observed), boresight_pixel)
            || site_is_reported(*old(observed), solution)),
{
    let mut save_preferences: bool = false;
    if let Some(boresight) = boresight_pixel {
        let same: bool = match observed.preferred_boresight {
            Some(preferred) => preferred == boresight,
            None => false,
        };
        if !same {
            observed.preferred_boresight = Some(boresight);
            save_preferences = true;
        }
    }
    let mut sync_coord: Option<CelestialCoord> = None;
    match solution {
        None => {
            observed.position.boresight_valid = false;
        },
        Some(coords) => {
            observed.position.boresight_ra = coords.ra;
            observed.position.boresight_dec = coords.dec;
            observed.position.boresight_valid = true;
            if let (Some(latitude), Some(longitude)) = (
                observed.position.site_latitude,
                observed.position.site_longitude,
            ) {
                let site = LatLong { latitude, longitude };
                observed.observer_location = Some(site);
                observed.position.site_latitude = None;
                observed.position.site_longitude = None;
                observed.preferred_location = Some(site);
                save_preferences = true;
            }
            if let (Some(ra), Some(dec)) = (observed.position.sync_ra, observed.position.sync_dec) {
                sync_coord = Some(CelestialCoord { ra, dec });
                observed.position.sync_ra = None;
                observed.position.sync_dec = None;
            }
        },
    }
    let slew_target: Option<CelestialCoord> = if observed.position.slew_active {
        Some(
            CelestialCoord {
                ra: observed.position.slew_target_ra,
                dec: observed.position.slew_target_dec,
            },
        )
    } else {
        None
    };
    CallbackResult { slew_target, sync_coord, save_preferences }
}

/// What a client reports is consumed once: a second solution finds nothing new.
pub proof fn law_reports_are_consumed(
    observed: Observed,
    boresight: Option<ImageCoord>,
    first: CelestialCoord,
    second: CelestialCoord,
)
    requires
        observed.position.site_latitude is Some <==> observed.position.site_longitude is Some,
        observed.position.sync_ra is Some <==> observed.position.sync_dec is Some,
    ensures
        ({
            let after = observed_after(observed, boresight, Some(first));
            &&& !site_is_reported(after, Some(second))
            &&& !sync_is_reported(after, Some(second))
            &&& !boresight_changes(after, boresight)
            &&& after.position.boresight_valid
        }),
{
}

/// A change that a calibration forbids fails until it ends, a value that means nothing is a bad
/// argument, and what the server cannot do is not implemented.
pub proof fn law_refusals_have_their_kind(
    refusal: Refusal,
    code: CanonicalErrorCode,
    action: ActionRefusal,
    product: &str,
    answer: (CanonicalErrorCode, String),
)
    requires
        call_ensures(refusal_code, (refusal,), code),
        call_ensures(action_refusal_message, (action, product), answer),
    ensures
        code == CanonicalErrorCode::FailedPrecondition <==> refusal is ModeWhileCalibrating
            || refusal is DaylightWhileCalibrating || refusal is FocusWhileCalibrating,
        code == CanonicalErrorCode::InvalidArgument <==> refusal is InvalidMode
            || refusal is NegativeInterval,
        code == CanonicalErrorCode::Unimplemented <==> refusal is DwellIntervalUnimplemented
            || refusal is LogDwelledUnimplemented || refusal is NoCedarSky,
        answer.0 == CanonicalErrorCode::Unimplemented <==> action is NoWifi || action is NoCedarSky,
        answer.0 == CanonicalErrorCode::FailedPrecondition <==> action is CaptureInSetup
            || action is NoSlewActive || action is NeedObserverLocation,
{
}

/// A refusal names what was asked for: the number of the mode, the interval, or the product that
/// lacks a part. Two refusals of different kinds are told apart by their words.
pub proof fn law_refusals_say_what_was_wrong(
    number: i32,
    interval: crate::preferences::Interval,
    product: &str,
    words: &str,
    of_mode: String,
    of_interval: String,
    of_sky: String,
    of_wifi: (CanonicalErrorCode, String),
)
    requires
        call_ensures(refusal_message, (Refusal::InvalidMode(number), product, words), of_mode),
        call_ensures(
            refusal_message,
            (Refusal::NegativeInterval(interval), product, words),
            of_interval,
        ),
        call_ensures(refusal_message, (Refusal::NoCedarSky, product, words), of_sky),
        call_ensures(action_refusal_message, (ActionRefusal::NoWifi, product), of_wifi),
    ensures
        number >= 0 ==> of_mode@ == "Got invalid operating_mode: "@ + text::decimal(number as nat)
            + "."@,
        number < 0 ==> of_mode@ == "Got invalid operating_mode: -"@ + text::decimal(
            (-number) as nat,
        ) + "."@,
        of_interval@ == "Got negative update_interval: "@ + words@ + "."@,
        of_sky@ == product@ + " does not include Cedar Sky."@,
        of_wifi.1@ == product@ + " does not include WiFi control."@,
{
    if number < 0 {
        reveal_strlit("Got invalid operating_mode: ");
        reveal_strlit("Got invalid operating_mode: -");
        assert("Got invalid operating_mode: "@ + seq!['-'] =~= "Got invalid operating_mode: -"@);
        assert("Got invalid operating_mode: "@ + (seq!['-'] + text::decimal((-number) as nat))
            =~= "Got invalid operating_mode: "@ + seq!['-'] + text::decimal((-number) as nat));
    }
}

/// Of the settings that do not change while observing, the place comes before the clock, each is
/// set exactly where it was asked for, and what cannot be set is refused, a name first.
pub proof fn law_fixed_settings_are_done_in_order(
    location: bool,
    time: bool,
    name: bool,
    exposure: bool,
    plan: (Vec<FixedStep>, Option<FixedRefusal>),
)
    requires
        call_ensures(plan_fixed_settings, (location, time, name, exposure), plan),
    ensures
        plan.0@.contains(FixedStep::SetObserverLocation) <==> location,
        plan.0@.contains(FixedStep::SetClock) <==> time,
        plan.0@.len() == (if location { 1int } else { 0 }) + (if time { 1int } else { 0 }),
        location && time ==> plan.0@[0] == FixedStep::SetObserverLocation && plan.0@[1]
            == FixedStep::SetClock,
        plan.1 is None <==> !name && !exposure,
        name ==> plan.1 == Some(FixedRefusal::SessionName),
        exposure && !name ==> plan.1 == Some(FixedRefusal::MaxExposureTime),
{
    let steps = plan.0@;
    if location {
        assert(steps[0] == FixedStep::SetObserverLocation);
    }
    if time {
        assert(steps[steps.len() - 1] == FixedStep::SetClock);
    }
}

/// Two clocks are close or not whichever is ahead: less than a minute apart, and no more.
pub proof fn law_clocks_are_close_within_a_minute(now: i64, wanted: i64, close: bool, back: bool)
    requires
        call_ensures(is_clock_close, (now, wanted), close),
        call_ensures(is_clock_close, (wanted, now), back),
    ensures
        close == back,
        close ==> now - wanted <= 59 && wanted - now <= 59,
        !close ==> now - wanted >= 60 || wanted - now >= 60,
{
}

/// A request for actions does what was asked for and nothing else, each once. A calibration is
/// cancelled first, a boresight taken before a slew can end or start, a slew started before one is
/// ended, and the wireless network changed last.
pub proof fn law_actions_are_done_in_order(request: ActionRequest, steps: Vec<ActionStep>)
    requires
        call_ensures(plan_actions, (request,), steps),
    ensures
        steps@.contains(ActionStep::CancelCalibration) <==> request.cancel_calibration,
        steps@.contains(ActionStep::CaptureBoresight) <==> request.capture_boresight,
        steps@.contains(ActionStep::DesignateBoresight) <==> request.designate_boresight,
        steps@.contains(ActionStep::Shutdown) <==> request.shutdown_server,
        steps@.contains(ActionStep::Restart) <==> request.restart_server,
        steps@.contains(ActionStep::InitiateSlew) <==> request.initiate_slew,
        steps@.contains(ActionStep::StopSlew) <==> request.stop_slew,
        steps@.contains(ActionStep::SaveImage) <==> request.save_image,
        steps@.contains(ActionStep::UpdateWifi) <==> request.update_wifi_access_point,
        forall|i: int, j: int|
            0 <= i < j < steps@.len() ==> step_rank(#[trigger] steps@[i]) < step_rank(
                #[trigger] steps@[j],
            ),
{
    let s1 = step_if(request.cancel_calibration, ActionStep::CancelCalibration);
    let s2 = s1 + step_if(request.capture_boresight, ActionStep::CaptureBoresight);
    let s3 = s2 + step_if(request.designate_boresight, ActionStep::DesignateBoresight);
    let s4 = s3 + step_if(request.shutdown_server, ActionStep::Shutdown);
    let s5 = s4 + step_if(request.restart_server, ActionStep::Restart);
    let s6 = s5 + step_if(request.initiate_slew, ActionStep::InitiateSlew);
    let s7 = s6 + step_if(request.stop_slew, ActionStep::StopSlew);
    let s8 = s7 + step_if(request.save_image, ActionStep::SaveImage);
    let none = Seq::<ActionStep>::empty();
    assert(none + s1 =~= s1);
    assert(are_steps_up_to(none, request, 0)) by {
        reveal(are_steps_up_to);
    }
    lemma_step_comes_next(none, request, ActionStep::CancelCalibration);
    lemma_step_comes_next(s1, request, ActionStep::CaptureBoresight);
    lemma_step_comes_next(s2, request, ActionStep::DesignateBoresight);
    lemma_step_comes_next(s3, request, ActionStep::Shutdown);
    lemma_step_comes_next(s4, request, ActionStep::Restart);
    lemma_step_comes_next(s5, request, ActionStep::InitiateSlew);
    lemma_step_comes_next(s6, request, ActionStep::StopSlew);
    lemma_step_comes_next(s7, request, ActionStep::SaveImage);
    lemma_step_comes_next(s8, request, ActionStep::UpdateWifi);
    assert(are_steps_up_to(steps@, request, 9));
    reveal(are_steps_up_to);
}

/// When a step is done: those with a lower number before those with a higher.
pub open spec fn step_rank(step: ActionStep) -> int {
    match step {
        ActionStep::CancelCalibration => 0,
        ActionStep::CaptureBoresight => 1,
        ActionStep::DesignateBoresight => 2,
        ActionStep::Shutdown => 3,
        ActionStep::Restart => 4,
        ActionStep::InitiateSlew => 5,
        ActionStep::StopSlew => 6,
        ActionStep::SaveImage => 7,
        ActionStep::UpdateWifi => 8,
    }
}

/// Whether a request asks for a step.
pub open spec fn asks_for(request: ActionRequest, step: ActionStep) -> bool {
    match step {
        ActionStep::CancelCalibration => request.cancel_calibration,
        ActionStep::CaptureBoresight => request.capture_boresight,
        ActionStep::DesignateBoresight => request.designate_boresight,
        ActionStep::Shutdown => request.shutdown_server,
        ActionStep::Restart => request.restart_server,
        ActionStep::InitiateSlew => request.initiate_slew,
        ActionStep::StopSlew => request.stop_slew,
        ActionStep::SaveImage => request.save_image,
        ActionStep::UpdateWifi => request.update_wifi_access_point,
    }
}

/// Whether steps are those that a request asks for, in order, as far as they come early enough.
#[verifier::opaque]
spec fn are_steps_up_to(steps: Seq<ActionStep>, request: ActionRequest, rank: int) -> bool {
    &&& forall|step: ActionStep|
        #[trigger] steps.contains(step) <==> asks_for(request, step) && step_rank(step) < rank
    &&& forall|i: int, j: int|
        0 <= i < j < steps.len() ==> step_rank(#[trigger] steps[i]) < step_rank(
            #[trigger] steps[j],
        )
}

/// One more step, where it was asked for.
proof fn lemma_step_comes_next(steps: Seq<ActionStep>, request: ActionRequest, step: ActionStep)
    requires
        are_steps_up_to(steps, request, step_rank(step)),
    ensures
        are_steps_up_to(
            steps + step_if(asks_for(request, step), step),
            request,
            step_rank(step) + 1,
        ),
{
    reveal(are_steps_up_to);
    let wanted = asks_for(request, step);
    let longer = steps + step_if(wanted, step);
    assert forall|other: ActionStep| #[trigger] longer.contains(other) <==> asks_for(request, other)
        && step_rank(other) < step_rank(step) + 1 by {
        if longer.contains(other) {
            let i = choose|i: int| 0 <= i < longer.len() && longer[i] == other;
            if i < steps.len() {
                assert(steps[i] == other);
                assert(steps.contains(other));
            }
        }
        if asks_for(request, other) && step_rank(other) < step_rank(step) {
            assert(steps.contains(other));
            let i = choose|i: int| 0 <= i < steps.len() && steps[i] == other;
            assert(longer[i] == other);
        }
        if asks_for(request, other) && step_rank(other) == step_rank(step) {
            assert(other == step);
            assert(longer[steps.len() as int] == step);
        }
    }
    assert forall|i: int, j: int| 0 <= i < j < longer.len() implies step_rank(#[trigger] longer[i])
        < step_rank(#[trigger] longer[j]) by {
        assert(longer[i] == steps[i]);
        if j < steps.len() {
            assert(longer[j] == steps[j]);
        } else {
            assert(steps.contains(steps[i]));
        }
    }
}

/// The boresight is captured where the target of the slew is shown, and nowhere in setup mode or
/// without a slew. One that is designated stands where it was shown, taken back to the image as it
/// was before it was rotated.
pub proof fn law_boresight_is_where_it_is_shown(
    slew: SlewRequest,
    place: ImageCoord,
    in_setup: Result<ImageCoord, ActionRefusal>,
    captured: Result<ImageCoord, ActionRefusal>,
    without: Result<ImageCoord, ActionRefusal>,
    rotator: ImageRotator,
    focus_mode: bool,
    daylight_mode: bool,
    width: u32,
    height: u32,
    designated: ImageCoord,
    unrotated: ImageCoord,
    back: ImageCoord,
)
    requires
        slew.image_pos == Some(place),
        rotator.wf(),
        crate::image_utils::in_reach(place),
        call_ensures(capture_boresight, (OperatingMode::Setup, Some(slew)), in_setup),
        call_ensures(capture_boresight, (OperatingMode::Operate, Some(slew)), captured),
        call_ensures(capture_boresight, (OperatingMode::Operate, None::<SlewRequest>), without),
        call_ensures(
            designate_boresight,
            (place, focus_mode, daylight_mode, Some(rotator), width, height),
            designated,
        ),
        call_ensures(
            designate_boresight,
            (place, focus_mode, daylight_mode, None::<ImageRotator>, width, height),
            unrotated,
        ),
        call_ensures(ImageRotator::transform_from_rotated, (&rotator, place, width, height), back),
    ensures
        in_setup == Err::<ImageCoord, ActionRefusal>(ActionRefusal::CaptureInSetup),
        captured == Ok::<ImageCoord, ActionRefusal>(place),
        without == Err::<ImageCoord, ActionRefusal>(ActionRefusal::NoSlewActive),
        unrotated == place,
        focus_mode || daylight_mode ==> designated == place,
        !focus_mode && !daylight_mode ==> designated == back,
{
}

/// A slew that is started is the one that a solution is then told about, as long as nothing else
/// happens; one that is refused leaves the shared position alone. Only an alt-az mount without a
/// known place is refused.
pub proof fn law_slew_goes_where_it_was_sent(
    position: &mut TelescopePosition,
    target: CelestialCoord,
    mount_type: Option<MountType>,
    known: bool,
    started: Result<(), ActionRefusal>,
    observed: &mut Observed,
    boresight: Option<ImageCoord>,
    solution: Option<CelestialCoord>,
    told: CallbackResult,
)
    requires
        call_ensures(initiate_slew, (position, target, mount_type, known), started),
        old(observed).position == *final(position),
        call_ensures(solution_callback, (observed, boresight, solution), told),
    ensures
        started is Err <==> mount_type == Some(MountType::AltAz) && !known,
        started is Err ==> *final(position) == *old(position),
        started is Ok ==> told.slew_target == Some(target),
        started is Ok ==> final(position).boresight_ra == old(position).boresight_ra
            && final(position).boresight_dec == old(position).boresight_dec
            && final(position).sync_ra == old(position).sync_ra && final(position).site_latitude
            == old(position).site_latitude,
        final(observed).position.slew_active == final(position).slew_active,
        !final(position).slew_active ==> told.slew_target is None,
{
}

/// A solution says where the telescope points until there is none. What a client reported goes
/// along with a solution, never without one: where the observer is, which is saved, and where the
/// telescope was said to point, which the solver is told.
pub proof fn law_solution_is_shared(
    observed: &mut Observed,
    boresight: Option<ImageCoord>,
    solution: Option<CelestialCoord>,
    told: CallbackResult,
)
    requires
        call_ensures(solution_callback, (observed, boresight, solution), told),
    ensures
        final(observed).position.boresight_valid <==> solution is Some,
        solution matches Some(coords) ==> final(observed).position.boresight_ra == coords.ra
            && final(observed).position.boresight_dec == coords.dec,
        solution is None ==> final(observed).position.boresight_ra
            == old(observed).position.boresight_ra && final(observed).position.boresight_dec
            == old(observed).position.boresight_dec && told.sync_coord is None
            && final(observed).observer_location == old(observed).observer_location,
        told.sync_coord matches Some(coords) ==> old(observed).position.sync_ra == Some(coords.ra)
            && old(observed).position.sync_dec == Some(coords.dec)
            && final(observed).position.sync_ra is None
                && final(observed).position.sync_dec is None,
        solution is Some && old(observed).position.sync_ra is Some
            && old(observed).position.sync_dec is Some ==> told.sync_coord is Some,
        solution is Some && old(observed).position.site_latitude is Some
            && old(observed).position.site_longitude is Some ==> {
            &&& told.save_preferences
            &&& final(observed).position.site_latitude is None
            &&& final(observed).position.site_longitude is None
            &&& final(observed).observer_location matches Some(site)
                && old(observed).position.site_latitude == Some(site.latitude)
                && old(observed).position.site_longitude == Some(site.longitude)
            &&& final(observed).preferred_location == final(observed).observer_location
        },
        boresight is Some ==> final(observed).preferred_boresight == boresight,
        boresight is None ==> final(observed).preferred_boresight
            == old(observed).preferred_boresight,
        told.save_preferences <==> final(observed).preferred_boresight != old(observed).preferred_boresight || (solution is Some && old(observed).position.site_latitude is Some
            && old(observed).position.site_longitude is Some),
        final(observed).position.slew_active == old(observed).position.slew_active
            && final(observed).position.slew_target_ra == old(observed).position.slew_target_ra
            && final(observed).position.slew_target_dec == old(observed).position.slew_target_dec,
{
}

/// A search needs a catalog. It is sorted by place or height only where it asks for that, is as
/// long as it asks for, and counts distances from where the telescope points.
pub proof fn law_search_is_as_asked_for(
    order: Option<i32>,
    limit: u32,
    boresight: Option<CelestialCoord>,
    observer_location: Option<LatLong>,
    without: Result<CatalogQuery, ActionRefusal>,
    found: Result<CatalogQuery, ActionRefusal>,
    unlimited: Result<CatalogQuery, ActionRefusal>,
)
    requires
        call_ensures(
            plan_catalog_query,
            (false, order, Some(limit), boresight, observer_location),
            without,
        ),
        call_ensures(
            plan_catalog_query,
            (true, order, Some(limit), boresight, observer_location),
            found,
        ),
        call_ensures(
            plan_catalog_query,
            (true, order, None::<u32>, boresight, observer_location),
            unlimited,
        ),
    ensures
        without == Err::<CatalogQuery, ActionRefusal>(ActionRefusal::NoCedarSky),
        found matches Ok(query) && {
            &&& query.limit == Some(limit as usize)
            &&& query.sky_location == boresight
            &&& query.observer_location == observer_location
            &&& query.order == SearchOrder::SkyLocation <==> order == Some(2i32)
            &&& query.order == SearchOrder::Elevation <==> order == Some(3i32)
        },
        unlimited matches Ok(query) && query.limit is None,
{
}

} // verus!
