//! What a catalog of the sky is asked by.

use vstd::prelude::*;

use crate::cedar::LatLong;

verus! {

/// From where and when the sky is looked at. The places of planets depend on it.
#[derive(Clone, Copy, Debug, PartialEq, Eq, Structural)]
pub struct LocationInfo {
    /// The place of the observer.
    pub observer_location: LatLong,
    /// Nanoseconds since 1970 (UTC).
    pub observing_time: u64,
}

/// From where and when the sky is looked at, where the place of the observer is known.
pub fn location_info(observer_location: Option<LatLong>, observing_time: u64) -> (info: Option<
    LocationInfo,
>)
    ensures
        info == (match observer_location {
            Some(observer_location) => Some(LocationInfo { observer_location, observing_time }),
            None => None,
        }),
{
    match observer_location {
        Some(observer_location) => Some(LocationInfo { observer_location, observing_time }),
        None => None,
    }
}

/// The sky is looked at from where the observer is, if that is known, at the time that is given.
pub proof fn law_sky_is_looked_at_from_the_observer(
    place: LatLong,
    time: u64,
    known: Option<LocationInfo>,
    unknown: Option<LocationInfo>,
)
    requires
        call_ensures(location_info, (Some(place), time), known),
        call_ensures(location_info, (None::<LatLong>, time), unknown),
    ensures
        unknown is None,
        known matches Some(info) && info.observer_location == place && info.observing_time == time,
{
}

} // verus!
