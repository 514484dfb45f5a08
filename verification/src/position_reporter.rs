//! The telescope position shared between the server and planetarium clients.

use vstd::prelude::*;

use crate::units::{DEGREES_PER_HOUR, MICROARCSECONDS_PER_DEGREE};

verus! {

/// How far a stale declination is moved to show that it is stale: a tenth of a degree.
pub const WIGGLE: i64 = 360_000_000;

/// The state exchanged with planetarium clients. Angles are in microarcseconds, the date in
/// seconds since 1970 (UTC).
#[derive(Clone, Copy, Debug, PartialEq, Eq, Structural)]
pub struct TelescopePosition {
    /// Where the telescope points, 0..360 degrees.
    pub boresight_ra: i64,
    /// Where the telescope points, -90..90 degrees.
    pub boresight_dec: i64,
    /// Whether the boresight position is current; it is stale otherwise.
    pub boresight_valid: bool,
    /// The declination that belongs to the right ascension reported last.
    pub snapshot_dec: Option<i64>,
    /// The target of the current or most recent slew.
    pub slew_target_ra: i64,
    /// The target of the current or most recent slew.
    pub slew_target_dec: i64,
    /// Whether a slew is in progress.
    pub slew_active: bool,
    /// Observer latitude set by the client, until the server consumes it.
    pub site_latitude: Option<i64>,
    /// Observer longitude set by the client, positive east, until the server consumes it.
    pub site_longitude: Option<i64>,
    /// Sync position set by the client, until the server consumes it.
    pub sync_ra: Option<i64>,
    /// Sync position set by the client, until the server consumes it.
    pub sync_dec: Option<i64>,
    /// Target held for a client that sets it ahead of a slew.
    pub target_ra: i64,
    /// Target held for a client that sets it ahead of a slew.
    pub target_dec: i64,
    /// Date and time set by the client.
    pub utc_date: Option<i64>,
}

impl Default for TelescopePosition {
    fn default() -> (position: Self)
        ensures
            position == TelescopePosition::at(0, 0),
    {
        TelescopePosition {
            boresight_ra: 0,
            boresight_dec: 0,
            boresight_valid: false,
            snapshot_dec: None,
            slew_target_ra: 0,
            slew_target_dec: 0,
            slew_active: false,
            site_latitude: None,
            site_longitude: None,
            sync_ra: None,
            sync_dec: None,
            target_ra: 0,
            target_dec: 0,
            utc_date: None,
        }
    }
}

/// A stale declination moved towards the equator; at or south of it, northwards.
pub open spec fn wiggled(dec: int) -> int {
    if dec > 0 {
        dec - WIGGLE
    } else {
        dec + WIGGLE
    }
}

/// Moves a stale declination by a tenth of a degree.
pub fn wiggle(dec: i64) -> (moved: i64)
    ensures
        moved == wiggled(dec as int),
{
    if dec > 0 {
        dec - WIGGLE
    } else {
        dec + WIGGLE
    }
}

/// A client asked for a value that nobody has set.
#[derive(Clone, Copy, Debug, PartialEq, Eq, Structural)]
pub struct ValueNotSet;

impl TelescopePosition {
    /// The position of a telescope that points at the given place and has heard of nothing else.
    pub open spec fn at(ra: i64, dec: i64) -> TelescopePosition {
        TelescopePosition {
            boresight_ra: ra,
            boresight_dec: dec,
            boresight_valid: false,
            snapshot_dec: None,
            slew_target_ra: 0,
            slew_target_dec: 0,
            slew_active: false,
            site_latitude: None,
            site_longitude: None,
            sync_ra: None,
            sync_dec: None,
            target_ra: 0,
            target_dec: 0,
            utc_date: None,
        }
    }

    /// The position to start from: right ascension 180 degrees, because some clients do not
    /// display the origin.
    pub fn new() -> (position: Self)
        ensures
            position == TelescopePosition::at((180 * MICROARCSECONDS_PER_DEGREE) as i64, 0),
    {
        let mut position = TelescopePosition::default();
        position.boresight_ra = 180 * MICROARCSECONDS_PER_DEGREE;
        position
    }

    /// The position once its right ascension was reported: the declination that belongs to it
    /// is kept.
    pub open spec fn with_snapshot(self) -> TelescopePosition {
        TelescopePosition { snapshot_dec: Some(self.boresight_dec), ..self }
    }

    /// The declination that is reported: the one that was kept, or else the current one. While
    /// the position is stale it is the current one, moved in every second report.
    pub open spec fn reported_dec(self, updates_while_invalid: u64) -> int {
        if self.boresight_valid {
            match self.snapshot_dec {
                Some(snapshot) => snapshot as int,
                None => self.boresight_dec as int,
            }
        } else if updates_while_invalid % 2 == 1 {
            wiggled(self.boresight_dec as int)
        } else {
            self.boresight_dec as int
        }
    }

    /// Reports the right ascension, and keeps the declination that belongs to it for the
    /// request that follows.
    pub fn right_ascension(&mut self) -> (ra: i64)
        ensures
            ra == old(self).boresight_ra,
            *final(self) == old(self).with_snapshot(),
    {
        self.snapshot_dec = Some(self.boresight_dec);
        self.boresight_ra
    }

    /// Reports the declination and consumes the one kept by `right_ascension`. While the
    /// position is stale every second report is moved, counted by `updates_while_invalid`.
    pub fn declination(&mut self, updates_while_invalid: &mut u64) -> (dec: i64)
        ensures
            *final(self) == (TelescopePosition { snapshot_dec: None, ..*old(self) }),
            *final(updates_while_invalid) == (if old(self).boresight_valid {
                *old(updates_while_invalid) as int
            } else {
                (*old(updates_while_invalid) + 1) % 0x1_0000_0000_0000_0000
            }),
            dec == old(self).reported_dec(*old(updates_while_invalid)),
    {
        let snapshot_dec: Option<i64> = self.snapshot_dec;
        self.snapshot_dec = None;
        if self.boresight_valid {
            return match snapshot_dec {
                Some(snapshot) => snapshot,
                None => self.boresight_dec,
            };
        }
        if *updates_while_invalid == u64::MAX {
            *updates_while_invalid = 0;
        } else {
            *updates_while_invalid = *updates_while_invalid + 1;
        }
        if *updates_while_invalid % 2 == 0 {
            wiggle(self.boresight_dec)
        } else {
            self.boresight_dec
        }
    }

    /// The observer's latitude, where a client has set it.
    pub fn site_latitude(&self) -> (r: Result<i64, ValueNotSet>)
        ensures
            r == (match self.site_latitude {
                Some(value) => Ok(value),
                None => Err::<i64, ValueNotSet>(ValueNotSet),
            }),
    {
        match self.site_latitude {
            Some(value) => Ok(value),
            None => Err(ValueNotSet),
        }
    }

    /// The observer's longitude, where a client has set it.
    pub fn site_longitude(&self) -> (r: Result<i64, ValueNotSet>)
        ensures
            r == (match self.site_longitude {
                Some(value) => Ok(value),
                None => Err::<i64, ValueNotSet>(ValueNotSet),
            }),
    {
        match self.site_longitude {
            Some(value) => Ok(value),
            None => Err(ValueNotSet),
        }
    }

    /// The date, where a client has set it.
    pub fn utc_date(&self) -> (r: Result<i64, ValueNotSet>)
        ensures
            r == (match self.utc_date {
                Some(value) => Ok(value),
                None => Err::<i64, ValueNotSet>(ValueNotSet),
            }),
    {
        match self.utc_date {
            Some(value) => Ok(value),
            None => Err(ValueNotSet),
        }
    }

    /// Holds a target right ascension, given in microseconds of right ascension.
    pub fn set_target_right_ascension(&mut self, hours: i64)
        requires
            i64::MIN <= hours * DEGREES_PER_HOUR <= i64::MAX,
        ensures
            *final(self) == (TelescopePosition {
                target_ra: (hours * DEGREES_PER_HOUR) as i64,
                ..*old(self)
            }),
    {
        self.target_ra = hours * DEGREES_PER_HOUR;
    }

    /// Starts a slew to the target of the most recent one.
    pub fn slew_to_target(&mut self)
        ensures
            *final(self) == (TelescopePosition { slew_active: true, ..*old(self) }),
    {
        self.slew_active = true;
    }

    /// Starts a slew to a position, its right ascension given in microseconds.
    pub fn slew_to_coordinates(&mut self, hours: i64, dec: i64)
        requires
            i64::MIN <= hours * DEGREES_PER_HOUR <= i64::MAX,
        ensures
            *final(self) == (TelescopePosition {
                slew_target_ra: (hours * DEGREES_PER_HOUR) as i64,
                slew_target_dec: dec,
                slew_active: true,
                ..*old(self)
            }),
    {
        self.slew_target_ra = hours * DEGREES_PER_HOUR;
        self.slew_target_dec = dec;
        self.slew_active = true;
    }

    /// Ends a slew.
    pub fn abort_slew(&mut self)
        ensures
            *final(self) == (TelescopePosition { slew_active: false, ..*old(self) }),
    {
        self.slew_active = false;
    }

    /// Holds a sync position for the server, its right ascension given in microseconds.
    pub fn sync_to_coordinates(&mut self, hours: i64, dec: i64)
        requires
            i64::MIN <= hours * DEGREES_PER_HOUR <= i64::MAX,
        ensures
            *final(self) == (TelescopePosition {
                sync_ra: Some((hours * DEGREES_PER_HOUR) as i64),
                sync_dec: Some(dec),
                ..*old(self)
            }),
    {
        self.sync_ra = Some(hours * DEGREES_PER_HOUR);
        self.sync_dec = Some(dec);
    }
}

/// A declination asked for after a right ascension belongs to that right ascension, wherever the
/// telescope points by then.
pub proof fn law_declination_follows_right_ascension(
    asked: TelescopePosition,
    later: TelescopePosition,
    updates_while_invalid: u64,
)
    requires
        later.snapshot_dec == asked.with_snapshot().snapshot_dec,
        later.boresight_valid,
    ensures
        later.reported_dec(updates_while_invalid) == asked.boresight_dec,
{
}

/// Of two reports of a stale declination in a row exactly one is moved, and by a tenth of a
/// degree.
pub proof fn law_stale_declination_alternates(position: TelescopePosition, updates: u64)
    requires
        !position.boresight_valid,
        updates < u64::MAX,
    ensures
        ({
            let first = position.reported_dec(updates);
            let second = position.reported_dec((updates + 1) as u64);
            &&& first == position.boresight_dec || second == position.boresight_dec
            &&& vstd::math::abs(first - second) == WIGGLE
        }),
{
}

/// A stale declination is moved by a tenth of a degree, never across the equator where it was
/// further away from it than that.
pub proof fn law_wiggle_is_a_tenth_of_a_degree(dec: i64, moved: i64)
    requires
        call_ensures(wiggle, (dec,), moved),
    ensures
        moved - dec == 360_000_000 || dec - moved == 360_000_000,
        dec > 360_000_000 ==> 0 < moved < dec,
        dec < -360_000_000 ==> dec < moved < 0,
{
}

/// A right ascension is reported as it is, and the declination asked for after it belongs to it,
/// wherever the telescope points by then. It is used up by that.
pub proof fn law_reports_go_together(
    asked: &mut TelescopePosition,
    ra: i64,
    later: &mut TelescopePosition,
    updates: &mut u64,
    dec: i64,
)
    requires
        call_ensures(TelescopePosition::right_ascension, (asked,), ra),
        call_ensures(TelescopePosition::declination, (later, updates), dec),
        old(later).snapshot_dec == final(asked).snapshot_dec,
    ensures
        ra == old(asked).boresight_ra,
        old(later).boresight_valid ==> dec == old(asked).boresight_dec && *final(updates)
            == *old(updates),
        !old(later).boresight_valid ==> {
            &&& *old(updates) % 2 == 0 ==> dec == old(later).boresight_dec
            &&& *old(updates) % 2 == 1 ==> dec - old(later).boresight_dec == 360_000_000 || dec
                - old(later).boresight_dec == -360_000_000
            &&& *old(updates) < u64::MAX ==> *final(updates) == *old(updates) + 1
        },
        final(later).snapshot_dec is None,
        *final(asked) == (TelescopePosition {
            snapshot_dec: Some(old(asked).boresight_dec),
            ..*old(asked)
        }),
        final(later).boresight_ra == old(later).boresight_ra,
        final(later).slew_active == old(later).slew_active,
{
}

/// A slew leads to where it was sent, an hour of right ascension being fifteen degrees, until it is
/// aborted; then the target stays, and can be slewed to again. A sync hands over where the client
/// says that the telescope points, and changes nothing else.
pub proof fn law_slews_lead_to_their_target(
    sent: &mut TelescopePosition,
    hours: i64,
    dec: i64,
    stopped: &mut TelescopePosition,
    again: &mut TelescopePosition,
    synced: &mut TelescopePosition,
)
    requires
        -600_000_000_000_000_000 <= hours <= 600_000_000_000_000_000,
        call_ensures(TelescopePosition::slew_to_coordinates, (sent, hours, dec), ()),
        *old(stopped) == *final(sent),
        call_ensures(TelescopePosition::abort_slew, (stopped,), ()),
        *old(again) == *final(stopped),
        call_ensures(TelescopePosition::slew_to_target, (again,), ()),
        call_ensures(TelescopePosition::sync_to_coordinates, (synced, hours, dec), ()),
    ensures
        final(sent).slew_target_ra == 15 * hours && final(sent).slew_target_dec == dec,
        final(sent).slew_active && !final(stopped).slew_active && final(again).slew_active,
        *final(again) == *final(sent),
        final(synced).sync_ra == Some((15 * hours) as i64) && final(synced).sync_dec == Some(dec),
        final(synced).slew_active == old(synced).slew_active,
        final(synced).boresight_ra == old(synced).boresight_ra,
        final(synced).slew_target_ra == old(synced).slew_target_ra,
        final(sent).boresight_ra == old(sent).boresight_ra,
        final(sent).sync_ra == old(sent).sync_ra,
{
}

/// What a client set is read back, and nothing is read that was not set. A target in hours is
/// fifteen times as many degrees.
pub proof fn law_values_are_read_back(
    position: TelescopePosition,
    latitude: Result<i64, ValueNotSet>,
    longitude: Result<i64, ValueNotSet>,
    date: Result<i64, ValueNotSet>,
    moved: &mut TelescopePosition,
    hours: i64,
)
    requires
        i64::MIN <= hours * 15 <= i64::MAX,
        call_ensures(TelescopePosition::site_latitude, (&position,), latitude),
        call_ensures(TelescopePosition::site_longitude, (&position,), longitude),
        call_ensures(TelescopePosition::utc_date, (&position,), date),
        call_ensures(TelescopePosition::set_target_right_ascension, (moved, hours), ()),
    ensures
        latitude is Ok <==> position.site_latitude is Some,
        latitude matches Ok(value) ==> position.site_latitude == Some(value),
        longitude is Ok <==> position.site_longitude is Some,
        longitude matches Ok(value) ==> position.site_longitude == Some(value),
        date is Ok <==> position.utc_date is Some,
        date matches Ok(value) ==> position.utc_date == Some(value),
        final(moved).target_ra == 15 * hours,
        final(moved).target_dec == old(moved).target_dec && final(moved).slew_active
            == old(moved).slew_active && final(moved).boresight_ra == old(moved).boresight_ra,
{
}

} // verus!
