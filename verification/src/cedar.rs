//! The messages exchanged with the user interface, as far as decisions depend on them.

use vstd::prelude::*;

use crate::astro_util::ImageCoord;
use crate::units::FULL_TURN;

verus! {

/// The two modes of operation.
#[derive(Clone, Copy, Debug, PartialEq, Eq, Structural)]
pub enum OperatingMode {
    /// Focusing, aligning and calibrating.
    Setup,
    /// Plate solving.
    Operate,
}

/// How the display is held.
#[derive(Clone, Copy, Debug, PartialEq, Eq, Structural)]
pub enum DisplayOrientation {
    /// Wider than high.
    Landscape,
    /// Higher than wide.
    Portrait,
}

/// The kinds of telescope mount.
#[derive(Clone, Copy, Debug, PartialEq, Eq, Structural)]
pub enum MountType {
    /// Turns in right ascension and declination.
    Equatorial,
    /// Turns in azimuth and altitude.
    AltAz,
}

/// What the product offers.
#[derive(Clone, Copy, Debug, PartialEq, Eq, Structural)]
pub enum FeatureLevel {
    /// Self-built.
    Diy,
    /// The small model.
    Basic,
    /// The large model.
    Plus,
}

/// How coordinates are written.
#[derive(Clone, Copy, Debug, PartialEq, Eq, Structural)]
pub enum CelestialCoordFormat {
    /// In hours, minutes and seconds, and degrees, minutes and seconds.
    HmsDms,
    /// Another format of the user interface, by its number.
    Other(i32),
}

/// Which coordinates are shown.
#[derive(Clone, Copy, Debug, PartialEq, Eq, Structural)]
pub enum CelestialCoordChoice {
    /// Right ascension and declination.
    RaDec,
    /// Another choice of the user interface, by its number.
    Other(i32),
}

/// How the results of a catalog search are sorted.
#[derive(Clone, Copy, Debug, PartialEq, Eq, Structural)]
pub enum SearchOrder {
    /// The brightest first.
    Brightness,
    /// The nearest first.
    SkyLocation,
    /// The highest first.
    Elevation,
}

/// A place in the sky, in microarcseconds.
#[derive(Clone, Copy, Debug, PartialEq, Eq, Structural)]
pub struct CelestialCoord {
    /// Right ascension.
    pub ra: i64,
    /// Declination.
    pub dec: i64,
}

/// A place on Earth, in microarcseconds.
#[derive(Clone, Copy, Debug, PartialEq, Eq, Structural)]
pub struct LatLong {
    /// Degrees north.
    pub latitude: i64,
    /// Degrees east.
    pub longitude: i64,
}

/// The catalog object that a slew leads to.
#[derive(Clone, Copy, Debug, PartialEq, Eq, Structural)]
pub struct CatalogTarget {
    /// Which of the objects that the search found it is.
    pub index: usize,
    /// Where it is.
    pub coord: CelestialCoord,
    /// How far it is from where the slew leads to.
    pub distance: i64,
}

/// A slew in progress. Angles are in microarcseconds.
#[derive(Clone, Copy, Debug, PartialEq, Eq, Structural)]
pub struct SlewRequest {
    /// Where to.
    pub target: CelestialCoord,
    /// How far it is from the boresight.
    pub target_distance: i64,
    /// In which direction it lies, relative to image up.
    pub target_angle: i64,
    /// The catalog object there, if there is one.
    pub target_catalog_entry: Option<CatalogTarget>,
    /// Where the target appears in the image, if it does.
    pub image_pos: Option<ImageCoord>,
    /// How far to turn about the rotation axis of the mount.
    pub offset_rotation_axis: Option<i64>,
    /// How far to turn about the tilt axis of the mount.
    pub offset_tilt_axis: Option<i64>,
}

/// The largest angle that is dealt with, in microarcseconds.
pub const MAX_ANGLE: i64 = 1_000_000_000_000_000;

/// Whether an angle lies within the range that is dealt with.
pub open spec fn angle_in_reach(angle: i64) -> bool {
    -MAX_ANGLE <= angle <= MAX_ANGLE
}

/// Brings an angle into the full turn from zero on.
pub fn normalize_angle(angle: i64) -> (normal: i64)
    ensures
        normal == angle as int % FULL_TURN as int,
        0 <= normal < FULL_TURN,
{
    let rest: i64 = angle % FULL_TURN;
    if rest < 0 {
        rest + FULL_TURN
    } else {
        rest
    }
}

/// The remainder by a full turn, with the sign of the angle.
pub open spec fn signed_remainder(angle: int) -> int {
    if angle < 0 {
        -((-angle) % FULL_TURN as int)
    } else {
        angle % FULL_TURN as int
    }
}

/// The remainder of an angle by a full turn, with the sign of the angle.
pub fn remainder_angle(angle: i64) -> (rest: i64)
    ensures
        rest == signed_remainder(angle as int),
{
    angle % FULL_TURN
}

/// A difference of two directions, by the shorter way round where it is at most one turn off.
pub open spec fn shorter_way(difference: int) -> int {
    let up = if difference < -(FULL_TURN / 2) {
        difference + FULL_TURN
    } else {
        difference
    };
    if up > FULL_TURN / 2 {
        up - FULL_TURN
    } else {
        up
    }
}

/// The difference of two directions, by the shorter way round.
pub fn relative_angle(to: i64, from: i64) -> (difference: i64)
    requires
        angle_in_reach(to),
        angle_in_reach(from),
    ensures
        difference == shorter_way(to - from),
{
    let mut difference: i64 = to - from;
    if difference < -(FULL_TURN / 2) {
        difference = difference + FULL_TURN;
    }
    if difference > FULL_TURN / 2 {
        difference = difference - FULL_TURN;
    }
    difference
}

/// Between two directions within one turn of each other the shorter way is at most half a turn,
/// and leads from the one to the other.
pub proof fn law_shorter_way(to: int, from: int)
    requires
        0 <= to < FULL_TURN,
        0 <= from < FULL_TURN,
    ensures
        -(FULL_TURN / 2) <= shorter_way(to - from) <= FULL_TURN / 2,
        (from + shorter_way(to - from)) % FULL_TURN as int == to,
{
}

/// A normal angle, a remainder and the angle itself differ by whole turns. A normal one is not
/// negative, a remainder has the sign of the angle, and both are less than a turn.
pub proof fn law_angles_differ_by_turns(angle: i64, normal: i64, rest: i64)
    requires
        call_ensures(normalize_angle, (angle,), normal),
        call_ensures(remainder_angle, (angle,), rest),
    ensures
        0 <= normal < 1_296_000_000_000,
        (angle - normal) % 1_296_000_000_000 == 0,
        -1_296_000_000_000 < rest < 1_296_000_000_000,
        (angle - rest) % 1_296_000_000_000 == 0,
        angle >= 0 ==> rest >= 0,
        angle <= 0 ==> rest <= 0,
{
}

/// From one direction the difference leads to the other, up to a full turn, and by no more than
/// half a turn where both are normal. The way back is as long.
pub proof fn law_difference_leads_there(to: i64, from: i64, difference: i64, back: i64)
    requires
        0 <= to < 1_296_000_000_000,
        0 <= from < 1_296_000_000_000,
        call_ensures(relative_angle, (to, from), difference),
        call_ensures(relative_angle, (from, to), back),
    ensures
        from + difference == to || from + difference == to + 1_296_000_000_000 || from + difference
            == to - 1_296_000_000_000,
        -648_000_000_000 <= difference <= 648_000_000_000,
        back == -difference,
{
}

} // verus!
