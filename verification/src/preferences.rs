//! The user's preferences: defaults, the saved file, updates, and limits of the feature level.

use vstd::prelude::*;

use crate::astro_util::ImageCoord;
use crate::calibration::CanonicalErrorCode;
use crate::cedar::{
    CelestialCoordChoice, CelestialCoordFormat, FeatureLevel, LatLong, MountType, SearchOrder,
};
use crate::units::{MICROARCSECONDS_PER_DEGREE, MICROPIXELS_PER_PIXEL};

verus! {

broadcast use vstd::string::group_string_axioms;

/// A span of time, as messages carry it.
#[derive(Clone, Copy, Debug, PartialEq, Eq, Structural)]
pub struct Interval {
    /// Whole seconds.
    pub seconds: i64,
    /// Nanoseconds beyond them.
    pub nanos: i32,
}

/// Which catalog entries to show.
#[derive(Clone, Debug)]
pub struct CatalogEntryMatch {
    /// The faintest magnitude.
    pub faintest_magnitude: Option<i32>,
    /// Whether to go by the catalogs below.
    pub match_catalog_label: bool,
    /// The catalogs.
    pub catalog_label: Vec<String>,
    /// Whether to go by the types below.
    pub match_object_type_label: bool,
    /// The types of object.
    pub object_type_label: Vec<String>,
}

/// The preferences. In an update a missing field means that the field stays as it is. Angles are
/// in microarcseconds.
#[derive(Clone, Debug)]
pub struct Preferences {
    /// How coordinates are written.
    pub celestial_coord_format: Option<CelestialCoordFormat>,
    /// The field of view of the eyepiece.
    pub eyepiece_fov: Option<i64>,
    /// Whether the display is red.
    pub night_vision_theme: Option<bool>,
    /// Whether the bar of the application is hidden.
    pub hide_app_bar: Option<bool>,
    /// The mount.
    pub mount_type: Option<MountType>,
    /// Where the observer is.
    pub observer_location: Option<LatLong>,
    /// The time between frames.
    pub update_interval: Option<Interval>,
    /// Which catalog entries to show.
    pub catalog_entry_match: Option<CatalogEntryMatch>,
    /// Whether the distance below counts.
    pub max_distance_active: Option<bool>,
    /// How far from the boresight to search.
    pub max_distance: Option<i64>,
    /// Whether the elevation below counts.
    pub min_elevation_active: Option<bool>,
    /// How high above the horizon to search.
    pub min_elevation: Option<i64>,
    /// How search results are ordered.
    pub ordering: Option<SearchOrder>,
    /// Whether advanced settings are shown.
    pub advanced: Option<bool>,
    /// The size of text.
    pub text_size_index: Option<i32>,
    /// Where the telescope points in the image.
    pub boresight_pixel: Option<ImageCoord>,
    /// Whether the camera is upside down.
    pub invert_camera: Option<bool>,
    /// Whether the controls are on the right.
    pub right_handed: Option<bool>,
    /// Which coordinates are shown.
    pub celestial_coord_choice: Option<CelestialCoordChoice>,
    /// Whether the screen stays on.
    pub screen_always_on: Option<bool>,
}

/// A field after an update: the new value, or else the old one.
pub open spec fn newer<T>(old_value: Option<T>, new_value: Option<T>) -> Option<T> {
    match new_value {
        Some(value) => Some(value),
        None => old_value,
    }
}

/// The value of a field after an update.
fn pick<T>(old_value: Option<T>, new_value: Option<T>) -> (picked: Option<T>)
    ensures
        picked == newer(old_value, new_value),
{
    match new_value {
        Some(value) => Some(value),
        None => old_value,
    }
}

/// The preferences after an update.
pub open spec fn updated(prefs: Preferences, update: Preferences) -> Preferences {
    Preferences {
        celestial_coord_format: newer(
            prefs.celestial_coord_format,
            update.celestial_coord_format,
        ),
        eyepiece_fov: newer(prefs.eyepiece_fov, update.eyepiece_fov),
        night_vision_theme: newer(prefs.night_vision_theme, update.night_vision_theme),
        hide_app_bar: newer(prefs.hide_app_bar, update.hide_app_bar),
        mount_type: newer(prefs.mount_type, update.mount_type),
        observer_location: newer(prefs.observer_location, update.observer_location),
        update_interval: newer(prefs.update_interval, update.update_interval),
        catalog_entry_match: newer(prefs.catalog_entry_match, update.catalog_entry_match),
        max_distance_active: newer(prefs.max_distance_active, update.max_distance_active),
        max_distance: newer(prefs.max_distance, update.max_distance),
        min_elevation_active: newer(prefs.min_elevation_active, update.min_elevation_active),
        min_elevation: newer(prefs.min_elevation, update.min_elevation),
        ordering: newer(prefs.ordering, update.ordering),
        advanced: newer(prefs.advanced, update.advanced),
        text_size_index: newer(prefs.text_size_index, update.text_size_index),
        boresight_pixel: newer(prefs.boresight_pixel, update.boresight_pixel),
        invert_camera: newer(prefs.invert_camera, update.invert_camera),
        right_handed: newer(prefs.right_handed, update.right_handed),
        celestial_coord_choice: newer(
            prefs.celestial_coord_choice,
            update.celestial_coord_choice,
        ),
        screen_always_on: newer(prefs.screen_always_on, update.screen_always_on),
    }
}

/// Updates preferences: the fields that are present replace those that were. Refused, with
/// nothing changed, where the mount is to be set at the basic feature level.
pub fn update_preferences(prefs: &mut Preferences, update: Preferences, level: FeatureLevel) -> (r:
    Result<(), (CanonicalErrorCode, String)>)
    ensures
        r is Err <==> update.mount_type is Some && level == FeatureLevel::Basic,
        r matches Err(refusal) ==> {
            &&& refusal.0 == CanonicalErrorCode::InvalidArgument
            &&& refusal.1@ == "Cannot set mount type at Basic feature level"@
            &&& *final(prefs) == *old(prefs)
        },
        r is Ok ==> *final(prefs) == updated(*old(prefs), update),
{
    if update.mount_type.is_some() && level == FeatureLevel::Basic {
        return Err(
            (
                CanonicalErrorCode::InvalidArgument,
                "Cannot set mount type at Basic feature level".to_owned(),
            ),
        );
    }
    *prefs = Preferences {
        celestial_coord_format: pick(prefs.celestial_coord_format, update.celestial_coord_format),
        eyepiece_fov: pick(prefs.eyepiece_fov, update.eyepiece_fov),
        night_vision_theme: pick(prefs.night_vision_theme, update.night_vision_theme),
        hide_app_bar: pick(prefs.hide_app_bar, update.hide_app_bar),
        mount_type: pick(prefs.mount_type, update.mount_type),
        observer_location: pick(prefs.observer_location, update.observer_location),
        update_interval: pick(prefs.update_interval, update.update_interval),
        catalog_entry_match: pick(prefs.catalog_entry_match.take(), update.catalog_entry_match),
        max_distance_active: pick(prefs.max_distance_active, update.max_distance_active),
        max_distance: pick(prefs.max_distance, update.max_distance),
        min_elevation_active: pick(prefs.min_elevation_active, update.min_elevation_active),
        min_elevation: pick(prefs.min_elevation, update.min_elevation),
        ordering: pick(prefs.ordering, update.ordering),
        advanced: pick(prefs.advanced, update.advanced),
        text_size_index: pick(prefs.text_size_index, update.text_size_index),
        boresight_pixel: pick(prefs.boresight_pixel, update.boresight_pixel),
        invert_camera: pick(prefs.invert_camera, update.invert_camera),
        right_handed: pick(prefs.right_handed, update.right_handed),
        celestial_coord_choice: pick(prefs.celestial_coord_choice, update.celestial_coord_choice),
        screen_always_on: pick(prefs.screen_always_on, update.screen_always_on),
    };
    Ok(())
}

impl Default for Preferences {
    fn default() -> (prefs: Self)
        ensures
            prefs == Preferences::nothing(),
    {
        Preferences {
            celestial_coord_format: None,
            eyepiece_fov: None,
            night_vision_theme: None,
            hide_app_bar: None,
            mount_type: None,
            observer_location: None,
            update_interval: None,
            catalog_entry_match: None,
            max_distance_active: None,
            max_distance: None,
            min_elevation_active: None,
            min_elevation: None,
            ordering: None,
            advanced: None,
            text_size_index: None,
            boresight_pixel: None,
            invert_camera: None,
            right_handed: None,
            celestial_coord_choice: None,
            screen_always_on: None,
        }
    }
}

impl Preferences {
    /// The preferences without any field.
    pub open spec fn nothing() -> Preferences {
        Preferences {
            celestial_coord_format: None,
            eyepiece_fov: None,
            night_vision_theme: None,
            hide_app_bar: None,
            mount_type: None,
            observer_location: None,
            update_interval: None,
            catalog_entry_match: None,
            max_distance_active: None,
            max_distance: None,
            min_elevation_active: None,
            min_elevation: None,
            ordering: None,
            advanced: None,
            text_size_index: None,
            boresight_pixel: None,
            invert_camera: None,
            right_handed: None,
            celestial_coord_choice: None,
            screen_always_on: None,
        }
    }
}

/// An update without fields changes nothing, and one made twice is as one made once.
pub proof fn law_updates_replace(prefs: Preferences, update: Preferences)
    ensures
        updated(prefs, Preferences::nothing()) == prefs,
        updated(updated(prefs, update), update) == updated(prefs, update),
        updated(Preferences::nothing(), update) == update,
{
}

/// A number of a message after another is merged in. Zero is not written, so it leaves the
/// number as it is.
pub open spec fn merged_number(here: int, there: int) -> int {
    if there == 0 {
        here
    } else {
        there
    }
}

/// A place after another is merged in.
pub open spec fn merged_location(here: Option<LatLong>, there: Option<LatLong>) -> Option<
    LatLong,
> {
    match (here, there) {
        (Some(a), Some(b)) => Some(
            LatLong {
                latitude: merged_number(a.latitude as int, b.latitude as int) as i64,
                longitude: merged_number(a.longitude as int, b.longitude as int) as i64,
            },
        ),
        _ => newer(here, there),
    }
}

/// A span of time after another is merged in.
pub open spec fn merged_interval(here: Option<Interval>, there: Option<Interval>) -> Option<
    Interval,
> {
    match (here, there) {
        (Some(a), Some(b)) => Some(
            Interval {
                seconds: merged_number(a.seconds as int, b.seconds as int) as i64,
                nanos: merged_number(a.nanos as int, b.nanos as int) as i32,
            },
        ),
        _ => newer(here, there),
    }
}

/// A place in an image after another is merged in.
pub open spec fn merged_place(here: Option<ImageCoord>, there: Option<ImageCoord>) -> Option<
    ImageCoord,
> {
    match (here, there) {
        (Some(a), Some(b)) => Some(
            ImageCoord {
                x: merged_number(a.x as int, b.x as int) as i64,
                y: merged_number(a.y as int, b.y as int) as i64,
            },
        ),
        _ => newer(here, there),
    }
}

/// Whether a choice of catalog entries is another with a third merged in: lists grow.
pub open spec fn is_merged_match(
    merged: Option<CatalogEntryMatch>,
    here: Option<CatalogEntryMatch>,
    there: Option<CatalogEntryMatch>,
) -> bool {
    match (here, there) {
        (Some(a), Some(b)) => merged matches Some(m) && {
            &&& m.faintest_magnitude == newer(a.faintest_magnitude, b.faintest_magnitude)
            &&& m.match_catalog_label == (a.match_catalog_label || b.match_catalog_label)
            &&& m.catalog_label@ == a.catalog_label@ + b.catalog_label@
            &&& m.match_object_type_label == (a.match_object_type_label
                || b.match_object_type_label)
            &&& m.object_type_label@ == a.object_type_label@ + b.object_type_label@
        },
        _ => merged == newer(here, there),
    }
}

/// Whether preferences are others with a third merged in: a field that is present replaces the
/// one before, and a message within merges in turn.
pub open spec fn is_merged(merged: Preferences, here: Preferences, there: Preferences) -> bool {
    &&& is_merged_match(
        merged.catalog_entry_match,
        here.catalog_entry_match,
        there.catalog_entry_match,
    )
    &&& merged == (Preferences {
        observer_location: merged_location(here.observer_location, there.observer_location),
        update_interval: merged_interval(here.update_interval, there.update_interval),
        boresight_pixel: merged_place(here.boresight_pixel, there.boresight_pixel),
        catalog_entry_match: merged.catalog_entry_match,
        ..updated(here, there)
    })
}

/// The number after another is merged in.
fn merge_number(here: i64, there: i64) -> (merged: i64)
    ensures
        merged == merged_number(here as int, there as int),
{
    if there == 0 {
        here
    } else {
        there
    }
}

/// Merges two choices of catalog entries.
fn merge_match(here: Option<CatalogEntryMatch>, there: Option<CatalogEntryMatch>) -> (merged:
    Option<CatalogEntryMatch>)
    ensures
        is_merged_match(merged, here, there),
{
    match (here, there) {
        (Some(a), Some(b)) => {
            let mut catalog_label: Vec<String> = a.catalog_label;
            let mut more_catalogs: Vec<String> = b.catalog_label;
            catalog_label.append(&mut more_catalogs);
            let mut object_type_label: Vec<String> = a.object_type_label;
            let mut more_types: Vec<String> = b.object_type_label;
            object_type_label.append(&mut more_types);
            Some(
                CatalogEntryMatch {
                    faintest_magnitude: pick(a.faintest_magnitude, b.faintest_magnitude),
                    match_catalog_label: a.match_catalog_label || b.match_catalog_label,
                    catalog_label,
                    match_object_type_label: a.match_object_type_label
                        || b.match_object_type_label,
                    object_type_label,
                },
            )
        },
        (here, there) => pick(here, there),
    }
}

/// Merges preferences into others, as the wire format does: a field that is present replaces the
/// one before, and a message within merges in turn.
pub fn merge(here: Preferences, there: Preferences) -> (merged: Preferences)
    ensures
        is_merged(merged, here, there),
{
    let observer_location: Option<LatLong> = match (here.observer_location, there.observer_location) {
        (Some(a), Some(b)) => Some(
            LatLong {
                latitude: merge_number(a.latitude, b.latitude),
                longitude: merge_number(a.longitude, b.longitude),
            },
        ),
        (a, b) => pick(a, b),
    };
    let update_interval: Option<Interval> = match (here.update_interval, there.update_interval) {
        (Some(a), Some(b)) => Some(
            Interval {
                seconds: merge_number(a.seconds, b.seconds),
                nanos: if b.nanos == 0 { a.nanos } else { b.nanos },
            },
        ),
        (a, b) => pick(a, b),
    };
    let boresight_pixel: Option<ImageCoord> = match (here.boresight_pixel, there.boresight_pixel) {
        (Some(a), Some(b)) => Some(
            ImageCoord { x: merge_number(a.x, b.x), y: merge_number(a.y, b.y) },
        ),
        (a, b) => pick(a, b),
    };
    Preferences {
        celestial_coord_format: pick(here.celestial_coord_format, there.celestial_coord_format),
        eyepiece_fov: pick(here.eyepiece_fov, there.eyepiece_fov),
        night_vision_theme: pick(here.night_vision_theme, there.night_vision_theme),
        hide_app_bar: pick(here.hide_app_bar, there.hide_app_bar),
        mount_type: pick(here.mount_type, there.mount_type),
        observer_location,
        update_interval,
        catalog_entry_match: merge_match(here.catalog_entry_match, there.catalog_entry_match),
        max_distance_active: pick(here.max_distance_active, there.max_distance_active),
        max_distance: pick(here.max_distance, there.max_distance),
        min_elevation_active: pick(here.min_elevation_active, there.min_elevation_active),
        min_elevation: pick(here.min_elevation, there.min_elevation),
        ordering: pick(here.ordering, there.ordering),
        advanced: pick(here.advanced, there.advanced),
        text_size_index: pick(here.text_size_index, there.text_size_index),
        boresight_pixel,
        invert_camera: pick(here.invert_camera, there.invert_camera),
        right_handed: pick(here.right_handed, there.right_handed),
        celestial_coord_choice: pick(here.celestial_coord_choice, there.celestial_coord_choice),
        screen_always_on: pick(here.screen_always_on, there.screen_always_on),
    }
}

/// Whether preferences are initial ones with those of the saved file in their place, where the
/// file has them. A choice of catalog entries and an interval are replaced whole, not merged.
pub open spec fn is_loaded(loaded: Preferences, initial: Preferences, file: Preferences) -> bool {
    is_merged(
        loaded,
        Preferences {
            catalog_entry_match: if file.catalog_entry_match is Some {
                None
            } else {
                initial.catalog_entry_match
            },
            update_interval: if file.update_interval is Some {
                None
            } else {
                initial.update_interval
            },
            ..initial
        },
        file,
    )
}

/// Puts the preferences of the saved file in place of the initial ones.
pub fn load_preferences(initial: Preferences, file: Preferences) -> (loaded: Preferences)
    ensures
        is_loaded(loaded, initial, file),
{
    let mut base: Preferences = initial;
    if file.catalog_entry_match.is_some() {
        base.catalog_entry_match = None;
    }
    if file.update_interval.is_some() {
        base.update_interval = None;
    }
    merge(base, file)
}

/// Loading keeps each field that the file lacks, and takes each that it has. The initial
/// preferences name no place of the observer and no boresight.
pub proof fn law_loaded_prefers_file(loaded: Preferences, initial: Preferences, file: Preferences)
    requires
        is_loaded(loaded, initial, file),
        initial.observer_location is None,
        initial.boresight_pixel is None,
    ensures
        loaded == updated(initial, file),
{
}

/// How close to the edge of the image the boresight may lie, in pixels.
pub const BORESIGHT_INSET: i32 = 16;

/// Whether a boresight lies within an image, away from its edges.
pub open spec fn boresight_fits(boresight: ImageCoord, width: int, height: int) -> bool {
    &&& BORESIGHT_INSET * MICROPIXELS_PER_PIXEL <= boresight.x <= (width - BORESIGHT_INSET)
        * MICROPIXELS_PER_PIXEL
    &&& BORESIGHT_INSET * MICROPIXELS_PER_PIXEL <= boresight.y <= (height - BORESIGHT_INSET)
        * MICROPIXELS_PER_PIXEL
}

/// Whether a boresight lies within an image, away from its edges.
pub fn is_boresight_valid(boresight: ImageCoord, width: i32, height: i32) -> (valid: bool)
    ensures
        valid == boresight_fits(boresight, width as int, height as int),
{
    let inset: i64 = BORESIGHT_INSET as i64;
    let least: i64 = inset * MICROPIXELS_PER_PIXEL;
    let most_x: i64 = (width as i64 - inset) * MICROPIXELS_PER_PIXEL;
    let most_y: i64 = (height as i64 - inset) * MICROPIXELS_PER_PIXEL;
    !(boresight.x < least || boresight.x > most_x || boresight.y < least || boresight.y > most_y)
}

/// The faintest magnitude of a feature level.
pub open spec fn limit_magnitude(level: FeatureLevel) -> i32 {
    match level {
        FeatureLevel::Basic => 12,
        _ => 20,
    }
}

/// The shortest time between frames of a feature level, in nanoseconds.
pub open spec fn min_interval_nanos(level: FeatureLevel) -> i32 {
    match level {
        FeatureLevel::Plus => 100_000_000,
        FeatureLevel::Basic => 200_000_000,
        FeatureLevel::Diy => 0,
    }
}

/// An interval within the limit of a feature level.
pub open spec fn limited_interval(interval: Interval, level: FeatureLevel) -> Interval {
    if interval.seconds == 0 && interval.nanos < min_interval_nanos(level) {
        Interval { seconds: 0, nanos: min_interval_nanos(level) }
    } else {
        interval
    }
}

/// Whether a choice of catalog entries is another within the limit of a feature level.
pub open spec fn is_limited_match(
    limited: Option<CatalogEntryMatch>,
    wanted: Option<CatalogEntryMatch>,
    level: FeatureLevel,
) -> bool {
    match wanted {
        Some(wanted) => limited == Some(
            CatalogEntryMatch {
                faintest_magnitude: match wanted.faintest_magnitude {
                    Some(magnitude) => if magnitude > limit_magnitude(level) {
                        Some(limit_magnitude(level))
                    } else {
                        Some(magnitude)
                    },
                    None => None,
                },
                ..wanted
            },
        ),
        None => limited is None,
    }
}

/// Whether preferences are others within the limits of the camera and of the feature level.
pub open spec fn is_validated(
    valid: Preferences,
    prefs: Preferences,
    width: int,
    height: int,
    level: FeatureLevel,
) -> bool {
    &&& is_limited_match(valid.catalog_entry_match, prefs.catalog_entry_match, level)
    &&& valid == (Preferences {
        boresight_pixel: match prefs.boresight_pixel {
            Some(boresight) => if boresight_fits(boresight, width, height) {
                Some(boresight)
            } else {
                None
            },
            None => None,
        },
        update_interval: match prefs.update_interval {
            Some(interval) => Some(limited_interval(interval, level)),
            None => None,
        },
        catalog_entry_match: valid.catalog_entry_match,
        mount_type: if level == FeatureLevel::Basic {
            Some(MountType::AltAz)
        } else {
            prefs.mount_type
        },
        ..prefs
    })
}

/// Brings preferences within the limits of the camera and of the feature level, either of which
/// may have changed since they were saved.
pub fn validate_preferences(prefs: Preferences, width: i32, height: i32, level: FeatureLevel) -> (
    valid: Preferences)
    requires
        prefs.catalog_entry_match matches Some(wanted) ==> wanted.faintest_magnitude is Some,
    ensures
        is_validated(valid, prefs, width as int, height as int, level),
{
    let mut valid: Preferences = prefs;
    if let Some(boresight) = valid.boresight_pixel {
        if !is_boresight_valid(boresight, width, height) {
            valid.boresight_pixel = None;
        }
    }
    let (limit, nanos): (i32, i32) = match level {
        FeatureLevel::Plus => (20, 100_000_000),
        FeatureLevel::Basic => (12, 200_000_000),
        FeatureLevel::Diy => (20, 0),
    };
    if let Some(interval) = valid.update_interval {
        if interval.seconds == 0 && interval.nanos < nanos {
            valid.update_interval = Some(Interval { seconds: 0, nanos });
        }
    }
    let wanted: Option<CatalogEntryMatch> = valid.catalog_entry_match;
    valid.catalog_entry_match = match wanted {
        Some(mut wanted) => {
            if let Some(magnitude) = wanted.faintest_magnitude {
                if magnitude > limit {
                    wanted.faintest_magnitude = Some(limit);
                }
            }
            Some(wanted)
        },
        None => None,
    };
    if level == FeatureLevel::Basic {
        valid.mount_type = Some(MountType::AltAz);
    }
    valid
}

/// Preferences that were brought within the limits stay as they are the next time.
pub proof fn law_validated_is_stable(
    again: Preferences,
    valid: Preferences,
    prefs: Preferences,
    width: int,
    height: int,
    level: FeatureLevel,
)
    requires
        is_validated(valid, prefs, width, height, level),
        is_validated(again, valid, width, height, level),
    ensures
        again == valid,
{
}

/// The catalogs that there are.
pub open spec fn all_catalogs() -> Seq<Seq<char>> {
    seq!["M"@, "NGC"@, "IC"@, "IAU"@, "PL"@]
}

/// The types of object that there are.
pub open spec fn all_object_types() -> Seq<Seq<char>> {
    seq![
        "star"@,
        "double star"@,
        "star association"@,
        "open cluster"@,
        "globular cluster"@,
        "star cluster + nebula"@,
        "galaxy"@,
        "galaxy pair"@,
        "galaxy triplet"@,
        "galaxy group"@,
        "planetary nebula"@,
        "HII ionized region"@,
        "dark nebula"@,
        "emission nebula"@,
        "nebula"@,
        "reflection nebula"@,
        "supernova remnant"@,
        "nova star"@,
        "planet"@,
        "dwarf planet"@,
    ]
}

/// Lists the catalogs that there are.
fn list_catalogs() -> (list: Vec<String>)
    ensures
        crate::text::views(list@) == all_catalogs(),
{
    let mut list: Vec<String> = Vec::new();
    list.push("M".to_owned());
    list.push("NGC".to_owned());
    list.push("IC".to_owned());
    list.push("IAU".to_owned());
    list.push("PL".to_owned());
    assert(crate::text::views(list@) =~= all_catalogs());
    list
}

/// Lists the types of object that there are.
fn list_object_types() -> (list: Vec<String>)
    ensures
        crate::text::views(list@) == all_object_types(),
{
    let mut list: Vec<String> = Vec::new();
    list.push("star".to_owned());
    list.push("double star".to_owned());
    list.push("star association".to_owned());
    list.push("open cluster".to_owned());
    list.push("globular cluster".to_owned());
    list.push("star cluster + nebula".to_owned());
    list.push("galaxy".to_owned());
    list.push("galaxy pair".to_owned());
    list.push("galaxy triplet".to_owned());
    list.push("galaxy group".to_owned());
    list.push("planetary nebula".to_owned());
    list.push("HII ionized region".to_owned());
    list.push("dark nebula".to_owned());
    list.push("emission nebula".to_owned());
    list.push("nebula".to_owned());
    list.push("reflection nebula".to_owned());
    list.push("supernova remnant".to_owned());
    list.push("nova star".to_owned());
    list.push("planet".to_owned());
    list.push("dwarf planet".to_owned());
    assert(crate::text::views(list@) =~= all_object_types());
    list
}

/// The faintest magnitude that a feature level starts with.
pub open spec fn initial_magnitude(level: FeatureLevel) -> i32 {
    match level {
        FeatureLevel::Plus => 12,
        FeatureLevel::Basic => 8,
        FeatureLevel::Diy => 10,
    }
}

/// The time between frames that a feature level starts with, in nanoseconds.
pub open spec fn initial_interval_nanos(level: FeatureLevel) -> i32 {
    match level {
        FeatureLevel::Plus => 100_000_000,
        FeatureLevel::Basic => 333_000_000,
        FeatureLevel::Diy => 0,
    }
}

/// Whether a choice of catalog entries is the one to start with: everything down to the magnitude
/// of the feature level, where there is a sky catalog at all.
pub open spec fn is_initial_match(
    wanted: Option<CatalogEntryMatch>,
    level: FeatureLevel,
    has_cedar_sky: bool,
) -> bool {
    if has_cedar_sky {
        wanted matches Some(m) && {
            &&& m.faintest_magnitude == Some(initial_magnitude(level))
            &&& m.match_catalog_label
            &&& crate::text::views(m.catalog_label@) == all_catalogs()
            &&& m.match_object_type_label
            &&& crate::text::views(m.object_type_label@) == all_object_types()
        }
    } else {
        wanted is None
    }
}

/// Whether preferences are the ones to start with.
pub open spec fn is_initial(
    prefs: Preferences,
    level: FeatureLevel,
    has_cedar_sky: bool,
    invert_camera: bool,
) -> bool {
    &&& is_initial_match(prefs.catalog_entry_match, level, has_cedar_sky)
    &&& prefs == (Preferences {
        celestial_coord_format: Some(CelestialCoordFormat::HmsDms),
        eyepiece_fov: Some(MICROARCSECONDS_PER_DEGREE),
        night_vision_theme: Some(false),
        hide_app_bar: Some(true),
        mount_type: Some(MountType::AltAz),
        observer_location: None,
        update_interval: Some(Interval { seconds: 0, nanos: initial_interval_nanos(level) }),
        catalog_entry_match: prefs.catalog_entry_match,
        max_distance_active: Some(false),
        max_distance: Some((60 * MICROARCSECONDS_PER_DEGREE) as i64),
        min_elevation_active: Some(true),
        min_elevation: Some((20 * MICROARCSECONDS_PER_DEGREE) as i64),
        ordering: Some(SearchOrder::Brightness),
        advanced: Some(false),
        text_size_index: Some(0),
        boresight_pixel: None,
        invert_camera: Some(invert_camera),
        right_handed: Some(true),
        celestial_coord_choice: Some(CelestialCoordChoice::RaDec),
        screen_always_on: Some(true),
    })
}

/// The preferences to start with, for what the saved file lacks.
pub fn initial_preferences(level: FeatureLevel, has_cedar_sky: bool, invert_camera: bool) -> (prefs:
    Preferences)
    ensures
        is_initial(prefs, level, has_cedar_sky, invert_camera),
{
    let (magnitude, nanos): (i32, i32) = match level {
        FeatureLevel::Plus => (12, 100_000_000),
        FeatureLevel::Basic => (8, 333_000_000),
        FeatureLevel::Diy => (10, 0),
    };
    let catalog_entry_match: Option<CatalogEntryMatch> = if has_cedar_sky {
        Some(
            CatalogEntryMatch {
                faintest_magnitude: Some(magnitude),
                match_catalog_label: true,
                catalog_label: list_catalogs(),
                match_object_type_label: true,
                object_type_label: list_object_types(),
            },
        )
    } else {
        None
    };
    Preferences {
        celestial_coord_format: Some(CelestialCoordFormat::HmsDms),
        eyepiece_fov: Some(MICROARCSECONDS_PER_DEGREE),
        night_vision_theme: Some(false),
        hide_app_bar: Some(true),
        mount_type: Some(MountType::AltAz),
        observer_location: None,
        update_interval: Some(Interval { seconds: 0, nanos }),
        catalog_entry_match,
        max_distance_active: Some(false),
        max_distance: Some(60 * MICROARCSECONDS_PER_DEGREE),
        min_elevation_active: Some(true),
        min_elevation: Some(20 * MICROARCSECONDS_PER_DEGREE),
        ordering: Some(SearchOrder::Brightness),
        advanced: Some(false),
        text_size_index: Some(0),
        boresight_pixel: None,
        invert_camera: Some(invert_camera),
        right_handed: Some(true),
        celestial_coord_choice: Some(CelestialCoordChoice::RaDec),
        screen_always_on: Some(true),
    }
}

/// Where there is no saved file, the preferences to start with are within the limits of every
/// feature level already.
pub proof fn law_initial_is_valid(
    valid: Preferences,
    prefs: Preferences,
    level: FeatureLevel,
    has_cedar_sky: bool,
    invert_camera: bool,
    width: int,
    height: int,
)
    requires
        is_initial(prefs, level, has_cedar_sky, invert_camera),
        is_validated(valid, prefs, width, height, level),
    ensures
        valid == prefs,
{
}

/// An update sets each field that it has, and leaves each other field as it was. Only a mount at
/// the basic feature level is refused, and then everything stays.
pub proof fn law_updates_set_what_they_have(
    prefs: &mut Preferences,
    update: Preferences,
    level: FeatureLevel,
    r: Result<(), (CanonicalErrorCode, String)>,
)
    requires
        call_ensures(update_preferences, (prefs, update, level), r),
    ensures
        r is Ok <==> update.mount_type is None || level != FeatureLevel::Basic,
        r is Err ==> *final(prefs) == *old(prefs),
        r matches Err(refusal) ==> refusal.0 == CanonicalErrorCode::InvalidArgument,
        r is Ok ==> {
            &&& update.celestial_coord_format is Some ==> final(prefs).celestial_coord_format
                == update.celestial_coord_format
            &&& update.celestial_coord_format is None ==> final(prefs).celestial_coord_format
                == old(prefs).celestial_coord_format
            &&& update.eyepiece_fov is Some ==> final(prefs).eyepiece_fov == update.eyepiece_fov
            &&& update.eyepiece_fov is None ==> final(prefs).eyepiece_fov == old(prefs).eyepiece_fov
            &&& update.night_vision_theme is Some ==> final(prefs).night_vision_theme
                == update.night_vision_theme
            &&& update.night_vision_theme is None ==> final(prefs).night_vision_theme
                == old(prefs).night_vision_theme
            &&& update.hide_app_bar is Some ==> final(prefs).hide_app_bar == update.hide_app_bar
            &&& update.hide_app_bar is None ==> final(prefs).hide_app_bar == old(prefs).hide_app_bar
            &&& update.mount_type is Some ==> final(prefs).mount_type == update.mount_type
            &&& update.mount_type is None ==> final(prefs).mount_type == old(prefs).mount_type
            &&& update.observer_location is Some ==> final(prefs).observer_location
                == update.observer_location
            &&& update.observer_location is None ==> final(prefs).observer_location
                == old(prefs).observer_location
            &&& update.update_interval is Some ==> final(prefs).update_interval
                == update.update_interval
            &&& update.update_interval is None ==> final(prefs).update_interval
                == old(prefs).update_interval
            &&& update.catalog_entry_match is Some ==> final(prefs).catalog_entry_match
                == update.catalog_entry_match
            &&& update.catalog_entry_match is None ==> final(prefs).catalog_entry_match
                == old(prefs).catalog_entry_match
            &&& update.max_distance_active is Some ==> final(prefs).max_distance_active
                == update.max_distance_active
            &&& update.max_distance_active is None ==> final(prefs).max_distance_active
                == old(prefs).max_distance_active
            &&& update.max_distance is Some ==> final(prefs).max_distance == update.max_distance
            &&& update.max_distance is None ==> final(prefs).max_distance == old(prefs).max_distance
            &&& update.min_elevation_active is Some ==> final(prefs).min_elevation_active
                == update.min_elevation_active
            &&& update.min_elevation_active is None ==> final(prefs).min_elevation_active
                == old(prefs).min_elevation_active
            &&& update.min_elevation is Some ==> final(prefs).min_elevation == update.min_elevation
            &&& update.min_elevation is None ==> final(prefs).min_elevation
                == old(prefs).min_elevation
            &&& update.ordering is Some ==> final(prefs).ordering == update.ordering
            &&& update.ordering is None ==> final(prefs).ordering == old(prefs).ordering
            &&& update.advanced is Some ==> final(prefs).advanced == update.advanced
            &&& update.advanced is None ==> final(prefs).advanced == old(prefs).advanced
            &&& update.text_size_index is Some ==> final(prefs).text_size_index
                == update.text_size_index
            &&& update.text_size_index is None ==> final(prefs).text_size_index
                == old(prefs).text_size_index
            &&& update.boresight_pixel is Some ==> final(prefs).boresight_pixel
                == update.boresight_pixel
            &&& update.boresight_pixel is None ==> final(prefs).boresight_pixel
                == old(prefs).boresight_pixel
            &&& update.invert_camera is Some ==> final(prefs).invert_camera == update.invert_camera
            &&& update.invert_camera is None ==> final(prefs).invert_camera
                == old(prefs).invert_camera
            &&& update.right_handed is Some ==> final(prefs).right_handed == update.right_handed
            &&& update.right_handed is None ==> final(prefs).right_handed == old(prefs).right_handed
            &&& update.celestial_coord_choice is Some ==> final(prefs).celestial_coord_choice
                == update.celestial_coord_choice
            &&& update.celestial_coord_choice is None ==> final(prefs).celestial_coord_choice
                == old(prefs).celestial_coord_choice
            &&& update.screen_always_on is Some ==> final(prefs).screen_always_on
                == update.screen_always_on
            &&& update.screen_always_on is None ==> final(prefs).screen_always_on
                == old(prefs).screen_always_on
        },
{
}

/// A file that is loaded sets each field that it has, and the preferences to start with stay in
/// force for the others. Neither a choice of catalog entries nor a time between frames is mixed of
/// both.
pub proof fn law_file_goes_before_defaults(
    level: FeatureLevel,
    has_cedar_sky: bool,
    invert_camera: bool,
    initial: Preferences,
    file: Preferences,
    loaded: Preferences,
)
    requires
        call_ensures(initial_preferences, (level, has_cedar_sky, invert_camera), initial),
        call_ensures(load_preferences, (initial, file), loaded),
    ensures
        ({
            &&& file.celestial_coord_format is Some ==> loaded.celestial_coord_format
                == file.celestial_coord_format
            &&& file.celestial_coord_format is None ==> loaded.celestial_coord_format
                == initial.celestial_coord_format
            &&& file.eyepiece_fov is Some ==> loaded.eyepiece_fov == file.eyepiece_fov
            &&& file.eyepiece_fov is None ==> loaded.eyepiece_fov == initial.eyepiece_fov
            &&& file.night_vision_theme is Some ==> loaded.night_vision_theme
                == file.night_vision_theme
            &&& file.night_vision_theme is None ==> loaded.night_vision_theme
                == initial.night_vision_theme
            &&& file.hide_app_bar is Some ==> loaded.hide_app_bar == file.hide_app_bar
            &&& file.hide_app_bar is None ==> loaded.hide_app_bar == initial.hide_app_bar
            &&& file.mount_type is Some ==> loaded.mount_type == file.mount_type
            &&& file.mount_type is None ==> loaded.mount_type == initial.mount_type
            &&& file.observer_location is Some ==> loaded.observer_location
                == file.observer_location
            &&& file.observer_location is None ==> loaded.observer_location
                == initial.observer_location
            &&& file.update_interval is Some ==> loaded.update_interval == file.update_interval
            &&& file.update_interval is None ==> loaded.update_interval == initial.update_interval
            &&& file.catalog_entry_match is Some ==> loaded.catalog_entry_match
                == file.catalog_entry_match
            &&& file.catalog_entry_match is None ==> loaded.catalog_entry_match
                == initial.catalog_entry_match
            &&& file.max_distance_active is Some ==> loaded.max_distance_active
                == file.max_distance_active
            &&& file.max_distance_active is None ==> loaded.max_distance_active
                == initial.max_distance_active
            &&& file.max_distance is Some ==> loaded.max_distance == file.max_distance
            &&& file.max_distance is None ==> loaded.max_distance == initial.max_distance
            &&& file.min_elevation_active is Some ==> loaded.min_elevation_active
                == file.min_elevation_active
            &&& file.min_elevation_active is None ==> loaded.min_elevation_active
                == initial.min_elevation_active
            &&& file.min_elevation is Some ==> loaded.min_elevation == file.min_elevation
            &&& file.min_elevation is None ==> loaded.min_elevation == initial.min_elevation
            &&& file.ordering is Some ==> loaded.ordering == file.ordering
            &&& file.ordering is None ==> loaded.ordering == initial.ordering
            &&& file.advanced is Some ==> loaded.advanced == file.advanced
            &&& file.advanced is None ==> loaded.advanced == initial.advanced
            &&& file.text_size_index is Some ==> loaded.text_size_index == file.text_size_index
            &&& file.text_size_index is None ==> loaded.text_size_index == initial.text_size_index
            &&& file.boresight_pixel is Some ==> loaded.boresight_pixel == file.boresight_pixel
            &&& file.boresight_pixel is None ==> loaded.boresight_pixel == initial.boresight_pixel
            &&& file.invert_camera is Some ==> loaded.invert_camera == file.invert_camera
            &&& file.invert_camera is None ==> loaded.invert_camera == initial.invert_camera
            &&& file.right_handed is Some ==> loaded.right_handed == file.right_handed
            &&& file.right_handed is None ==> loaded.right_handed == initial.right_handed
            &&& file.celestial_coord_choice is Some ==> loaded.celestial_coord_choice
                == file.celestial_coord_choice
            &&& file.celestial_coord_choice is None ==> loaded.celestial_coord_choice
                == initial.celestial_coord_choice
            &&& file.screen_always_on is Some ==> loaded.screen_always_on == file.screen_always_on
            &&& file.screen_always_on is None ==> loaded.screen_always_on
                == initial.screen_always_on
        }),
{
}

/// Merging two preferences keeps what only one has and prefers the second otherwise. Places and
/// times that both have mix by their numbers, where zero counts as missing; lists grow.
pub proof fn law_merging_prefers_the_second(
    here: Preferences,
    there: Preferences,
    merged: Preferences,
)
    requires
        call_ensures(merge, (here, there), merged),
    ensures
        ({
            &&& there.celestial_coord_format is Some ==> merged.celestial_coord_format
                == there.celestial_coord_format
            &&& there.celestial_coord_format is None ==> merged.celestial_coord_format
                == here.celestial_coord_format
            &&& there.eyepiece_fov is Some ==> merged.eyepiece_fov == there.eyepiece_fov
            &&& there.eyepiece_fov is None ==> merged.eyepiece_fov == here.eyepiece_fov
            &&& there.night_vision_theme is Some ==> merged.night_vision_theme
                == there.night_vision_theme
            &&& there.night_vision_theme is None ==> merged.night_vision_theme
                == here.night_vision_theme
            &&& there.hide_app_bar is Some ==> merged.hide_app_bar == there.hide_app_bar
            &&& there.hide_app_bar is None ==> merged.hide_app_bar == here.hide_app_bar
            &&& there.mount_type is Some ==> merged.mount_type == there.mount_type
            &&& there.mount_type is None ==> merged.mount_type == here.mount_type
            &&& there.max_distance_active is Some ==> merged.max_distance_active
                == there.max_distance_active
            &&& there.max_distance_active is None ==> merged.max_distance_active
                == here.max_distance_active
            &&& there.max_distance is Some ==> merged.max_distance == there.max_distance
            &&& there.max_distance is None ==> merged.max_distance == here.max_distance
            &&& there.min_elevation_active is Some ==> merged.min_elevation_active
                == there.min_elevation_active
            &&& there.min_elevation_active is None ==> merged.min_elevation_active
                == here.min_elevation_active
            &&& there.min_elevation is Some ==> merged.min_elevation == there.min_elevation
            &&& there.min_elevation is None ==> merged.min_elevation == here.min_elevation
            &&& there.ordering is Some ==> merged.ordering == there.ordering
            &&& there.ordering is None ==> merged.ordering == here.ordering
            &&& there.advanced is Some ==> merged.advanced == there.advanced
            &&& there.advanced is None ==> merged.advanced == here.advanced
            &&& there.text_size_index is Some ==> merged.text_size_index == there.text_size_index
            &&& there.text_size_index is None ==> merged.text_size_index == here.text_size_index
            &&& there.invert_camera is Some ==> merged.invert_camera == there.invert_camera
            &&& there.invert_camera is None ==> merged.invert_camera == here.invert_camera
            &&& there.right_handed is Some ==> merged.right_handed == there.right_handed
            &&& there.right_handed is None ==> merged.right_handed == here.right_handed
            &&& there.celestial_coord_choice is Some ==> merged.celestial_coord_choice
                == there.celestial_coord_choice
            &&& there.celestial_coord_choice is None ==> merged.celestial_coord_choice
                == here.celestial_coord_choice
            &&& there.screen_always_on is Some ==> merged.screen_always_on == there.screen_always_on
            &&& there.screen_always_on is None ==> merged.screen_always_on == here.screen_always_on
            &&& there.observer_location is None ==> merged.observer_location
                == here.observer_location
            &&& there.boresight_pixel is None ==> merged.boresight_pixel == here.boresight_pixel
            &&& there.update_interval is None ==> merged.update_interval == here.update_interval
            &&& there.catalog_entry_match is None ==> merged.catalog_entry_match
                == here.catalog_entry_match
            &&& here.catalog_entry_match is None ==> merged.catalog_entry_match
                == there.catalog_entry_match
        }),
        there.observer_location matches Some(b) ==> (merged.observer_location matches Some(m) && (
        b.latitude != 0 || here.observer_location is None ==> m.latitude == b.latitude) && (
        b.longitude != 0 || here.observer_location is None ==> m.longitude == b.longitude) && (
        here.observer_location matches Some(a) ==> (b.latitude == 0 ==> m.latitude == a.latitude)
            && (b.longitude == 0 ==> m.longitude == a.longitude))),
        there.boresight_pixel matches Some(b) ==> (merged.boresight_pixel matches Some(m) && (b.x
            != 0 || here.boresight_pixel is None ==> m.x == b.x) && (b.y != 0
            || here.boresight_pixel is None ==> m.y == b.y) && (
        here.boresight_pixel matches Some(a) ==> (b.x == 0 ==> m.x == a.x) && (b.y == 0 ==> m.y
            == a.y))),
        there.update_interval matches Some(b) ==> (merged.update_interval matches Some(m) && (
        b.seconds != 0 || here.update_interval is None ==> m.seconds == b.seconds) && (b.nanos != 0
            || here.update_interval is None ==> m.nanos == b.nanos) && (
        here.update_interval matches Some(a) ==> (b.seconds == 0 ==> m.seconds == a.seconds) && (
        b.nanos == 0 ==> m.nanos == a.nanos))),
        here.catalog_entry_match matches Some(a) ==> (there.catalog_entry_match matches Some(b)
            ==> (merged.catalog_entry_match matches Some(m) && {
            &&& m.catalog_label@.len() == a.catalog_label@.len() + b.catalog_label@.len()
            &&& forall|i: int|
                0 <= i < a.catalog_label@.len() ==> m.catalog_label@[i] == a.catalog_label@[i]
            &&& forall|i: int|
                0 <= i < b.catalog_label@.len()
                    ==> #[trigger] m.catalog_label@[a.catalog_label@.len()
                    + i] == b.catalog_label@[i]
            &&& m.object_type_label@.len() == a.object_type_label@.len()
                + b.object_type_label@.len()
            &&& b.faintest_magnitude is Some ==> m.faintest_magnitude == b.faintest_magnitude
            &&& b.faintest_magnitude is None ==> m.faintest_magnitude == a.faintest_magnitude
            &&& m.match_catalog_label <==> a.match_catalog_label || b.match_catalog_label
            &&& m.match_object_type_label <==> a.match_object_type_label
                || b.match_object_type_label
        })),
{
}

/// A boresight may lie up to sixteen pixels from an edge. Mirrored it is as good, and closer to the
/// center no worse.
pub proof fn law_boresight_keeps_away_from_edges(
    place: ImageCoord,
    mirrored: ImageCoord,
    width: i32,
    height: i32,
    valid: bool,
    valid_mirrored: bool,
)
    requires
        mirrored.x + place.x == 1_000_000 * width && mirrored.y + place.y == 1_000_000 * height,
        call_ensures(is_boresight_valid, (place, width, height), valid),
        call_ensures(is_boresight_valid, (mirrored, width, height), valid_mirrored),
    ensures
        valid == valid_mirrored,
        valid ==> place.x >= 16_000_000 && place.y >= 16_000_000 && mirrored.x >= 16_000_000
            && mirrored.y >= 16_000_000,
        !valid ==> place.x < 16_000_000 || place.y < 16_000_000 || mirrored.x < 16_000_000
            || mirrored.y < 16_000_000,
{
}

/// Preferences within the limits: the boresight stays where it lies within the image, frames come
/// no faster than the feature level allows, entries are no fainter than it allows, and the basic
/// one has an alt-az mount. What is within the limits stays as it is, and nothing else changes.
pub proof fn law_limits_are_kept(
    prefs: Preferences,
    width: i32,
    height: i32,
    level: FeatureLevel,
    valid: Preferences,
)
    requires
        call_ensures(validate_preferences, (prefs, width, height, level), valid),
    ensures
        valid.boresight_pixel matches Some(place) ==> prefs.boresight_pixel == Some(place)
            && 16_000_000 <= place.x <= 1_000_000 * (width - 16) && 16_000_000 <= place.y
            <= 1_000_000 * (height - 16),
        prefs.boresight_pixel matches Some(place) ==> (16_000_000 <= place.x <= 1_000_000 * (width
            - 16) && 16_000_000 <= place.y <= 1_000_000 * (height - 16)
            ==> valid.boresight_pixel == Some(place)),
        valid.update_interval is Some <==> prefs.update_interval is Some,
        prefs.update_interval matches Some(wanted) ==> ({
            let got = valid.update_interval->0;
            let least = match level {
                FeatureLevel::Basic => 200_000_000int,
                FeatureLevel::Plus => 100_000_000,
                FeatureLevel::Diy => 0,
            };
            &&& got.seconds == wanted.seconds
            &&& got.seconds == 0 ==> got.nanos >= least
            &&& got.nanos == wanted.nanos || (wanted.nanos < least && got.nanos == least)
            &&& wanted.seconds != 0 ==> got == wanted
        }),
        valid.catalog_entry_match is Some <==> prefs.catalog_entry_match is Some,
        prefs.catalog_entry_match matches Some(wanted) ==> ({
            let got = valid.catalog_entry_match->0;
            let most = if level == FeatureLevel::Basic {
                12int
            } else {
                20
            };
            &&& got.catalog_label == wanted.catalog_label && got.object_type_label
                == wanted.object_type_label && got.match_catalog_label
                == wanted.match_catalog_label && got.match_object_type_label
                == wanted.match_object_type_label
            &&& wanted.faintest_magnitude matches Some(magnitude) ==> (
            got.faintest_magnitude matches Some(limited) && limited <= most && (limited == magnitude
                || (magnitude > most && limited == most)))
        }),
        level == FeatureLevel::Basic ==> valid.mount_type == Some(MountType::AltAz),
        level != FeatureLevel::Basic ==> valid.mount_type == prefs.mount_type,
        valid.celestial_coord_format == prefs.celestial_coord_format,
        valid.eyepiece_fov == prefs.eyepiece_fov,
        valid.night_vision_theme == prefs.night_vision_theme,
        valid.hide_app_bar == prefs.hide_app_bar,
        valid.observer_location == prefs.observer_location,
        valid.max_distance_active == prefs.max_distance_active,
        valid.max_distance == prefs.max_distance,
        valid.min_elevation_active == prefs.min_elevation_active,
        valid.min_elevation == prefs.min_elevation,
        valid.ordering == prefs.ordering,
        valid.advanced == prefs.advanced,
        valid.text_size_index == prefs.text_size_index,
        valid.invert_camera == prefs.invert_camera,
        valid.right_handed == prefs.right_handed,
        valid.celestial_coord_choice == prefs.celestial_coord_choice,
        valid.screen_always_on == prefs.screen_always_on,
{
}

/// The preferences to start with: frames come as fast and entries are as faint as the feature level
/// starts with, a mount is alt-az, one looks up to sixty degrees away and twenty degrees up, an
/// eyepiece shows a degree; the observer's place and the boresight are not known. The catalogs and
/// the types of object are all there are, where there is a catalog.
pub proof fn law_defaults(
    level: FeatureLevel,
    has_cedar_sky: bool,
    invert_camera: bool,
    prefs: Preferences,
)
    requires
        call_ensures(initial_preferences, (level, has_cedar_sky, invert_camera), prefs),
    ensures
        prefs.update_interval == Some(
            Interval {
                seconds: 0,
                nanos: match level {
                    FeatureLevel::Diy => 0,
                    FeatureLevel::Plus => 100_000_000,
                    FeatureLevel::Basic => 333_000_000,
                },
            },
        ),
        prefs.eyepiece_fov == Some(3_600_000_000i64),
        prefs.max_distance == Some(216_000_000_000i64) && prefs.max_distance_active == Some(false),
        prefs.min_elevation == Some(72_000_000_000i64) && prefs.min_elevation_active == Some(true),
        prefs.mount_type == Some(MountType::AltAz),
        prefs.celestial_coord_format == Some(CelestialCoordFormat::HmsDms)
            && prefs.celestial_coord_choice == Some(CelestialCoordChoice::RaDec),
        prefs.ordering == Some(SearchOrder::Brightness),
        prefs.night_vision_theme == Some(false) && prefs.hide_app_bar == Some(true)
            && prefs.advanced == Some(false) && prefs.text_size_index == Some(0i32)
            && prefs.right_handed == Some(true) && prefs.screen_always_on == Some(true),
        prefs.invert_camera == Some(invert_camera),
        prefs.observer_location is None && prefs.boresight_pixel is None,
        prefs.catalog_entry_match is Some <==> has_cedar_sky,
        prefs.catalog_entry_match matches Some(m) ==> {
            &&& m.faintest_magnitude == Some(
                match level {
                    FeatureLevel::Basic => 8i32,
                    FeatureLevel::Diy => 10,
                    FeatureLevel::Plus => 12,
                },
            )
            &&& m.match_catalog_label && m.match_object_type_label
            &&& m.catalog_label@.len() == 5 && m.object_type_label@.len() == 20
            &&& m.catalog_label@[0]@ == "M"@ && m.catalog_label@[1]@ == "NGC"@
                && m.catalog_label@[2]@ == "IC"@ && m.catalog_label@[3]@ == "IAU"@
                && m.catalog_label@[4]@ == "PL"@
            &&& m.object_type_label@[0]@ == "star"@ && m.object_type_label@[6]@ == "galaxy"@
                && m.object_type_label@[18]@ == "planet"@
        },
{
    if let Some(m) = prefs.catalog_entry_match {
        let catalogs = crate::text::views(m.catalog_label@);
        let types = crate::text::views(m.object_type_label@);
        assert(catalogs.len() == 5 && types.len() == 20);
        assert(forall|i: int| 0 <= i < 5 ==> #[trigger] m.catalog_label@[i]@ == catalogs[i]);
        assert(forall|i: int| 0 <= i < 20 ==> #[trigger] m.object_type_label@[i]@ == types[i]);
        assert(catalogs[0] == "M"@ && catalogs[1] == "NGC"@ && catalogs[2] == "IC"@ && catalogs[3]
            == "IAU"@ && catalogs[4] == "PL"@);
        assert(types[0] == "star"@ && types[6] == "galaxy"@ && types[18] == "planet"@);
    }
}

} // verus!
