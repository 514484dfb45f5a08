//! Preferences.

use cedar_server::astro_util::ImageCoord;
use cedar_server::calibration::CanonicalErrorCode;
use cedar_server::cedar::{FeatureLevel, MountType};
use cedar_server::preferences::{
    initial_preferences, is_boresight_valid, load_preferences, merge, update_preferences,
    validate_preferences, Interval, Preferences,
};

const DEGREE: i64 = 3_600_000_000;

#[test]
fn test_proto_merge() {
    let prefs1 = Preferences {
        eyepiece_fov: Some(DEGREE),
        night_vision_theme: Some(true),
        ..Default::default()
    };
    let prefs2 = Preferences {
        night_vision_theme: Some(false),
        hide_app_bar: Some(true),
        ..Default::default()
    };
    let prefs1 = merge(prefs1, prefs2);

    // Field present only in prefs1.
    assert_eq!(prefs1.eyepiece_fov, Some(DEGREE));

    // Field present on both protos, take prefs2 value.
    assert_eq!(prefs1.night_vision_theme, Some(false));

    // Field present only in prefs2.
    assert_eq!(prefs1.hide_app_bar, Some(true));
}

#[test]
fn updates_replace_fields() {
    let mut prefs =
        Preferences { advanced: Some(false), text_size_index: Some(1), ..Default::default() };
    let update = Preferences { advanced: Some(true), ..Default::default() };
    assert_eq!(update_preferences(&mut prefs, update, FeatureLevel::Diy), Ok(()));
    assert_eq!((prefs.advanced, prefs.text_size_index), (Some(true), Some(1)));
}

#[test]
fn the_mount_is_fixed_at_the_basic_level() {
    let mut prefs =
        Preferences { mount_type: Some(MountType::AltAz), advanced: Some(false), ..Default::default() };
    let update = || Preferences {
        mount_type: Some(MountType::Equatorial),
        advanced: Some(true),
        ..Default::default()
    };
    let refused = update_preferences(&mut prefs, update(), FeatureLevel::Basic);
    let words = "Cannot set mount type at Basic feature level".to_string();
    assert_eq!(refused, Err((CanonicalErrorCode::InvalidArgument, words)));
    // Nothing of a refused update is kept.
    assert_eq!((prefs.mount_type, prefs.advanced), (Some(MountType::AltAz), Some(false)));
    assert_eq!(update_preferences(&mut prefs, update(), FeatureLevel::Plus), Ok(()));
    assert_eq!((prefs.mount_type, prefs.advanced), (Some(MountType::Equatorial), Some(true)));
}

#[test]
fn file_overrides_defaults() {
    let initial = initial_preferences(FeatureLevel::Diy, true, false);
    let file = Preferences { mount_type: Some(MountType::AltAz), ..Default::default() };
    let loaded = load_preferences(initial, file);
    assert_eq!(loaded.mount_type, Some(MountType::AltAz));
    assert!(loaded.catalog_entry_match.is_some());
}

#[test]
fn validation_drops_a_boresight_outside() {
    let far = ImageCoord { x: 5_000_000_000, y: 1_000_000 };
    assert!(!is_boresight_valid(far, 640, 480));
    let prefs = Preferences { boresight_pixel: Some(far), ..Default::default() };
    let valid = validate_preferences(prefs, 640, 480, FeatureLevel::Diy);
    assert_eq!(valid.boresight_pixel, None);
}

#[test]
fn small_models_update_less_often() {
    let fast = Interval { seconds: 0, nanos: 0 };
    let prefs = Preferences { update_interval: Some(fast), ..Default::default() };
    let valid = validate_preferences(prefs, 640, 480, FeatureLevel::Basic);
    assert!(valid.update_interval.unwrap().nanos > 0);
}
