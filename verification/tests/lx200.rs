//! The LX200 protocol.

use cedar_server::date_time::LocalDateTime;
use cedar_server::lx200::lx200_reply;
use cedar_server::lx200_server::{find_command, Command, Lx200Controller};
use cedar_server::position_reporter::{wiggle, TelescopePosition, ValueNotSet};
use chrono::{Datelike, FixedOffset, TimeZone, Timelike};

fn is_close(a: f64, b: f64, epsilon: f64) -> bool {
    (a - b).abs() <= epsilon
}

fn deg(x: f64) -> i64 {
    (x * 3.6e9).round() as i64
}

fn to_deg(x: i64) -> f64 {
    x as f64 / 3.6e9
}

fn assert_approx_eq(x: i64, y: f64) {
    assert!(is_close(to_deg(x), y, 0.0001), "{} {}", to_deg(x), y);
}

fn moment(dt: chrono::DateTime<FixedOffset>) -> LocalDateTime {
    LocalDateTime {
        year: dt.year(),
        ordinal0: dt.ordinal0(),
        month: dt.month(),
        day: dt.day(),
        hour: dt.hour(),
        minute: dt.minute(),
        second: dt.second(),
        nanosecond: dt.nanosecond(),
        offset_seconds: dt.offset().local_minus_utc(),
        unix_seconds: dt.timestamp(),
    }
}

fn start() -> LocalDateTime {
    let zone = FixedOffset::east_opt(0).unwrap();
    moment(zone.with_ymd_and_hms(2025, 11, 14, 12, 0, 0).unwrap())
}

fn setup_controller() -> (Lx200Controller, TelescopePosition) {
    (Lx200Controller::new(start()), TelescopePosition::default())
}

/// Carries coordinates from one epoch to another by the yearly precession.
fn precess(ra: i64, dec: i64, from: i32, to: i32) -> (i64, i64) {
    let years = (to - from) as f64 / 10.0;
    let (r, d) = (to_deg(ra).to_radians(), to_deg(dec).to_radians());
    let dra = (46.124 + 20.043 * r.sin() * d.tan()) * years / 3600.0;
    let ddec = 20.043 * r.cos() * years / 3600.0;
    (ra + deg(dra), dec + deg(ddec))
}

fn send(
    controller: &mut Lx200Controller,
    position: &mut TelescopePosition,
    input: &[u8],
) -> Option<String> {
    controller.process_input(input, position, &precess)
}

#[test]
fn test_extract_command() {
    assert_eq!(Lx200Controller::extract_command(":GR#").as_deref(), Some("GR"));
    assert_eq!(Lx200Controller::extract_command(":RS#:GR#").as_deref(), Some("RS"));
    assert_eq!(Lx200Controller::extract_command(":Sd+00*00:00#").as_deref(), Some("Sd"));
    assert_eq!(Lx200Controller::extract_command(":Sr00:00:00#").as_deref(), Some("Sr"));
    // Stellarium format
    assert_eq!(Lx200Controller::extract_command("#:GR#").as_deref(), Some("GR"));
    // Invalid cases - commands start with : and contain letters
    assert_eq!(Lx200Controller::extract_command(":123#"), None);
    assert_eq!(Lx200Controller::extract_command(":#"), None);
    assert_eq!(Lx200Controller::extract_command(":"), None);
    assert_eq!(Lx200Controller::extract_command("GR#"), None);
}

#[test]
fn test_to_hms() {
    let to_hms = |x: f64| Lx200Controller::to_hms(deg(x));
    assert_eq!(to_hms(0.0), (0, 0, 0));
    assert_eq!(to_hms(1.5), (1, 30, 0));
    assert_eq!(to_hms(-10.5083), (-10, 30, 30));
    assert_eq!(to_hms(23.99972), (23, 59, 59));
    assert_eq!(to_hms(10.1), (10, 6, 0));
    // Make sure we don't end up with 60 minutes or seconds
    assert_eq!(to_hms(23.999859), (23, 59, 59));
    let v = to_hms(23.999861);
    assert!(v == (23, 59, 59) || v == (24, 0, 0), "Incorrect: {:?}", v);
    assert_eq!(to_hms(23.999862), (24, 0, 0));
    assert_eq!(to_hms(-23.999999), (-24, 0, 0));
}

#[test]
fn test_parse_coordinates() {
    assert_approx_eq(Lx200Controller::parse_coordinates("01", "30", "00").unwrap(), 1.5);
    assert_approx_eq(Lx200Controller::parse_coordinates("10", "30", "30").unwrap(), 10.5083);
    assert_approx_eq(Lx200Controller::parse_coordinates("-15", "30", "45").unwrap(), -15.5125);
    // Invalid
    assert_eq!(Lx200Controller::parse_coordinates("xx", "30", "00"), None);
    assert_eq!(Lx200Controller::parse_coordinates("01", "xx", "00"), None);
    assert_eq!(Lx200Controller::parse_coordinates("01", "30", "xx"), None);
}

#[test]
fn test_parse_location() {
    assert_eq!(Lx200Controller::parse_location("01", "30"), Some(deg(1.5)));
    assert_approx_eq(Lx200Controller::parse_location("+37", "46").unwrap(), 37.7667);
    assert_approx_eq(Lx200Controller::parse_location("-90", "30").unwrap(), -90.5);
    assert_eq!(Lx200Controller::parse_location("a0", "00"), None);
}

#[test]
fn test_get_ra_and_dec() {
    let (mut controller, mut position) = setup_controller();
    // Set epoch to J2000 for no change
    controller.jnow_epoch = 20_000;

    position.boresight_ra = deg(1.5 * 15.0);
    position.boresight_dec = deg(30.5);
    position.boresight_valid = true;

    let mut result_ra = send(&mut controller, &mut position, b":GR#");
    assert_eq!(result_ra.as_deref(), Some("01:30:00#"));

    // Dec snapshot should be set
    assert_eq!(position.snapshot_dec, Some(deg(30.5)));
    // Update the boresight dec to check the snapshot is used later
    position.boresight_dec = deg(40.0);

    let mut result_dec = send(&mut controller, &mut position, b":GD#");
    assert_eq!(result_dec.as_deref(), Some("+30*30'00#"));

    // Snapshot should be consumed
    assert!(position.snapshot_dec.is_none());

    // Set epoch to J2025.9 and test with known object (M31)
    controller.jnow_epoch = 20_259;
    // M31 is actually at (00:44:09, +41*24'40) - conversion is not exact
    let (ra_j2025_9, dec_j2025_9) = ("00:44:10#", "+41*24'39#");
    position.boresight_ra = deg(0.7123056 * 15.0);
    position.boresight_dec = deg(41.2691667);
    position.boresight_valid = true;

    result_ra = send(&mut controller, &mut position, b":GR#");
    result_dec = send(&mut controller, &mut position, b":GD#");
    assert_eq!(result_ra.as_deref(), Some(ra_j2025_9));
    assert_eq!(result_dec.as_deref(), Some(dec_j2025_9));
}

#[test]
fn test_get_dec_invalid_wiggles() {
    let (mut controller, mut position) = setup_controller();
    controller.jnow_epoch = 20_000;

    position.boresight_dec = deg(10.0);
    position.boresight_valid = false;

    let is_wiggled = controller.wiggle_phase;
    // Also checks that boresight dec is used when there is no snapshot
    let dec1 = send(&mut controller, &mut position, b":GD#");
    assert_ne!(is_wiggled, controller.wiggle_phase);
    let dec2 = send(&mut controller, &mut position, b":GD#");

    // We don't care about the order, just that it wiggled by 0.1
    let mut results = [dec1.unwrap(), dec2.unwrap()];
    results.sort();
    assert_eq!(results, ["+09*54'00#", "+10*00'00#"]);

    // Now check that we don't wiggle when valid
    position.boresight_valid = true;

    let dec3 = send(&mut controller, &mut position, b":GD#");
    assert_eq!(dec3.as_deref(), Some("+10*00'00#"));
    let dec4 = send(&mut controller, &mut position, b":GD#");
    assert_eq!(dec4.as_deref(), Some("+10*00'00#"));
}

#[test]
fn test_set_ra_dec_slew_abort() {
    let (mut controller, mut position) = setup_controller();
    controller.jnow_epoch = 20_000;

    let set_ra = send(&mut controller, &mut position, b":Sr10:30:00#");
    assert_eq!(set_ra.as_deref(), Some("1"));
    assert_approx_eq(controller.target_ra.unwrap(), 157.5);
    assert!(controller.target_dec.is_none());

    let set_dec = send(&mut controller, &mut position, b":Sd-15*30:00#");
    assert_eq!(set_dec.as_deref(), Some("1"));
    assert_approx_eq(controller.target_dec.unwrap(), -15.5);

    let slew_result = send(&mut controller, &mut position, b":MS#");
    // 0 is success for slew
    assert_eq!(slew_result.as_deref(), Some("0"));

    // Ensure target coordinates are consumed
    assert!(controller.target_ra.is_none());
    assert!(controller.target_dec.is_none());

    // Check telescope position state
    assert_approx_eq(position.slew_target_ra, 157.5);
    assert_approx_eq(position.slew_target_dec, -15.5);
    assert!(position.slew_active);

    let abort = send(&mut controller, &mut position, b":Q#");
    assert_eq!(abort, None);
    assert!(!position.slew_active);

    // Slew should fail if no target
    let slew_fail_result = send(&mut controller, &mut position, b":MS#");
    assert_eq!(slew_fail_result.as_deref(), Some("1No object#"));
}

#[test]
fn test_set_ra_dec_sync() {
    let (mut controller, mut position) = setup_controller();
    controller.jnow_epoch = 20_000;

    // Even with no target we should still return canned result
    let mut sync = send(&mut controller, &mut position, b":CM#");
    assert_eq!(sync.as_deref(), Some(" M31 EX GAL MAG 3.5 SZ178.0'#"));

    send(&mut controller, &mut position, b":Sr01:00:00#");
    send(&mut controller, &mut position, b":Sd+20*00:00#");

    sync = send(&mut controller, &mut position, b":CM#");
    assert_eq!(sync.as_deref(), Some(" M31 EX GAL MAG 3.5 SZ178.0'#"));

    assert!(controller.target_ra.is_none());
    assert!(controller.target_dec.is_none());

    // Check telescope position state
    assert_approx_eq(position.sync_ra.unwrap(), 15.0);
    assert_approx_eq(position.sync_dec.unwrap(), 20.0);
}

#[test]
fn test_set_get_location() {
    let (mut controller, mut position) = setup_controller();

    let set_lat_n = send(&mut controller, &mut position, b":St+37:46#");
    assert_eq!(set_lat_n.as_deref(), Some("1"));
    assert_eq!(controller.latitude, "+37:46");
    assert_approx_eq(position.site_latitude.unwrap(), 37.7667);

    let set_lat_s = send(&mut controller, &mut position, b":St-37:46#");
    assert_eq!(set_lat_s.as_deref(), Some("1"));
    assert_eq!(controller.latitude, "-37:46");
    assert_approx_eq(position.site_latitude.unwrap(), -37.7667);

    // Less than 180 is West for longitude
    let set_lon_w = send(&mut controller, &mut position, b":Sg122:25#");
    assert_eq!(set_lon_w.as_deref(), Some("1"));
    assert_eq!(controller.longitude, "122:25");
    assert_approx_eq(position.site_longitude.unwrap(), -122.4167);

    // Longitude values are > 180 for East
    let set_lon_e = send(&mut controller, &mut position, b":Sg300:00#");
    assert_eq!(set_lon_e.as_deref(), Some("1"));
    assert_eq!(controller.longitude, "300:00");
    // 360 - 300 = 60.0
    assert_approx_eq(position.site_longitude.unwrap(), 60.0);

    let get_lat_result = send(&mut controller, &mut position, b":Gt#");
    assert_eq!(get_lat_result.as_deref(), Some("-37:46#"));
    let get_lon_result = send(&mut controller, &mut position, b":Gg#");
    assert_eq!(get_lon_result.as_deref(), Some("300:00#"));
}

#[test]
fn test_set_get_date_time_timezone() {
    let (mut controller, mut position) = setup_controller();

    let set_tz = send(&mut controller, &mut position, b":SG-08.0#");
    assert_eq!(set_tz.as_deref(), Some("1"));
    assert_eq!(controller.timezone, Some("-0800".to_string()));

    let set_time = send(&mut controller, &mut position, b":SL10:30:00#");
    assert_eq!(set_time.as_deref(), Some("1"));
    assert_eq!(controller.time, Some("10:30:00".to_string()));

    let set_date = send(&mut controller, &mut position, b":SC11/15/25#");
    assert_eq!(set_date.as_deref(), Some("1Updating Planetary Data# #"));

    // Pending time and timezone should be consumed
    assert!(controller.timezone.is_none());
    assert!(controller.time.is_none());

    // Check the controller's time
    let expected_dt = FixedOffset::west_opt(8 * 3600)
        .unwrap()
        .with_ymd_and_hms(2025, 11, 15, 10, 30, 0)
        .unwrap();
    assert_eq!(controller.datetime, moment(expected_dt));

    // Check the TelescopePosition's time
    assert_eq!(position.utc_date, Some(expected_dt.timestamp()));

    assert_eq!(send(&mut controller, &mut position, b":GL#").as_deref(), Some("10:30:00#"));
    assert_eq!(send(&mut controller, &mut position, b":GC#").as_deref(), Some("11/15/25#"));
    assert_eq!(send(&mut controller, &mut position, b":GG#").as_deref(), Some("-08.0#"));
}

#[test]
fn test_canned_get_commands() {
    let (mut controller, mut position) = setup_controller();

    // Firmware date should be something like "Nov 14 2025#"
    assert_eq!(send(&mut controller, &mut position, b":GVD#").unwrap().len(), 12);
    // Firmware version should be something like "01.0#"
    assert_eq!(send(&mut controller, &mut position, b":GVN#").unwrap().len(), 5);
    // Model shouldn't change
    assert_eq!(send(&mut controller, &mut position, b":GVP#").as_deref(), Some("Cedar#"));
    // Firmware time should be something like "23:00:00#"
    assert_eq!(send(&mut controller, &mut position, b":GVT#").unwrap().len(), 9);
    // Status command indicates A for Alt-Az, T for tracking state, and 1
    // for 1-star aligned
    assert_eq!(send(&mut controller, &mut position, b":GW#").as_deref(), Some("AT1"));
    // Ack command is unterminated should result in A for Alt-Az mode
    assert_eq!(send(&mut controller, &mut position, b"\x06").as_deref(), Some("A"));
}

#[test]
fn test_get_distance_bars() {
    let (mut controller, mut position) = setup_controller();

    position.slew_active = false;
    assert_eq!(send(&mut controller, &mut position, b":D#").as_deref(), Some("#"));

    position.slew_active = true;
    assert_eq!(send(&mut controller, &mut position, b":D#").as_deref(), Some("\x7f#"));
}

#[test]
fn test_process_input_leading_hash() {
    let (mut controller, mut position) = setup_controller();
    controller.jnow_epoch = 20_000;

    // Stellarium sends a leading #
    let result = send(&mut controller, &mut position, b"#:GR#");
    assert_eq!(result.as_deref(), Some("00:00:00#"));
}

#[test]
fn test_process_input_multiple_commands() {
    let (mut controller, mut position) = setup_controller();
    controller.jnow_epoch = 20_000;
    position.boresight_valid = true;

    // SkySafari in Bluetooth mode sets slew rate and gets RA together
    let result = send(&mut controller, &mut position, b":RS#:GR#");
    assert_eq!(result.as_deref(), Some("00:00:00#"));

    // Make sure 2 commands that need responses get a concatenated response
    // although no client does this
    let result2 = send(&mut controller, &mut position, b":GR#:GD#");
    assert_eq!(result2.as_deref(), Some("00:00:00#+00*00'00#"));
}

#[test]
fn a_minus_counts_without_degrees() {
    let (mut controller, mut position) = setup_controller();
    assert_eq!(send(&mut controller, &mut position, b":Sd-00*30:00#").as_deref(), Some("1"));
    assert_approx_eq(controller.target_dec.unwrap(), -0.5);
    assert_eq!(send(&mut controller, &mut position, b":Sd+00*30:00#").as_deref(), Some("1"));
    assert_approx_eq(controller.target_dec.unwrap(), 0.5);
    assert_eq!(send(&mut controller, &mut position, b":St-00:30#").as_deref(), Some("1"));
    assert_approx_eq(position.site_latitude.unwrap(), -0.5);
    // What is reported just south of the equator can be read back.
    controller.jnow_epoch = 20_000;
    position.boresight_valid = true;
    position.boresight_dec = deg(-0.5);
    assert_eq!(send(&mut controller, &mut position, b":GR#").as_deref(), Some("00:00:00#"));
    let reported = send(&mut controller, &mut position, b":GD#").unwrap();
    assert_eq!(reported, "-00*30'00#");
    send(&mut controller, &mut position, b":Sd-00*30'00#");
    assert_approx_eq(controller.target_dec.unwrap(), -0.5);
}

#[test]
fn joined_inputs_answer_one_after_the_other() {
    let (mut controller, mut position) = setup_controller();
    controller.jnow_epoch = 20_000;
    position.boresight_valid = true;
    position.boresight_ra = deg(15.0);
    position.boresight_dec = deg(-3.0);
    let whole = send(&mut controller, &mut position, b"#:GR#:GVP#:GD#:GVN#");
    let (mut controller, mut position) = setup_controller();
    controller.jnow_epoch = 20_000;
    position.boresight_valid = true;
    position.boresight_ra = deg(15.0);
    position.boresight_dec = deg(-3.0);
    let first = send(&mut controller, &mut position, b"#:GR#:GVP#").unwrap();
    let second = send(&mut controller, &mut position, b":GD#:GVN#").unwrap();
    assert_eq!(whole, Some(first + &second));
}

#[test]
fn a_leap_second_is_taken() {
    let (mut controller, mut position) = setup_controller();
    send(&mut controller, &mut position, b":SG+00.0#");
    assert_eq!(send(&mut controller, &mut position, b":SL23:59:60#").as_deref(), Some("1"));
    let set = send(&mut controller, &mut position, b":SC12/31/16#");
    assert_eq!(set.as_deref(), Some("1Updating Planetary Data# #"));
    let zone = FixedOffset::east_opt(0).unwrap();
    // It counts as the second after it.
    let next = zone.with_ymd_and_hms(2017, 1, 1, 0, 0, 0).unwrap();
    assert_eq!(position.utc_date, Some(next.timestamp()));
    assert_eq!(send(&mut controller, &mut position, b":GL#").as_deref(), Some("23:59:60#"));
}

#[test]
fn right_ascension_reads_back() {
    let (mut controller, mut position) = setup_controller();
    controller.jnow_epoch = 20_000;
    position.boresight_valid = true;
    send(&mut controller, &mut position, b":Sr23:59:58#");
    send(&mut controller, &mut position, b":Sd-05*06:07#");
    send(&mut controller, &mut position, b":CM#");
    position.boresight_ra = position.sync_ra.unwrap();
    position.boresight_dec = position.sync_dec.unwrap();
    assert_eq!(
        send(&mut controller, &mut position, b":GR#:GD#").as_deref(),
        Some("23:59:58#-05*06'07#")
    );
}

#[test]
fn queries_are_counted() {
    let (mut controller, mut position) = setup_controller();
    send(&mut controller, &mut position, b":GR#:GD#:GR#");
    assert_eq!(controller.ra_queries, 2);
}

#[test]
fn refuses_what_is_no_date() {
    let (mut controller, mut position) = setup_controller();
    send(&mut controller, &mut position, b":SG-08.0#");
    send(&mut controller, &mut position, b":SL10:30:00#");
    let before = controller.datetime;
    let reply = send(&mut controller, &mut position, b":SC13/45/25#");
    assert_ne!(reply.as_deref(), Some("1Updating Planetary Data# #"));
    assert_eq!(controller.datetime, before);
    assert_eq!(position.utc_date, None);
}

#[test]
fn ignores_what_is_no_command() {
    let (mut controller, mut position) = setup_controller();
    assert_eq!(send(&mut controller, &mut position, b"hello"), None);
    assert_eq!(send(&mut controller, &mut position, b":Zz#"), None);
    // A byte that is no text is replaced, and does no harm.
    assert_eq!(send(&mut controller, &mut position, b"\xff:GVP#").as_deref(), Some("Cedar#"));
}

#[test]
fn letters_beyond_ascii_name_a_command() {
    assert_eq!(
        Lx200Controller::extract_command(":\u{e4}\u{f6}1#").as_deref(),
        Some("\u{e4}\u{f6}")
    );
}

#[test]
fn commands_go_by_name() {
    assert!(matches!(find_command("GR"), Command::GetRa));
    assert!(!matches!(find_command("gr"), Command::GetRa));
}

#[test]
fn minimal_responder_answers() {
    let mut position = TelescopePosition::default();
    position.boresight_ra = deg(22.5);
    position.boresight_dec = deg(-30.5);
    let ask = |text: &[u8]| lx200_reply(text, text.len(), &position);
    assert_eq!(ask(b"#:GR#").as_deref(), Some("01:30:00#"));
    assert_eq!(ask(b"#:GD#").as_deref(), Some("-30*30'00#"));
    assert_eq!(ask(b"#:GVP#").as_deref(), Some("Cedar#"));
    assert_eq!(ask(b"#\x06").as_deref(), Some("A"));
    assert_eq!(ask(b"#:D#"), None);
    // Below zero every part that is left has a sign.
    let mut at_ra = |ra: i64| {
        position.boresight_ra = ra;
        lx200_reply(b"#:GR#", 5, &position).unwrap()
    };
    assert_eq!(at_ra(deg(-22.5)), "-1:-30:00#");
    assert_eq!(at_ra(deg(-0.125)), "-0:-0:-30#");
    assert_eq!(at_ra(deg(359.999)), "23:59:59#");
}

#[test]
fn telescope_position_serves_alpaca() {
    let mut position = TelescopePosition::new();
    assert_eq!(position.right_ascension(), deg(180.0));
    assert_eq!(position.snapshot_dec, Some(0));
    position.boresight_valid = true;
    let mut updates = 0;
    assert_eq!(position.declination(&mut updates), 0);
    assert_eq!(position.snapshot_dec, None);
    assert_eq!(position.site_latitude(), Err(ValueNotSet));
    assert_eq!(position.utc_date(), Err(ValueNotSet));
    position.slew_to_coordinates(deg(2.0), deg(10.0));
    assert_eq!((position.slew_target_ra, position.slew_active), (deg(30.0), true));
    position.abort_slew();
    assert!(!position.slew_active);
    position.sync_to_coordinates(deg(2.0), deg(10.0));
    assert_eq!((position.sync_ra, position.sync_dec), (Some(deg(30.0)), Some(deg(10.0))));
    assert_eq!(wiggle(deg(10.0)), deg(9.9));
    assert_eq!(wiggle(deg(-10.0)), deg(-9.9));
}

#[test]
fn declination_follows_the_right_ascension() {
    let mut position = TelescopePosition::new();
    position.boresight_valid = true;
    position.boresight_dec = deg(20.0);
    let mut updates = 0;
    assert_eq!(position.right_ascension(), deg(180.0));
    position.boresight_dec = deg(25.0);
    assert_eq!(position.declination(&mut updates), deg(20.0));
    assert_eq!(position.declination(&mut updates), deg(25.0));
    position.boresight_valid = false;
    assert_eq!(position.declination(&mut updates), deg(25.0));
    assert_eq!(position.declination(&mut updates), deg(24.9));
    assert_eq!(position.declination(&mut updates), deg(25.0));
    assert_eq!(updates, 3);
}
