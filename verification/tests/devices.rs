//! Lights, radios, sensors and the processor.

use cedar_server::activity_led::{
    brightness_text, is_reversed, ActivityLed, BlinkPattern, LedAction, LedRequest,
};
use cedar_server::bonding_helper::{
    hard_reset_steps, needs_alias, pairing_steps, reset_outcome, PairingStep, ResetLog,
    ResetOutcome, ResetStep,
};
use cedar_server::cedar::LatLong;
use cedar_server::cedar_sky_trait::location_info;
use cedar_server::cpu_stats::{
    append_table, busy_ticks, cpu_table, is_process_name, parse_comm, parse_cpu_fields,
    parse_utime_stime, top_report, LoadCache, TemperatureCache, TickSample,
};
use cedar_server::imu6050::{
    get_acceleration, get_angular_velocity, parse_xyz, verify_device, wake_steps, RawAxes, WakeStep,
};
use cedar_server::numbers::{divide_down, square_root};
use cedar_server::thread_name::ThreadName;
use cedar_server::wifi_trait::{
    check_mode, update_access_point, AccessPointConfig, ClientStatus, ModeRefusal,
    WifiClientState, WifiMode,
};

const SECOND: u64 = 1_000_000_000;

#[test]
fn light_blinks_until_connected() {
    let mut led = ActivityLed::new();
    let mut request = LedRequest::new();
    assert_eq!(request.blink_pattern, BlinkPattern::Regular);
    assert_eq!(led.tick(&request, false), LedAction::TurnOn);
    let mut on = 1;
    for _ in 0..39 {
        led.tick(&request, false);
        on += led.led_on as i32;
    }
    assert_eq!(on, 20);
    request.set_blink_pattern(BlinkPattern::Fast);
    assert_eq!(BlinkPattern::Fast.timing(), (2, 10));
    request.received_rpc();
    assert_eq!(led.tick(&request, false), LedAction::TurnOff);
    assert_eq!(led.tick(&request, false), LedAction::Keep);
    request.stop();
    assert_eq!(led.tick(&request, false), LedAction::Release);
    assert_eq!(ActivityLed::new().tick(&LedRequest::new(), true), LedAction::Release);
}

#[test]
fn light_is_reversed_on_one_model() {
    assert!(is_reversed("Raspberry Pi 5 Model B Rev 1.0\0"));
    assert!(!is_reversed("Raspberry Pi 4 Model B\0"));
    assert_eq!(brightness_text(true, false), "1");
    assert_eq!(brightness_text(true, true), "0");
    assert_eq!(brightness_text(false, true), "1");
}

#[test]
fn hard_resets_keep_apart() {
    let mut log = ResetLog::new();
    assert_eq!(hard_reset_steps(&log, 5).len(), 10);
    assert_eq!(hard_reset_steps(&log, 5)[0], ResetStep::StopService);
    log.complete(10 * SECOND);
    assert!(hard_reset_steps(&log, 24 * SECOND).is_empty());
    assert!(log.due(25 * SECOND));
    assert_eq!(log.last_hard_reset(), Some(10 * SECOND));
    assert_eq!(reset_outcome(true), ResetOutcome::LightResetOk);
    assert_eq!(reset_outcome(false), ResetOutcome::HardReset);
}

#[test]
fn pairing_follows_the_setting() {
    assert_eq!(
        pairing_steps(None, false),
        vec![PairingStep::SetPairable(false), PairingStep::SetDiscoverable(false)]
    );
    assert_eq!(
        pairing_steps(Some(false), true),
        vec![PairingStep::MustSetPairable(true), PairingStep::SetDiscoverable(true)]
    );
    assert!(pairing_steps(Some(true), true).is_empty());
    assert!(needs_alias("cedar", "cedar-1") && !needs_alias("cedar", "cedar"));
}

const STAT: &str = "1234 (a (b) c) S 1 1 1 0 -1 4 5 0 6 0 77 88 0 0 20 0 1 0 9 0 0";

#[test]
fn status_lines_are_read() {
    assert_eq!(parse_utime_stime(STAT), Some((77, 88)));
    assert_eq!(parse_comm(STAT).as_deref(), Some("a (b) c"));
    assert_eq!(parse_utime_stime("1 (x) S 1 2"), None);
    assert_eq!(parse_utime_stime("no parenthesis"), None);
    assert_eq!(parse_utime_stime("1 (x) S 1 1 1 0 -1 4 5 0 6 0 x 88 0"), None);
    assert_eq!(parse_comm("1 () S"), None);
    assert_eq!(parse_comm(")("), None);
    assert!(is_process_name("42") && !is_process_name("self"));
}

#[test]
fn busy_ticks_leave_idling_out() {
    let fields = parse_cpu_fields("cpu  10 20 30 1000 500 1 2 3\ncpu0 1 2 3 4 5\n");
    assert_eq!(fields, vec![10, 20, 30, 1000, 500, 1, 2, 3]);
    assert_eq!(busy_ticks(&fields), Some(66));
    assert_eq!(busy_ticks(&vec![1, 2, 3, 4]), None);
    assert!(parse_cpu_fields("").is_empty());
}

#[test]
fn loads_are_measured_once_a_minute() {
    let mut cache = LoadCache { load: 0, ticks: 0, time: 0 };
    assert!(cache.stale(120 * SECOND));
    assert_eq!(cache.get_load(120 * SECOND, Some(1000), 100), 0);
    assert_eq!(cache.get_load(150 * SECOND, Some(9999), 100), 0);
    // 3000 ticks of a hundredth of a second in a minute are half a core.
    assert_eq!(cache.get_load(180 * SECOND, Some(4000), 100), 500_000);
    assert_eq!(cache.get_load(240 * SECOND, None, 100), 500_000);
    assert_eq!((cache.ticks, cache.time), (4000, 240 * SECOND));
}

#[test]
fn temperature_records_are_told() {
    let mut cache = TemperatureCache { value: 0, time: 0, high_water: None };
    assert!(cache.read(60 * SECOND, Some(-5000)));
    assert!(!cache.read(61 * SECOND, Some(90_000)));
    assert!(!cache.read(120 * SECOND, Some(-6000)));
    assert_eq!((cache.value, cache.high_water), (-6000, Some(-5000)));
    assert!(!cache.read(180 * SECOND, None));
    assert!(cache.read(240 * SECOND, Some(1)));
}

fn sample(id: &str, ticks: u64, comm: &str) -> TickSample {
    TickSample { id: id.to_string(), ticks, comm: comm.to_string() }
}

#[test]
fn tables_have_the_busiest_first() {
    let before = vec![sample("1", 10, "init"), sample("22", 5, "solve")];
    let after =
        vec![sample("1", 11, "init"), sample("3", 50, "new"), sample("22", 30, "solve")];
    let rows = cpu_table(&before, &after, 100);
    let mut text = String::new();
    append_table(&mut text, &rows, 15);
    assert_eq!(
        text,
        "PID/TID     %CPU  COMMAND\n22         25.0%  solve\n1           1.0%  init\n"
    );
    let mut short = String::new();
    append_table(&mut short, &rows, 1);
    assert_eq!(short, "PID/TID     %CPU  COMMAND\n22         25.0%  solve\n");
    // Rows that show the same percentage still go by their ticks.
    let close = vec![sample("1", 10_001, "less"), sample("2", 10_002, "more")];
    let none = vec![sample("1", 0, "less"), sample("2", 0, "more")];
    let mut text = String::new();
    append_table(&mut text, &cpu_table(&none, &close, 1_000_000), 15);
    assert_eq!(
        text,
        "PID/TID     %CPU  COMMAND\n2           1.0%  more\n1           1.0%  less\n"
    );
    let busy = cpu_table(&none, &vec![sample("1", u64::MAX, "busy")], 100);
    let mut text = String::new();
    append_table(&mut text, &busy, 15);
    assert!(text.ends_with("18446744073709551615.0%  busy\n"));
    let report = top_report(&Ok(rows), &Err("gone".to_string()));
    assert!(report.starts_with("=== Top processes by CPU (instantaneous) ===\nPID/TID"));
    assert!(report.ends_with("(instantaneous) ===\n(error: gone)\n"));
}

#[test]
fn readings_are_scaled() {
    let raw = parse_xyz(&[0x40, 0x00, 0xff, 0xff, 0x80, 0x00]);
    assert_eq!(raw, RawAxes { x: 16384, y: -1, z: -32768 });
    assert_eq!(get_acceleration(raw).x, 9_810_000);
    assert_eq!(get_acceleration(raw).z, -19_620_000);
    let turning = get_angular_velocity(RawAxes { x: 131, y: -262, z: 0 });
    assert_eq!((turning.x, turning.y, turning.z), (3_600_000_000, -7_200_000_000, 0));
    assert!(verify_device(0x68) && !verify_device(0x69));
    assert_eq!(wake_steps()[0], WakeStep::Write(0x6b, 0x80));
    assert_eq!(wake_steps().len(), 7);
}

#[test]
fn names_are_cut_between_characters() {
    let name = ThreadName::new("jpeg-encode");
    assert_eq!((name.len, &name.bytes[..11]), (11, &b"jpeg-encode"[..]));
    assert_eq!(name.bytes.len(), 16);
    assert!(name.bytes[11..].iter().all(|byte| *byte == 0));
    let long = ThreadName::new("0123456789abcdef");
    assert_eq!(&long.bytes[..], b"0123456789abcde\0");
    // The last character would end beyond the limit.
    let wide = ThreadName::new("0123456789abcd\u{e4}");
    assert_eq!((wide.len, wide.bytes[14]), (14, 0));
    assert_eq!(ThreadName::idle().len, 4);
}

#[test]
fn access_points_are_updated() {
    let config = AccessPointConfig { ssid: "a".into(), psk: "b".into(), channel: 1 };
    let updated = update_access_point(Some(config), Some(6), None, Some("c".into())).unwrap();
    assert_eq!((updated.ssid.as_str(), updated.psk.as_str(), updated.channel), ("a", "c", 6));
    assert!(update_access_point(None, Some(6), None, None).is_none());
    let client = WifiMode::Client { ssid: "x".into() };
    assert_eq!(check_mode(&client, true, false), Err(ModeRefusal::PassphraseMissing));
    assert_eq!(check_mode(&client, false, true), Ok(()));
    assert_eq!(check_mode(&WifiMode::AccessPoint, false, true), Err(ModeRefusal::NoAccessPoint));
    assert_eq!(check_mode(&WifiMode::Inactive, false, false), Ok(()));
    let status = ClientStatus::new("x".into(), WifiClientState::NoIp, Some("1.2.3.4".into()));
    assert_eq!(status.ip_address, None);
}

#[test]
fn places_and_times_go_together() {
    let here = LatLong { latitude: 1, longitude: 2 };
    assert_eq!(location_info(Some(here), 9).unwrap().observing_time, 9);
    assert!(location_info(None, 9).is_none());
}

#[test]
fn whole_parts_are_exact() {
    assert_eq!(divide_down(-7, 2), -4);
    assert_eq!(divide_down(7, 2), 3);
    assert_eq!(square_root(0), 0);
    assert_eq!(square_root(99), 9);
    assert_eq!(square_root(100), 10);
    assert_eq!(square_root(10u128.pow(36)), 10u64.pow(18));
}
