//! The corpus of star fields, and how solutions are judged.

use cedar_server::corpus::{check_image_size, parse_manifest, parse_number, Field, Number};
use cedar_server::harness::{
    circular_diff_deg, evaluate, expected_roll_deg, Outcome, SolvedPose,
};
use cedar_server::report::{percentile, sorted_finite, Report};

const MANIFEST_HEADER: &str = "name,ra,dec,rotation_deg,fov_x_deg,fov_y_deg,pixscale_arcsec,nx,ny,maglim,n_catalog,n_rendered,seed";

const SAMPLE: &str = "name,ra,dec,rotation_deg,fov_x_deg,fov_y_deg,pixscale_arcsec,nx,ny,maglim,n_catalog,n_rendered,seed\n\
                      grid_000,0.0,-60.0,-180.0,12.71,7.149375,23.83125,1920,1080,7.5,159,70,0\n";

fn fixed(x: f64) -> i64 {
    (x * 1e9).round() as i64
}

fn value(number: Number) -> f64 {
    match number {
        Number::Finite(billionths) => billionths as f64 / 1e9,
        other => panic!("{other:?}"),
    }
}

fn field(rotation_deg: f64) -> Field {
    Field {
        name: "t".into(),
        ra_deg: Number::Finite(fixed(10.0)),
        dec_deg: Number::Finite(fixed(20.0)),
        rotation_deg: Number::Finite(fixed(rotation_deg)),
        fov_x_deg: Number::Finite(fixed(12.71)),
        fov_y_deg: Number::Finite(fixed(7.149_375)),
        pixscale_arcsec: Number::Finite(fixed(23.831_25)),
        nx: 1920,
        ny: 1080,
        n_rendered: 50,
    }
}

fn outcome(center_arcmin: f64, roll_err_deg: f64, fov_err_frac: f64) -> Outcome {
    Outcome {
        name: "t".into(),
        solved: true,
        center_arcmin: Some(fixed(center_arcmin)),
        roll_err_deg: Some(fixed(roll_err_deg)),
        fov_err_frac: Some(fixed(fov_err_frac)),
        solve_time_ms: Some(fixed(4.0)),
        num_matches: 30,
        num_centroids: 50,
    }
}

#[test]
fn parses_a_known_row() {
    let fields = parse_manifest(SAMPLE).expect("parse");
    assert_eq!(fields.len(), 1);
    let f = &fields[0];
    assert_eq!(f.name, "grid_000");
    assert_eq!(f.ra_deg, Number::Finite(fixed(0.0)));
    assert_eq!(f.dec_deg, Number::Finite(fixed(-60.0)));
    assert_eq!(f.rotation_deg, Number::Finite(fixed(-180.0)));
    assert_eq!(f.fov_x_deg, Number::Finite(fixed(12.71)));
    assert_eq!(f.nx, 1920);
    assert_eq!(f.ny, 1080);
    assert_eq!(f.n_rendered, 70);
}

/// The manifest's fov_x_deg is `nx * pixscale` (small-angle); the true FOV
/// of a TAN-projected image is `2*atan(nx/2 * pixscale)`. They differ by
/// -0.4071% here. Pin both, so the distinction cannot be quietly undone.
#[test]
fn true_fov_is_gnomonic_not_small_angle() {
    let f = &parse_manifest(SAMPLE).expect("parse")[0];
    let fov_x_deg = value(f.fov_x_deg);
    let pixscale_arcsec = value(f.pixscale_arcsec);

    // The manifest column is exactly the small-angle product.
    assert!((fov_x_deg - f.nx as f64 * pixscale_arcsec / 3600.0).abs() < 1e-9);

    let arctangent = |tangent: i128| fixed((tangent as f64 / 1e9).atan().to_degrees());
    let true_fov = f.true_fov_x_deg(&arctangent) as f64 / 1e9;
    assert!((true_fov - 12.658_26).abs() < 1e-4, "got {true_fov}");

    let rel = (true_fov - fov_x_deg) / fov_x_deg;
    assert!((rel + 0.004_071).abs() < 1e-5, "relative offset {rel}");
}

#[test]
fn rejects_header_drift() {
    let bad = "name,ra,dec\ngrid_000,0.0,-60.0\n";
    assert!(parse_manifest(bad).unwrap_err().contains("header drift"));
}

#[test]
fn rejects_short_row() {
    let bad = format!("{MANIFEST_HEADER}\ngrid_000,0.0,-60.0\n");
    assert!(parse_manifest(&bad).unwrap_err().contains("expected 13"));
}

#[test]
fn rejects_what_is_no_number() {
    assert_eq!(parse_manifest(" \n\n").unwrap_err(), "manifest.csv is empty");
    let bad = format!("{MANIFEST_HEADER}\na,1,2,x,4,5,6,7,8,9,10,11,12\n");
    assert_eq!(parse_manifest(&bad).unwrap_err(), "manifest.csv row 2 col 3: invalid float literal");
    let bad = format!("{MANIFEST_HEADER}\na,1,2,3,4,5,6,7,8,9,10,,12\n");
    assert_eq!(
        parse_manifest(&bad).unwrap_err(),
        "manifest.csv row 2 col 11: cannot parse float from empty string"
    );
    // What is not read may be anything.
    let odd = format!("{MANIFEST_HEADER}\r\n\r\na,1,2,3,4,5,6,7,8,x,y,11,z\r\n");
    assert_eq!(parse_manifest(&odd).unwrap()[0].n_rendered, 11);
}

#[test]
fn numbers_are_read_to_the_billionth() {
    for (text, value) in [
        ("1", 1_000_000_000),
        ("-0.5", -500_000_000),
        ("+.25", 250_000_000),
        ("7.", 7_000_000_000),
        ("1e-3", 1_000_000),
        ("-1.5E2", -150_000_000_000),
        ("0.0000000004", 0),
        ("0.0000000005", 1),
        ("3e-400", 0),
        ("0e400", 0),
    ] {
        assert_eq!(parse_number(text), Some(Number::Finite(value)), "{text}");
    }
    // Digits are not limited, only the value is.
    let zeros = "0".repeat(60);
    assert_eq!(parse_number(&format!("{zeros}2.5{zeros}")), Some(Number::Finite(2_500_000_000)));
    assert_eq!(parse_number(&format!("12{zeros}e-60")), Some(Number::Finite(12_000_000_000)));
    assert_eq!(parse_number(&format!("0.{zeros}12e60")), Some(Number::Finite(120_000_000)));
    let thirds = "3".repeat(50);
    assert_eq!(parse_number(&format!("0.{thirds}")), Some(Number::Finite(333_333_333)));
    for text in ["", ".", "-", "e5", "1e", "1e5e5", "1.2.3", "12a", " 1", "infin", "nanx", "--1", "+", "e", "1e+"] {
        assert_eq!(parse_number(text), None, "{text}");
    }
}

#[test]
fn numbers_may_be_out_of_reach() {
    let above = Some(Number::Beyond { negative: false });
    let below = Some(Number::Beyond { negative: true });
    for text in ["inf", "+Infinity", "INF", "1e400", "9000000000.1", "1e99999999999999999999"] {
        assert_eq!(parse_number(text), above, "{text}");
    }
    for text in ["-inf", "-infinity", "-1e10"] {
        assert_eq!(parse_number(text), below, "{text}");
    }
    for text in ["nan", "-NaN", "+nan"] {
        assert_eq!(parse_number(text), Some(Number::NotANumber), "{text}");
    }
    let zero = Some(Number::Finite(0));
    assert_eq!(parse_number("0e99999999999999999999"), zero);
    assert_eq!(parse_number("1e-99999999999999999999999999999999999999999"), zero);
    assert_eq!(parse_number("9000000000"), Some(Number::Finite(9_000_000_000_000_000_000)));
    let row = format!("{MANIFEST_HEADER}\nodd,inf,nan,-1e300,1,1,1,inf,nan,0,0,-inf,0\n");
    let odd = &parse_manifest(&row).unwrap()[0];
    assert_eq!((odd.nx, odd.ny, odd.n_rendered), (u32::MAX, 0, i32::MIN));
    assert_eq!((Some(odd.ra_deg), Some(odd.rotation_deg)), (above, below));
    assert_eq!(odd.dec_deg, Number::NotANumber);
}

#[test]
fn images_have_their_size() {
    assert!(check_image_size(&field(0.0), 1920, 1080));
    assert!(!check_image_size(&field(0.0), 1080, 1920));
}

#[test]
fn on_truth_passes() {
    assert!(outcome(0.04, 0.0, 0.004).passed());
}

#[test]
fn center_just_outside_tolerance_fails() {
    assert!(!outcome(6.0, 0.0, 0.004).passed());
}

#[test]
fn fov_outside_tolerance_fails() {
    assert!(!outcome(0.04, 0.0, 0.03).passed());
}

#[test]
fn unsolved_never_passes() {
    let mut o = outcome(0.0, 0.0, 0.0);
    o.solved = false;
    assert!(!o.passed());
}

#[test]
fn roll_wraps_across_zero() {
    // rotation 179.5 -> expected roll 359.5; solver says 0.2. The true error
    // is 0.7 deg, not 359.3.
    let f = field(179.5);
    let expected = expected_roll_deg(fixed(value(f.rotation_deg)));
    assert_eq!(expected, fixed(359.5));
    let err = circular_diff_deg(fixed(0.2), expected);
    assert_eq!(err, fixed(0.7));
    assert!(outcome(0.04, err as f64 / 1e9, 0.004).passed());
}

#[test]
fn roll_convention_matches_pinned_formula() {
    assert_eq!(expected_roll_deg(fixed(0.0)), fixed(180.0));
    assert_eq!(expected_roll_deg(fixed(-180.0)), fixed(0.0));
    assert_eq!(expected_roll_deg(fixed(30.0)), fixed(210.0));
    assert_eq!(expected_roll_deg(fixed(-45.0)), fixed(135.0));
}

#[test]
fn roll_error_beyond_tolerance_fails() {
    assert!(!outcome(0.04, 1.5, 0.004).passed());
}

#[test]
fn truth_is_judged_good() {
    let pose = SolvedPose {
        center_arcmin: 0,
        roll_deg: fixed(210.0),
        fov_deg: fixed(12.65826),
        solve_time_ms: Some(fixed(5.0)),
        num_matches: 30,
    };
    let good = evaluate(&field(30.0), Some(pose), fixed(12.65826), 40);
    assert!(good.passed());
    assert_eq!((good.roll_err_deg, good.fov_err_frac), (Some(0), Some(0)));
    let wide = SolvedPose { fov_deg: fixed(12.0), ..pose };
    assert_eq!(evaluate(&field(30.0), Some(wide), fixed(10.0), 40).fov_err_frac, Some(fixed(0.2)));
    let unknown = Field { rotation_deg: Number::NotANumber, ..field(0.0) };
    let judged = evaluate(&unknown, Some(pose), fixed(12.65826), 40);
    assert!(judged.solved && judged.roll_err_deg.is_none() && !judged.passed());
    let none = evaluate(&field(30.0), None, fixed(12.65826), 3);
    assert!(!none.passed() && none.center_arcmin.is_none() && none.num_centroids == 3);
}

#[test]
fn percentiles_use_nearest_rank() {
    let v: Vec<i64> = (1..=100).collect();
    assert_eq!(percentile(&v, 500), Some(50));
    assert_eq!(percentile(&v, 950), Some(95));
    assert_eq!(percentile(&v, 1000), Some(100));
}

#[test]
fn percentile_of_single_value() {
    assert_eq!(percentile(&vec![7], 500), Some(7));
    assert_eq!(percentile(&vec![7], 950), Some(7));
}

#[test]
fn percentile_of_empty_is_nan() {
    assert!(percentile(&vec![], 500).is_none());
}

#[test]
fn sorted_finite_drops_nan() {
    let v = sorted_finite(&vec![Some(3), None, Some(1)]);
    assert_eq!(v, vec![1, 3]);
}

#[test]
fn runs_are_summed_up() {
    let mut unsolved = outcome(0.0, 0.0, 0.0);
    unsolved.solved = false;
    let report = Report::new(
        "tetra3",
        vec![outcome(1.0, -0.5, 0.001), unsolved, outcome(9.0, 0.25, 0.002)],
    );
    let s = report.summary();
    assert_eq!((s.total, s.solved, s.passed), (3, 2, 1));
    assert_eq!(s.center_med_arcmin, Some(fixed(1.0)));
    assert_eq!(s.center_max_arcmin, Some(fixed(9.0)));
    assert_eq!(s.roll_max_deg, Some(fixed(0.5)));
    assert_eq!(s.solve_p95_ms, Some(fixed(4.0)));
    assert_eq!(report.failures(), vec![1, 2]);
    assert_eq!(Report::new("none", vec![]).summary().solve_p50_ms, None);
}
