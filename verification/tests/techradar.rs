use chrono::Datelike;
use pmp_iq::techradar::{
    assess, count_current, count_eol, default_policies, eol_status, is_current, major_behind, parse_eol,
    parse_semver, DepInput,
};

fn day(y: i32, m: u32, d: u32) -> i64 {
    chrono::NaiveDate::from_ymd_opt(y, m, d).unwrap().num_days_from_ce() as i64
}

#[test]
fn parses_versions_tolerantly() {
    assert_eq!(parse_semver("1.2.3"), Some((1, 2, 3)));
    assert_eq!(parse_semver("^2.0"), Some((2, 0, 0)));
    assert_eq!(parse_semver("v3"), Some((3, 0, 0)));
    assert_eq!(parse_semver("1.2.3-rc1"), Some((1, 2, 3)));
    assert_eq!(parse_semver("not-a-version"), None);
}

#[test]
fn major_lag() {
    assert_eq!(major_behind("1.0.0", "3.2.1"), 2);
    assert_eq!(major_behind("3.0.0", "3.5.0"), 0); // same major
    assert_eq!(major_behind("4.0.0", "3.0.0"), 0); // ahead
    assert_eq!(major_behind("x", "1.0.0"), 0); // unparseable
}

#[test]
fn eol_buckets() {
    let today = day(2026, 6, 1);
    assert_eq!(eol_status(None, today, 90), "unknown");
    assert_eq!(eol_status(Some(day(2026, 1, 1)), today, 90), "eol"); // past
    assert_eq!(eol_status(Some(day(2026, 7, 1)), today, 90), "eol_soon"); // within 90d
    assert_eq!(eol_status(Some(day(2027, 1, 1)), today, 90), "current"); // far off
}

#[test]
fn assess_and_score() {
    let today = day(2026, 6, 1);
    let deps = vec![
        assess(&DepInput { name: "axum".into(), ecosystem: "cargo".into(), version: "0.7.0".into(), latest: Some("0.7.5".into()), eol: None }, today, 90),
        assess(&DepInput { name: "old".into(), ecosystem: "cargo".into(), version: "1.0.0".into(), latest: Some("3.0.0".into()), eol: Some(day(2025, 1, 1)) }, today, 90),
    ];
    // axum same-major + no eol -> current; old is 2 behind + eol -> not current.
    assert_eq!(deps[0].major_behind, 0);
    assert_eq!(deps[1].major_behind, 2);
    assert_eq!(deps[1].eol_status, "eol");
    assert!(is_current(&deps[0]));
    assert!(!is_current(&deps[1]));
    assert_eq!(count_current(&deps), 1);
    assert_eq!(count_current(&[]), 0);
    assert_eq!(count_eol(&deps), 1);
    assert_eq!(count_eol(&[]), 0);
}

#[test]
fn semver_edge_cases() {
    assert_eq!(parse_semver(" ~=V10.x.7"), Some((10, 0, 7)));
    assert_eq!(parse_semver("1. 4 .9"), Some((1, 4, 9)));
    assert_eq!(parse_semver("18446744073709551615"), Some((u64::MAX, 0, 0)));
    assert_eq!(parse_semver("18446744073709551616"), None);
    assert_eq!(parse_semver(""), None);
    assert_eq!(parse_semver("2.99999999999999999999"), Some((2, 0, 0)));
}

#[test]
fn eol_dates_parse_from_policy_text() {
    assert_eq!(parse_eol(&Some("2025-04-30".to_string())), Some(day(2025, 4, 30)));
    assert_eq!(parse_eol(&Some("April".to_string())), None);
    assert_eq!(parse_eol(&None), None);
}

#[test]
fn default_policies_seed() {
    let p = default_policies();
    assert_eq!(p.len(), 8);
    assert_eq!(p[0].name, "rust");
    assert_eq!(p[2].eol_date.as_deref(), Some("2025-04-30"));
    assert_eq!(p[7].ecosystem, "pip");
}
