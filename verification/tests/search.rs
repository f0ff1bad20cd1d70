use pmp_iq::ids::{id_text, parse_id};
use chrono::Datelike;
use pmp_iq::remediation::{applies_to, evaluation_pairs, scope_app_ids, RuleScope};
use pmp_iq::search::{enrich, href_for, substring_search, NamedEntity, SEARCH_K};
use pmp_iq::techradar::{assess_libraries, LibraryRow, VersionPolicy};
use pmp_iq::time::{parse_time, series_window_days, window_days};

fn named(t: &str, id: u128, name: &str) -> NamedEntity {
    NamedEntity { entity_type: t.into(), entity_id: id, name: name.into() }
}

#[test]
fn substring_results_are_ranked_by_position() {
    let names = vec![
        named("service", 1, "Billing Gateway"),
        named("application", 2, "payments-api"),
        named("application", 3, "API"),
        named("library", 4, "serde"),
    ];
    let hits = substring_search(&names, "Api", None);
    let got: Vec<(&str, u128)> = hits.iter().map(|h| (h.name.as_str(), h.entity_id)).collect();
    assert_eq!(got, vec![("API", 3), ("payments-api", 2)]);
    assert_eq!(hits[0].href.as_deref(), Some("/platform/applications/00000000-0000-0000-0000-000000000003"));
}

#[test]
fn substring_filter_and_ties_keep_input_order() {
    let names = vec![named("service", 1, "auth-a"), named("application", 2, "auth-b"), named("service", 3, "auth-c")];
    let hits = substring_search(&names, "auth", Some("service"));
    let ids: Vec<u128> = hits.iter().map(|h| h.entity_id).collect();
    assert_eq!(ids, vec![1, 3]);
    assert!(hits.iter().all(|h| h.href.is_none()));
}

#[test]
fn substring_positions_are_byte_offsets() {
    // "é" takes two bytes: "éx" puts the match at byte 2, "aax" at byte 2 too,
    // "ax" at byte 1.
    let names = vec![named("t", 1, "éx"), named("t", 2, "ax"), named("t", 3, "aax")];
    let ids: Vec<u128> = substring_search(&names, "x", None).iter().map(|h| h.entity_id).collect();
    assert_eq!(ids, vec![2, 1, 3]);
}

#[test]
fn substring_results_are_capped() {
    let names: Vec<NamedEntity> = (0..30).map(|i| named("tool", i, &format!("tool-{i}"))).collect();
    assert_eq!(substring_search(&names, "tool", None).len(), SEARCH_K);
}

#[test]
fn only_applications_link_to_a_page() {
    assert_eq!(href_for("application", 1).as_deref(), Some("/platform/applications/00000000-0000-0000-0000-000000000001"));
    assert_eq!(href_for("service", 1), None);
}

#[test]
fn libraries_are_assessed_against_the_last_matching_policy() {
    let today = chrono::NaiveDate::from_ymd_opt(2026, 6, 1).unwrap().num_days_from_ce() as i64;
    let libs = vec![
        LibraryRow { name: "serde".into(), ecosystem: "cargo".into(), version: "1.0.0".into() },
        LibraryRow { name: "django".into(), ecosystem: "pypi".into(), version: "3.2".into() },
        LibraryRow { name: "left-pad".into(), ecosystem: "npm".into(), version: "1.0.0".into() },
    ];
    let policies = vec![
        VersionPolicy { ecosystem: "cargo".into(), name: "serde".into(), latest: Some("9.0.0".into()), eol_date: None },
        VersionPolicy { ecosystem: "pypi".into(), name: "django".into(), latest: Some("5.0".into()), eol_date: Some("2024-04-01".into()) },
        VersionPolicy { ecosystem: "cargo".into(), name: "serde".into(), latest: Some("1.0.200".into()), eol_date: Some("2026-07-01".into()) },
    ];
    let out = assess_libraries(&libs, &policies, today);
    assert_eq!(out.len(), 3);
    assert_eq!(out[0].major_behind, 0);
    assert_eq!(out[0].latest.as_deref(), Some("1.0.200"));
    assert_eq!(out[0].eol_status, "eol_soon");
    assert_eq!(out[1].major_behind, 2);
    assert_eq!(out[1].eol_status, "eol");
    assert_eq!(out[2].latest, None);
    assert_eq!(out[2].eol_status, "unknown");
}

#[test]
fn report_windows() {
    assert_eq!(window_days(Some(30)), 30);
    assert_eq!(window_days(Some(0)), 90);
    assert_eq!(window_days(None), 90);
    assert_eq!(series_window_days(None), 90);
    assert_eq!(series_window_days(Some(0)), 1);
    assert_eq!(series_window_days(Some(5000)), 1825);
}

#[test]
fn query_timestamps() {
    assert_eq!(parse_time(None, (5, 0)), Ok((5, 0)));
    assert_eq!(parse_time(Some("1970-01-01T00:00:10.5+00:00"), (5, 0)), Ok((10, 500_000_000)));
    assert_eq!(parse_time(Some("2024-01-01T01:00:00+01:00"), (0, 0)), Ok((1_704_067_200, 0)));
    let err = parse_time(Some("yesterday"), (0, 0)).unwrap_err();
    assert!(err.starts_with("invalid timestamp 'yesterday': "));
}

#[test]
fn remediation_scope() {
    let texts = vec!["not-a-uuid".to_string(), "00000000-0000-0000-0000-00000000000a".to_string()];
    let scope = scope_app_ids(Some(&texts));
    assert_eq!(scope, Some(vec![10]));
    assert!(applies_to(&scope, 10));
    assert!(!applies_to(&scope, 11));
    assert_eq!(scope_app_ids(Some(&vec!["bad".to_string()])), None);
    assert_eq!(scope_app_ids(None), None);
    assert!(applies_to(&None, 11));
}

#[test]
fn neighbours_get_their_listed_names_and_links() {
    let names = vec![
        named("application", 7, "Old name"),
        named("library", 7, "serde"),
        named("application", 7, "Billing"),
    ];
    let neighbours = vec![("application".to_string(), 7u128), ("library".to_string(), 7u128), ("application".to_string(), 9u128)];
    let hits = enrich(&neighbours, &names);
    assert_eq!(hits.len(), 3);
    assert_eq!(hits[0].name, "Billing");
    assert_eq!(hits[0].href.as_deref(), Some("/platform/applications/00000000-0000-0000-0000-000000000007"));
    assert_eq!(hits[1].name, "serde");
    assert_eq!(hits[1].href, None);
    assert_eq!(hits[2].entity_id, 9);
    assert_eq!(hits[2].name, "");
}

#[test]
fn scoped_rule_meets_listed_apps_only() {
    let a = 0xa0u128;
    let b = 0xb0u128;
    let rules = vec![RuleScope { enabled: true, app_ids: Some(vec![a]) }];
    assert_eq!(evaluation_pairs(&rules, &vec![a, b]), vec![(0, 0)]);
}

#[test]
fn evaluation_skips_disabled_rules_and_covers_the_fleet_when_unscoped() {
    let rules = vec![
        RuleScope { enabled: false, app_ids: None },
        RuleScope { enabled: true, app_ids: None },
        RuleScope { enabled: true, app_ids: Some(vec![3]) },
    ];
    assert_eq!(evaluation_pairs(&rules, &vec![1, 3]), vec![(1, 0), (1, 1), (2, 1)]);
    assert!(evaluation_pairs(&rules, &vec![]).is_empty());
}

#[test]
fn ids_parse_and_print_as_uuids() {
    assert_eq!(parse_id("00000000-0000-0000-0000-00000000002a"), Some(42));
    assert_eq!(parse_id("not-a-uuid"), None);
    assert_eq!(id_text(42), "00000000-0000-0000-0000-00000000002a");
}
