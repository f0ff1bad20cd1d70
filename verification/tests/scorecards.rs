use pmp_iq::scorecards::{run_plain_rule, tally, CheckOutcome, RuleFacts, ScoreTally};

fn outcome(enabled: bool, weight: i32, severity: &str, passed: bool) -> CheckOutcome {
    CheckOutcome { enabled, weight, severity: severity.into(), passed }
}

#[test]
fn tally_weighs_enabled_checks_only() {
    let checks = vec![
        outcome(true, 2, "warn", true),
        outcome(true, 1, "warn", false),
        outcome(false, 5, "critical", false),
        outcome(true, -3, "info", true),
        outcome(true, 2, "info", true),
    ];
    assert_eq!(tally(&checks), ScoreTally { total_weight: 5, earned: 4, critical_failed: false });
}

#[test]
fn failed_critical_check_is_flagged() {
    let checks = vec![outcome(true, 2, "critical", false), outcome(true, 1, "warn", true)];
    assert_eq!(tally(&checks), ScoreTally { total_weight: 3, earned: 1, critical_failed: true });
    let passed = vec![outcome(true, 2, "critical", true)];
    assert!(!tally(&passed).critical_failed);
}

#[test]
fn no_enabled_checks_weigh_nothing() {
    assert_eq!(tally(&vec![]), ScoreTally { total_weight: 0, earned: 0, critical_failed: false });
    let disabled = vec![outcome(false, 3, "critical", false)];
    assert_eq!(tally(&disabled), ScoreTally { total_weight: 0, earned: 0, critical_failed: false });
}

fn facts(owners: &[&str], description: Option<&str>, signals: Vec<usize>, diagrams: Vec<usize>) -> RuleFacts {
    RuleFacts {
        owner_teams: owners.iter().map(|s| s.to_string()).collect(),
        description: description.map(|s| s.to_string()),
        component_signals: signals,
        use_case_diagrams: diagrams,
    }
}

#[test]
fn plain_rules_read_ownership_docs_and_model() {
    let good = facts(&["platform"], Some("a documented service"), vec![0, 1], vec![1]);
    assert_eq!(run_plain_rule("has_owner", &good), Some(true));
    assert_eq!(run_plain_rule("documented", &good), Some(true));
    assert_eq!(run_plain_rule("has_observability", &good), Some(true));
    assert_eq!(run_plain_rule("has_diagrams", &good), Some(true));
    let bare = facts(&[], Some("   "), vec![0, 0], vec![]);
    assert_eq!(run_plain_rule("has_owner", &bare), Some(false));
    assert_eq!(run_plain_rule("documented", &bare), Some(false));
    assert_eq!(run_plain_rule("documented", &facts(&[], None, vec![], vec![])), Some(false));
    assert_eq!(run_plain_rule("has_observability", &bare), Some(false));
    assert_eq!(run_plain_rule("has_diagrams", &bare), Some(false));
    assert_eq!(run_plain_rule("metric_min", &good), None);
    assert_eq!(run_plain_rule("metric_max", &good), None);
    assert_eq!(run_plain_rule("something_new", &bare), Some(true));
}
