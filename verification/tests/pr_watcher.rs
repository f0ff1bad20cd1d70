use pmp_iq::pr_watcher::{
    already_acted, build_fix_instruction, default_profile, finish_for, fix_plan, parse_pr_number, settle_task,
    CheckRun, TargetState, AGENT_MARKER,
};

#[test]
fn parses_pr_number_from_urls() {
    assert_eq!(parse_pr_number("https://github.com/org/api/pull/7"), Some(7));
    assert_eq!(parse_pr_number("https://gitlab.com/g/p/-/merge_requests/42"), Some(42));
    assert_eq!(parse_pr_number("https://github.com/org/api/pull/"), None);
    assert_eq!(parse_pr_number("not-a-url"), None);
}

#[test]
fn parses_pr_number_edge_cases() {
    assert_eq!(parse_pr_number("https://github.com/org/api/pull/7///"), Some(7));
    assert_eq!(parse_pr_number("12"), Some(12));
    assert_eq!(parse_pr_number("x/+5"), Some(5));
    assert_eq!(parse_pr_number("x/-5"), None);
    assert_eq!(parse_pr_number("x/18446744073709551615"), Some(u64::MAX));
    assert_eq!(parse_pr_number("x/18446744073709551616"), None);
    assert_eq!(parse_pr_number(""), None);
}

#[test]
fn fix_instruction_mentions_each_signal() {
    let i = build_fix_instruction("org/api", "main", true, &["build".into()], Some("please rename x"));
    assert!(i.contains("merge conflicts"));
    assert!(i.contains("origin/main"));
    assert!(i.contains("build"));
    assert!(i.contains("please rename x"));
}

#[test]
fn fix_instruction_omits_absent_signals() {
    let i = build_fix_instruction("org/api", "main", false, &[], None);
    assert!(!i.contains("merge conflicts"));
    assert!(!i.contains("CI checks"));
    assert!(i.contains("summarise"));
}

#[test]
fn fix_instruction_exact_text() {
    let i = build_fix_instruction("o/r", "dev", false, &["a".into(), "b".into()], None);
    assert_eq!(
        i,
        "You are continuing work on the open pull request for repository 'o/r'. Your working directory is checked out on the PR branch. These CI checks are failing \u{2014} investigate and fix them: a, b. Make the necessary code changes, then summarise what you did."
    );
}

#[test]
fn profile_pick_prefers_enabled() {
    assert_eq!(default_profile(&[(1, false), (2, true), (3, true)]), Some(2));
    assert_eq!(default_profile(&[(1, false), (2, false)]), Some(1));
    assert_eq!(default_profile(&[]), None);
}

#[test]
fn task_settles_when_all_targets_finish() {
    assert_eq!(settle_task(&[]), None);
    assert_eq!(settle_task(&[TargetState::Merged, TargetState::Open]), None);
    assert_eq!(settle_task(&[TargetState::Closed, TargetState::Merged]), Some(TargetState::Merged));
    assert_eq!(settle_task(&[TargetState::Closed, TargetState::Closed]), Some(TargetState::Closed));
}

#[test]
fn finished_prs_get_a_note() {
    let (s, note) = finish_for("merged", "org/api").unwrap();
    assert_eq!(s, TargetState::Merged);
    assert_eq!(note, "**org/api** PR was merged. \u{2705}");
    let (s, note) = finish_for("closed", "org/api").unwrap();
    assert_eq!(s, TargetState::Closed);
    assert_eq!(note, "**org/api** PR was closed without merging.");
    assert!(finish_for("open", "org/api").is_none());
}

#[test]
fn own_latest_comment_means_already_acted() {
    let mine = format!("{AGENT_MARKER} addressing it");
    assert!(already_acted(Some(mine.as_str())));
    assert!(!already_acted(Some("please fix")));
    assert!(!already_acted(None));
}

#[test]
fn fix_plan_only_when_something_to_fix() {
    let green = vec![CheckRun { name: "ci".into(), conclusion: Some("success".into()) }];
    assert!(fix_plan("org/api", None, Some(true), &green, None).is_none());
    let red = vec![
        CheckRun { name: "lint".into(), conclusion: Some("failure".into()) },
        CheckRun { name: "pending".into(), conclusion: None },
    ];
    let plan = fix_plan("org/api", None, None, &red, None).unwrap();
    assert!(plan.instruction.contains("lint"));
    assert!(!plan.instruction.contains("pending"));
    assert!(plan.note.starts_with(AGENT_MARKER));
    let conflict = fix_plan("org/api", Some("trunk"), Some(false), &[], None).unwrap();
    assert!(conflict.instruction.contains("origin/trunk"));
    let comment = fix_plan("org/api", None, None, &[], Some("rename x")).unwrap();
    assert!(comment.instruction.contains("rename x"));
}
