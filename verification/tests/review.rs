use pmp_iq::pr_watcher::default_profile;
use pmp_iq::review::{
    account_step, analysis_steps, sweep_plan, write_mode, AccountStep, WriteMode,
    after_account, backfill_profile, needs_diff, pinned_profile, repo_selected, should_visit, summary_line,
    AccountOutcome, Checkpoint, RepoEvent, SweepAction, Tally,
};

const ACCOUNT: u128 = 0x0123_4567_89ab_cdef_0123_4567_89ab_cdef;

#[test]
fn uses_pinned_profile_without_consulting_repo() {
    let id: u128 = 0xa1a2a3a4b1b2c1c2d1d2d3d4d5d6d7d8;
    assert_eq!(pinned_profile(Some("a1a2a3a4-b1b2-c1c2-d1d2-d3d4d5d6d7d8")), Ok(Some(id)));
}

#[test]
fn falls_back_to_default_profile_when_unset() {
    let want: u128 = 42;
    assert_eq!(pinned_profile(None), Ok(None));
    assert_eq!(default_profile(&[(want, true)]), Some(want));
}

#[test]
fn returns_none_when_no_profiles_exist() {
    assert_eq!(pinned_profile(None), Ok(None));
    assert_eq!(default_profile(&[]), None);
}

#[test]
fn invalid_pinned_id_errors() {
    let err = pinned_profile(Some("not-a-uuid")).unwrap_err();
    assert!(err.starts_with("invalid ai_profile_id: "));
}

#[test]
fn pinned_profile_accepts_the_usual_uuid_forms() {
    let id: u128 = 0x67e5504410b1426f9247bb680e5fe0c8;
    assert_eq!(pinned_profile(Some("67e55044-10b1-426f-9247-bb680e5fe0c8")), Ok(Some(id)));
    assert_eq!(pinned_profile(Some("67e5504410b1426f9247bb680e5fe0c8")), Ok(Some(id)));
    assert!(pinned_profile(Some("67e55044")).is_err());
}

#[test]
fn backfills_missing_profile_preserving_config() {
    assert_eq!(backfill_profile(false, Some(7)), Some(7));
}

#[test]
fn keeps_existing_profile_and_does_not_update() {
    assert_eq!(backfill_profile(true, Some(7)), None);
}

#[test]
fn no_profile_leaves_existing_job_untouched() {
    assert_eq!(backfill_profile(false, None), None);
}

#[test]
fn tally_counts_events_and_formats_summary() {
    let mut t = Tally::new();
    for e in [RepoEvent::Selected, RepoEvent::Selected, RepoEvent::Cloned, RepoEvent::CloneFailed, RepoEvent::Analyzed] {
        t.record(e);
    }
    t.record(RepoEvent::AnalysisFailed);
    assert_eq!(t, Tally { repositories: 2, cloned: 1, failed: 1, analyzed: 1, analysis_failed: 1 });
    assert_eq!(summary_line(&t), "done: 2 repositories, 1 cloned, 1 failed, 1 analysed");
}

#[test]
fn sweep_skips_done_and_out_of_scope_accounts() {
    let mut cp = Checkpoint::new();
    assert!(should_visit(None, ACCOUNT, &cp));
    assert!(!should_visit(Some(ACCOUNT + 1), ACCOUNT, &cp));
    assert!(matches!(after_account(&mut cp, ACCOUNT, "main", AccountOutcome::Done), SweepAction::Continue));
    assert!(cp.is_done(ACCOUNT));
    assert!(!should_visit(None, ACCOUNT, &cp));
    assert!(should_visit(None, ACCOUNT + 1, &cp));
}

#[test]
fn rate_limit_pauses_and_errors_fail() {
    let mut cp = Checkpoint::new();
    assert!(matches!(
        after_account(&mut cp, ACCOUNT, "main", AccountOutcome::RateLimited(Some(1_700_000_000))),
        SweepAction::Pause(Some(1_700_000_000))
    ));
    assert!(!cp.is_done(ACCOUNT));
    match after_account(&mut cp, ACCOUNT, "main", AccountOutcome::Failed("boom".into())) {
        SweepAction::Fail(m) => assert_eq!(m, "account 'main': boom"),
        _ => panic!("an account error fails the run"),
    }
}

#[test]
fn repository_scope_and_incremental_mode() {
    assert!(repo_selected(None, "org/a"));
    assert!(repo_selected(Some("org/a"), "org/a"));
    assert!(!repo_selected(Some("org/a"), "org/b"));
    assert!(needs_diff(true, Some("abc"), "def"));
    assert!(!needs_diff(true, Some("abc"), "abc"));
    assert!(!needs_diff(false, Some("abc"), "def"));
    assert!(!needs_diff(true, None, "def"));
}

#[test]
fn a_requested_pause_stops_before_the_next_account() {
    let mut cp = Checkpoint::new();
    assert_eq!(account_step(None, ACCOUNT, &cp, false), AccountStep::Process);
    assert_eq!(account_step(None, ACCOUNT, &cp, true), AccountStep::Pause);
    assert_eq!(account_step(Some(7), ACCOUNT, &cp, true), AccountStep::Skip);
    let _ = after_account(&mut cp, ACCOUNT, "main", AccountOutcome::Done);
    assert_eq!(account_step(None, ACCOUNT, &cp, true), AccountStep::Skip);
    assert_eq!(account_step(None, ACCOUNT, &cp, false), AccountStep::Skip);
}

#[test]
fn catalog_and_prune_only_with_a_provider() {
    let with = sweep_plan(true);
    assert!(with.snapshot_catalog && with.prune_orphans);
    assert_eq!(with.analysis, "with analysis");
    let without = sweep_plan(false);
    assert!(!without.snapshot_catalog && !without.prune_orphans);
    assert_eq!(without.analysis, "without analysis (no AI profile configured \u{2014} add one under AI Profiles)");
}

#[test]
fn full_analyses_resolve_and_reconcile_incremental_ones_merge() {
    let full = analysis_steps(false, true, true);
    assert!(full.resolve_dependencies && full.reconcile_members);
    let inc = analysis_steps(true, true, true);
    assert!(!inc.resolve_dependencies && !inc.reconcile_members);
    let no_catalog = analysis_steps(false, false, false);
    assert!(!no_catalog.resolve_dependencies && !no_catalog.reconcile_members);
    assert_eq!(write_mode(true, Some(5)), WriteMode::Partial(5));
    assert_eq!(write_mode(true, None), WriteMode::Full);
    assert_eq!(write_mode(false, Some(5)), WriteMode::Full);
}
