use pmp_iq::rbac::{
    mutation_gate, owner_team_names, role_before_count, role_from_count, role_guard_allows,
    shares_team, tenant_scoped, union_ids, MutationGate, Role, Team,
};

#[test]
fn role_ordering_and_parse() {
    assert!(Role::Admin > Role::Maintainer);
    assert!(Role::Maintainer > Role::Viewer);
    assert_eq!(Role::parse("ADMIN"), Role::Admin);
    assert_eq!(Role::parse("nonsense"), Role::Viewer); // fail closed
    assert_eq!(Role::parse("maintainer").as_str(), "maintainer");
}

#[test]
fn highest_picks_strongest() {
    assert_eq!(Role::highest(&["viewer".into(), "admin".into()]), Role::Admin);
    assert_eq!(Role::highest(&[]), Role::Viewer);
}

#[test]
fn role_meets_minimum() {
    assert!(Role::highest(&["admin".into()]) >= Role::Maintainer);
    assert!(Role::highest(&["maintainer".into()]) >= Role::Maintainer);
    assert!(Role::highest(&["viewer".into()]) < Role::Maintainer);
}

#[test]
fn parse_trims_and_lowercases() {
    assert_eq!(Role::parse("  Maintainer \n"), Role::Maintainer);
    assert_eq!(Role::parse(""), Role::Viewer);
    assert_eq!(Role::Viewer.as_str(), "viewer");
    assert_eq!(Role::Admin.as_str(), "admin");
    assert_eq!(Role::Admin.level(), 2);
    assert!(Role::Maintainer.at_least(Role::Viewer));
    assert!(!Role::Viewer.at_least(Role::Maintainer));
}

#[test]
fn guard_requires_a_principal_with_enough_role() {
    let admin = vec!["admin".to_string()];
    let viewer = vec!["viewer".to_string()];
    assert!(role_guard_allows(Some(&admin), Role::Maintainer));
    assert!(!role_guard_allows(Some(&viewer), Role::Maintainer));
    assert!(!role_guard_allows(None, Role::Viewer));
}

#[test]
fn role_for_bootstrap_and_default() {
    // An explicit assignment wins; the bootstrap admin is admin; others
    // depend on whether any role is assigned.
    assert_eq!(role_before_count(Some(Role::Viewer), Some("root"), "root"), Some(Role::Viewer));
    assert_eq!(role_before_count(None, Some("root"), "root"), Some(Role::Admin));
    assert_eq!(role_before_count(None, Some("root"), "other"), None);
    assert_eq!(role_from_count(3), Role::Viewer);
}

#[test]
fn role_for_empty_table_is_admin() {
    assert_eq!(role_before_count(None, Some("root"), "anyone"), None);
    assert_eq!(role_from_count(0), Role::Admin);
}

#[test]
fn admin_can_mutate_any_app() {
    assert_eq!(mutation_gate(&["admin".to_string()]), MutationGate::Allowed);
}

#[test]
fn viewer_cannot_mutate() {
    assert_eq!(mutation_gate(&["viewer".to_string()]), MutationGate::Denied);
}

#[test]
fn maintainer_can_mutate_only_owned_apps() {
    assert_eq!(mutation_gate(&["maintainer".to_string()]), MutationGate::NeedsOwnership);
    let team = 7u128;
    assert!(shares_team(&[team], &[team]));
    assert!(!shares_team(&[team], &[8u128]));
}

#[test]
fn tenant_scope_limits_non_admins_when_enabled() {
    assert!(tenant_scoped(true, &["viewer".to_string()]));
    assert!(!tenant_scoped(true, &["admin".to_string()]));
    assert!(!tenant_scoped(false, &["viewer".to_string()]));
    let app = 42u128;
    let visible = union_ids(&[vec![app], vec![app]]);
    assert!(visible.contains(&app) && visible.len() == 1);
}

#[test]
fn owner_names_follow_team_order() {
    let teams = vec![
        Team { id: 1, name: "a".into(), tenant_id: None },
        Team { id: 2, name: "b".into(), tenant_id: Some("t".into()) },
        Team { id: 3, name: "c".into(), tenant_id: None },
    ];
    assert_eq!(owner_team_names(&teams, &[3, 1]), vec!["a".to_string(), "c".to_string()]);
    assert!(owner_team_names(&teams, &[]).is_empty());
}
