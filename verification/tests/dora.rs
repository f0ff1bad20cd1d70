use pmp_iq::dora::{
    deploy_defaults, deploy_target, find_repository, fleet_apps, mapped_application, DeployTarget, ResolveError,
};

#[test]
fn explicit_application_id_wins() {
    match deploy_target(Some(4), Some("org/repo")) {
        Ok(DeployTarget::Application(id)) => assert_eq!(id, 4),
        _ => panic!("expected the explicit id"),
    }
}

#[test]
fn repository_name_is_used_without_an_id() {
    match deploy_target(None, Some("org/repo")) {
        Ok(DeployTarget::Repository(n)) => assert_eq!(n, "org/repo"),
        _ => panic!("expected the repository"),
    }
    match deploy_target(None, None) {
        Err(e) => {
            assert_eq!(e, ResolveError::Missing);
            assert_eq!(e.message(), "application_id or repository_full_name is required");
        }
        _ => panic!("expected an error"),
    }
}

#[test]
fn repository_lookup_takes_the_first_match() {
    let repos = vec![(1u128, "org/a".to_string()), (2u128, "org/b".to_string()), (3u128, "org/b".to_string())];
    assert_eq!(find_repository(&repos, "org/b"), Ok(2));
    assert_eq!(find_repository(&repos, "org/c"), Err(ResolveError::UnknownRepository));
    assert_eq!(ResolveError::UnknownRepository.message(), "repository");
    assert_eq!(mapped_application(Some(8)), Ok(8));
    assert_eq!(mapped_application(None), Err(ResolveError::UnmappedRepository));
    assert_eq!(ResolveError::UnmappedRepository.message(), "application for repository");
}

#[test]
fn deploy_defaults_are_production_and_success() {
    assert_eq!(deploy_defaults(None, None), ("production".to_string(), true));
    assert_eq!(deploy_defaults(Some("staging"), Some(false)), ("staging".to_string(), false));
}

#[test]
fn fleet_keeps_listed_applications_with_events() {
    let items = vec![Some(1u128), None, Some(2), Some(3)];
    let deployments = vec![Some(3u128), None, Some(1), Some(3)];
    let incidents = vec![Some(2u128), Some(9)];
    let rows = fleet_apps(&items, &deployments, &incidents);
    assert_eq!(rows.len(), 3);
    assert_eq!((rows[0].item, rows[0].id), (0, 1));
    assert_eq!(rows[0].deployments, vec![2]);
    assert!(rows[0].incidents.is_empty());
    assert_eq!((rows[1].item, rows[1].id), (2, 2));
    assert!(rows[1].deployments.is_empty());
    assert_eq!(rows[1].incidents, vec![0]);
    assert_eq!((rows[2].item, rows[2].id), (3, 3));
    assert_eq!(rows[2].deployments, vec![0, 3]);
}

#[test]
fn fleet_skips_applications_without_events() {
    let rows = fleet_apps(&vec![Some(1u128)], &vec![Some(2u128)], &vec![]);
    assert!(rows.is_empty());
}
