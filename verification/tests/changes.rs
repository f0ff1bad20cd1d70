use pmp_iq::analysis::{AnalysisResult, AppInfo, DependencyInfo, Metadata};
use pmp_iq::changes::{
    application_change, diff_keys, summarize, sync_changes, ChangeDetail, ChangeKind, ChangeRow, DiffCounts,
};

fn row(entity_type: &str, key: &str, change: &str) -> ChangeRow {
    ChangeRow {
        id: 1,
        application_id: None,
        entity_type: entity_type.into(),
        entity_key: key.into(),
        change: change.into(),
        detail: None,
        occurred_at: 0,
    }
}

#[test]
fn diff_keys_emits_created_and_removed() {
    let prior = vec!["a".to_string(), "b".to_string()];
    let next = vec!["b".to_string(), "c".to_string()];
    let changes = diff_keys("dependency", &prior, &next);
    assert_eq!(changes.len(), 2);
    assert!(changes.iter().any(|c| c.entity_key == "c" && c.kind == ChangeKind::Created));
    assert!(changes.iter().any(|c| c.entity_key == "a" && c.kind == ChangeKind::Removed));
    assert!(!changes.iter().any(|c| c.entity_key == "b")); // unchanged
}

#[test]
fn diff_keys_dedups_and_is_empty_when_equal() {
    let prior = vec!["x".to_string(), "x".to_string()];
    let next = vec!["x".to_string()];
    assert!(diff_keys("library", &prior, &next).is_empty());
}

#[test]
fn diff_keys_orders_creations_then_removals_sorted() {
    let prior = vec!["m".to_string(), "b".to_string(), "b".to_string()];
    let next = vec!["z".to_string(), "a".to_string(), "z".to_string()];
    let changes = diff_keys("service", &prior, &next);
    let got: Vec<(String, &str)> = changes.iter().map(|c| (c.entity_key.clone(), c.kind.as_str())).collect();
    assert_eq!(
        got,
        vec![
            ("a".to_string(), "created"),
            ("z".to_string(), "created"),
            ("b".to_string(), "removed"),
            ("m".to_string(), "removed"),
        ]
    );
    assert!(changes.iter().all(|c| c.entity_type == "service" && matches!(c.detail, ChangeDetail::Empty)));
}

#[test]
fn application_change_detects_create_and_update() {
    assert_eq!(application_change("api", None, "service", "d").unwrap().kind, ChangeKind::Created);
    assert!(application_change("api", Some(("service", "d")), "service", "d").is_none());
    let updated = application_change("api", Some(("api", "old")), "service", "new").unwrap();
    assert_eq!(updated.kind, ChangeKind::Updated);
    match updated.detail {
        ChangeDetail::AppUpdate { after_type, before_type, before_description, after_description } => {
            assert_eq!(after_type, "service");
            assert_eq!(before_type, "api");
            assert_eq!(before_description, "old");
            assert_eq!(after_description, "new");
        }
        ChangeDetail::Empty => panic!("an update records before and after"),
    }
    assert_eq!(updated.entity_type, "application");
    assert_eq!(updated.entity_key, "api");
}

#[test]
fn summarize_counts_per_type() {
    let rows = vec![row("dependency", "a", "created"), row("dependency", "b", "removed"), row("application", "x", "updated")];
    let s = summarize(&rows);
    assert_eq!(*s.get("dependency").unwrap(), DiffCounts { created: 1, updated: 0, removed: 1 });
    assert_eq!(*s.get("application").unwrap(), DiffCounts { created: 0, updated: 1, removed: 0 });
    // Entity types come out in order.
    assert_eq!(s.entry(0).0, "application");
    assert_eq!(s.len(), 2);
}

#[test]
fn summarize_ignores_unknown_change_names() {
    let rows = vec![row("tool", "a", "renamed"), row("tool", "a", "created"), row("tool", "b", "created")];
    let s = summarize(&rows);
    assert_eq!(*s.get("tool").unwrap(), DiffCounts { created: 2, updated: 0, removed: 0 });
}

#[test]
fn change_kind_names() {
    assert_eq!(ChangeKind::Created.as_str(), "created");
    assert_eq!(ChangeKind::Updated.as_str(), "updated");
    assert_eq!(ChangeKind::Removed.as_str(), "removed");
}

fn synced(app_type: Option<&str>, deps: &[&str]) -> AnalysisResult {
    AnalysisResult {
        application: AppInfo {
            name: "shop".into(),
            app_type: app_type.map(|s| s.to_string()),
            description: None,
            primary_language: None,
            metadata: Metadata::Other("null".into()),
        },
        languages: vec![],
        libraries: vec![],
        infrastructure: vec![],
        tools: vec![],
        cloud_providers: vec![],
        services: vec![],
        platforms: vec![],
        external: vec![],
        dependencies: deps
            .iter()
            .map(|d| DependencyInfo {
                target_name: d.to_string(),
                kind: None,
                description: None,
                component: None,
                metadata: Metadata::Other("null".into()),
            })
            .collect(),
        users: vec![],
        groups: vec![],
        access: vec![],
        components: vec![],
        use_cases: vec![],
    }
}

#[test]
fn sync_of_new_application_records_creation_and_dependencies() {
    let result = synced(Some("service"), &["db", "cache"]);
    let changes = sync_changes(&result, None, &[]);
    assert_eq!(changes.len(), 3);
    assert_eq!(changes[0].entity_type, "application");
    assert_eq!(changes[0].entity_key, "shop");
    assert_eq!(changes[0].kind, ChangeKind::Created);
    assert!(changes.iter().any(|c| c.entity_type == "dependency" && c.entity_key == "db" && c.kind == ChangeKind::Created));
    assert!(changes.iter().any(|c| c.entity_key == "cache" && c.kind == ChangeKind::Created));
}

#[test]
fn sync_of_unchanged_application_records_only_dependency_diff() {
    let result = synced(Some("service"), &["db"]);
    let prior = vec!["db".to_string(), "queue".to_string()];
    let changes = sync_changes(&result, Some(("service", "")), &prior);
    assert_eq!(changes.len(), 1);
    assert_eq!(changes[0].entity_type, "dependency");
    assert_eq!(changes[0].entity_key, "queue");
    assert_eq!(changes[0].kind, ChangeKind::Removed);
}

#[test]
fn sync_of_retyped_application_records_update() {
    let result = synced(None, &[]);
    let changes = sync_changes(&result, Some(("service", "")), &[]);
    assert_eq!(changes.len(), 1);
    assert_eq!(changes[0].kind, ChangeKind::Updated);
    match &changes[0].detail {
        ChangeDetail::AppUpdate { before_type, before_description, after_type, after_description } => {
            assert_eq!(before_type, "service");
            assert_eq!(before_description, "");
            assert_eq!(after_type, "");
            assert_eq!(after_description, "");
        }
        ChangeDetail::Empty => panic!("expected an update detail"),
    }
}

#[test]
fn resync_of_same_result_records_nothing() {
    let result = synced(Some("service"), &["db", "cache", "db"]);
    let prior = vec!["cache".to_string(), "db".to_string()];
    assert!(sync_changes(&result, Some(("service", "")), &prior).is_empty());
}
