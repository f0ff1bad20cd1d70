use pmp_iq::keyed::KeyedList;
use pmp_iq::linked::{linked, linked_entities};
use pmp_iq::query::{filter_clause, filter_fields, is_entity, table_for, ListQuery, Page};

#[test]
fn looks_up_known_entities() {
    assert_eq!(linked("tools").unwrap().table, "tools");
    assert_eq!(linked("cloud-providers").unwrap().fk_col, "cloud_provider_id");
    assert!(linked("widgets").is_none());
}

#[test]
fn infrastructure_is_registered() {
    assert!(linked("infrastructure").is_some());
}

#[test]
fn registry_lists_six_entities_in_order() {
    let names: Vec<&str> = linked_entities().iter().map(|e| e.name).collect();
    assert_eq!(names, vec!["infrastructure", "tools", "cloud-providers", "services", "platforms", "external"]);
    assert_eq!(linked("external").unwrap().table, "external_deps");
}

#[test]
fn list_query_clamps_and_offsets() {
    let q = ListQuery::new(None, Some(3), Some(1000), KeyedList::new());
    assert_eq!(q.page_size, 200);
    assert_eq!(q.page, 3);
    assert_eq!(q.offset(), 400);
    let d = ListQuery::new(None, Some(0), None, KeyedList::new());
    assert_eq!(d.page, 1);
    assert_eq!(d.page_size, 25);
}

#[test]
fn effective_filters_allowlists_and_orders() {
    let mut filters = KeyedList::new();
    filters.insert("primary_language".into(), "Rust".to_string());
    filters.insert("app_type".into(), "api".to_string());
    filters.insert("evil; DROP".into(), "x".to_string()); // not allowlisted -> dropped
    let q = ListQuery::new(None, None, None, filters);
    let eff = q.effective_filters("applications");
    assert_eq!(
        eff,
        vec![("app_type".to_string(), "api".to_string()), ("primary_language".to_string(), "Rust".to_string())]
    );
    assert_eq!(filter_clause(&eff, "a.", 4, false), " AND a.app_type=$4 AND a.primary_language=$5");
    assert_eq!(filter_clause(&eff, "a.", 5, true), " AND a.app_type=?5 AND a.primary_language=?6");
}

#[test]
fn entity_recognition() {
    assert!(is_entity("applications"));
    assert!(is_entity("tools"));
    assert!(is_entity("cloud-providers"));
    assert!(is_entity("external"));
    assert!(!is_entity("widgets"));
}

#[test]
fn empty_filter_values_are_dropped_and_search_is_wrapped() {
    let mut filters = KeyedList::new();
    filters.insert("kind".into(), String::new());
    filters.insert("version".into(), "1".to_string());
    let q = ListQuery::new(Some("ab".into()), Some(2), Some(0), filters);
    assert_eq!(q.page_size, 1);
    assert_eq!(q.offset(), 1);
    assert_eq!(q.like(), "%ab%");
    assert_eq!(q.effective_filters("tools"), vec![("version".to_string(), "1".to_string())]);
    assert!(q.effective_filters("users").is_empty());
    assert_eq!(filter_clause(&[], "x.", 1, true), "");
}

#[test]
fn fields_and_tables_per_entity() {
    assert_eq!(filter_fields("services"), vec!["kind", "version"]);
    assert_eq!(filter_fields("libraries"), vec!["ecosystem"]);
    assert!(filter_fields("users").is_empty());
    assert_eq!(table_for("cloud-providers"), Some("cloud_providers"));
    assert_eq!(table_for("groups"), Some("groups"));
    assert_eq!(table_for("widgets"), None);
}

#[test]
fn page_carries_query_numbers() {
    let q = ListQuery::new(None, Some(4), Some(10), KeyedList::new());
    let p = Page::new(vec![1, 2], 42, &q);
    assert_eq!((p.items.len(), p.total, p.page, p.page_size), (2, 42, 4, 10));
}

#[test]
fn filter_values_never_reach_the_sql() {
    let a = vec![("app_type".to_string(), "service".to_string()), ("owner".to_string(), "x'; DROP".to_string())];
    let b = vec![("app_type".to_string(), "job".to_string()), ("owner".to_string(), "".to_string())];
    assert_eq!(filter_clause(&a, "a.", 2, false), filter_clause(&b, "a.", 2, false));
    assert_eq!(filter_clause(&a, "", 1, true), " AND app_type=?1 AND owner=?2");
    assert_eq!(filter_clause(&[], "a.", 1, false), "");
}
