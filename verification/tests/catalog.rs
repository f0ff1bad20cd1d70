use pmp_iq::analysis::{AnalysisResult, AppInfo, DependencyInfo, Metadata};
use pmp_iq::catalog::{
    choose_from_reply, normalize, pick_prompt, pick_requests, resolve_dependencies, shortlist, Catalog, CatalogEntry, Resolution,
};

fn entry(name: &str, kind: &str) -> CatalogEntry {
    CatalogEntry { name: name.into(), kind: kind.into() }
}

fn catalog(names: &[(&str, &str)]) -> Catalog {
    Catalog::new(names.iter().map(|(n, k)| entry(n, k)).collect())
}

fn result_with_dep(target: &str) -> AnalysisResult {
    AnalysisResult {
        application: AppInfo {
            name: "a".into(),
            app_type: None,
            description: None,
            primary_language: None,
            metadata: Metadata::Other("null".into()),
        },
        languages: vec![],
        libraries: vec![],
        infrastructure: vec![],
        tools: vec![],
        cloud_providers: vec![],
        services: vec![],
        platforms: vec![],
        external: vec![],
        dependencies: vec![DependencyInfo {
            target_name: target.into(),
            kind: None,
            description: None,
            component: None,
            metadata: Metadata::Other("null".into()),
        }],
        users: vec![],
        groups: vec![],
        access: vec![],
        components: vec![],
        use_cases: vec![],
    }
}

/// The model's reply to each question asked: `reply` for every question,
/// nothing where no question is asked (or without a model).
fn replies(cat: &Catalog, result: &AnalysisResult, reply: Option<&str>) -> Vec<Option<String>> {
    pick_requests(result, cat).into_iter().map(|q| q.and(reply.map(|r| r.to_string()))).collect()
}

#[test]
fn normalize_collapses_separators_and_case() {
    assert_eq!(normalize("auth-service"), "authservice");
    assert_eq!(normalize("Auth_Service"), "authservice");
    assert_eq!(normalize("AuthService"), "authservice");
}

#[test]
fn normalize_keeps_unicode_letters_lowercased() {
    assert_eq!(normalize("Ünïcode-Ærø 42!"), "ünïcodeærø42");
    assert_eq!(normalize("--"), "");
}

#[test]
fn exact_and_normalized_and_fuzzy_unique_rewrite_without_provider() {
    let cat = catalog(&[("auth-service", "application"), ("billing", "application")]);

    // Exact: unchanged name, not counted as a rewrite.
    let mut exact = result_with_dep("auth-service");
    let p = replies(&cat, &exact, None);
    assert_eq!(resolve_dependencies(&mut exact, &cat, &p), 0);
    assert_eq!(exact.dependencies[0].target_name, "auth-service");

    // Normalized-unique: "Auth_Service" -> "auth-service".
    let mut norm = result_with_dep("Auth_Service");
    let p = replies(&cat, &norm, None);
    assert_eq!(resolve_dependencies(&mut norm, &cat, &p), 1);
    assert_eq!(norm.dependencies[0].target_name, "auth-service");

    // Fuzzy-unique: "auth" is contained only by "auth-service".
    let mut fuzzy = result_with_dep("auth");
    let p = replies(&cat, &fuzzy, None);
    assert_eq!(resolve_dependencies(&mut fuzzy, &cat, &p), 1);
    assert_eq!(fuzzy.dependencies[0].target_name, "auth-service");
}

#[test]
fn no_match_is_left_unchanged() {
    let cat = catalog(&[("billing", "application")]);
    let mut result = result_with_dep("totally-unknown");
    let p = replies(&cat, &result, None);
    assert_eq!(resolve_dependencies(&mut result, &cat, &p), 0);
    assert_eq!(result.dependencies[0].target_name, "totally-unknown");
}

#[test]
fn ambiguous_without_provider_is_left_unchanged() {
    let cat = catalog(&[("auth-service", "application"), ("auth-gateway", "service")]);
    let mut result = result_with_dep("auth");
    let p = replies(&cat, &result, None);
    assert_eq!(resolve_dependencies(&mut result, &cat, &p), 0);
    assert_eq!(result.dependencies[0].target_name, "auth");
}

#[test]
fn ambiguous_with_provider_uses_the_shortlist_pick() {
    let cat = catalog(&[("auth-service", "application"), ("auth-gateway", "service")]);
    let mut result = result_with_dep("auth");
    let p = replies(&cat, &result, Some("auth-gateway"));
    assert_eq!(resolve_dependencies(&mut result, &cat, &p), 1);
    assert_eq!(result.dependencies[0].target_name, "auth-gateway");
}

#[test]
fn ambiguous_with_provider_none_reply_leaves_unchanged() {
    let cat = catalog(&[("auth-service", "application"), ("auth-gateway", "service")]);
    let mut result = result_with_dep("auth");
    let p = replies(&cat, &result, Some("NONE"));
    assert_eq!(resolve_dependencies(&mut result, &cat, &p), 0);
    assert_eq!(result.dependencies[0].target_name, "auth");
}

#[test]
fn empty_catalog_changes_nothing() {
    let cat = catalog(&[]);
    assert!(cat.is_empty());
    let mut result = result_with_dep("anything");
    assert_eq!(resolve_dependencies(&mut result, &cat, &vec![Some("x".to_string())]), 0);
    assert_eq!(result.dependencies[0].target_name, "anything");
}

#[test]
fn resolution_outcomes() {
    let cat = catalog(&[("Auth-Service", "application"), ("auth_service", "service"), ("billing", "application")]);
    match cat.resolve("authservice") {
        Resolution::Ambiguous(c) => assert_eq!(c.len(), 2),
        _ => panic!("two entries share the normalised name"),
    }
    assert!(matches!(cat.resolve("billing"), Resolution::Matched(n) if n == "billing"));
    assert!(matches!(cat.resolve("bill"), Resolution::Matched(n) if n == "billing"));
    assert!(matches!(cat.resolve("!!"), Resolution::NoMatch));
    assert!(matches!(cat.resolve("payments"), Resolution::NoMatch));
}

#[test]
fn reply_matching_is_exact_then_case_insensitive() {
    let short = vec![entry("Auth-Gateway", "service"), entry("auth-gateway", "service")];
    assert_eq!(choose_from_reply("  auth-gateway \n", &short), Some("auth-gateway".to_string()));
    assert_eq!(choose_from_reply("AUTH-GATEWAY", &short), Some("Auth-Gateway".to_string()));
    assert_eq!(choose_from_reply("none", &short), None);
    assert_eq!(choose_from_reply("something else", &short), None);
}

#[test]
fn shortlist_is_capped_at_eight() {
    let many: Vec<CatalogEntry> = (0..12).map(|i| entry(&format!("svc-{i}"), "service")).collect();
    let s = shortlist(&many);
    assert_eq!(s.len(), 8);
    assert_eq!(s[7].name, "svc-7");
}

#[test]
fn pick_prompt_lists_candidates() {
    let short = vec![entry("auth-service", "application"), entry("auth-gateway", "service")];
    assert_eq!(
        pick_prompt("auth", &short),
        "An application's code connects to a system it refers to as \"auth\". Which of these known entities is it?\n- auth-service (application)\n- auth-gateway (service)\n\nAnswer:"
    );
}

#[test]
fn only_ambiguous_targets_are_asked_about() {
    let cat = catalog(&[("auth-service", "application"), ("auth-gateway", "service"), ("billing", "application")]);
    let mut result = result_with_dep("auth");
    result.dependencies.push(result_with_dep("billing").dependencies.remove(0));
    let qs = pick_requests(&result, &cat);
    assert_eq!(qs.len(), 2);
    assert_eq!(
        qs[0].as_deref(),
        Some("An application's code connects to a system it refers to as \"auth\". Which of these known entities is it?\n- auth-service (application)\n- auth-gateway (service)\n\nAnswer:")
    );
    assert_eq!(qs[1], None);
    assert!(pick_requests(&result, &catalog(&[])).iter().all(|q| q.is_none()));
}

#[test]
fn a_reply_outside_the_shortlist_leaves_the_target() {
    let cat = catalog(&[("auth-service", "application"), ("auth-gateway", "service"), ("billing", "application")]);
    let mut result = result_with_dep("auth");
    let p = replies(&cat, &result, Some("billing"));
    assert_eq!(resolve_dependencies(&mut result, &cat, &p), 0);
    assert_eq!(result.dependencies[0].target_name, "auth");
}
