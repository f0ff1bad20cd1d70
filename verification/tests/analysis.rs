use pmp_iq::analysis::{
    extract_json, AccessInfo, AnalysisConfig, AnalysisResult, AppInfo, ComponentInfo, DiagramInfo, KindDef,
    LibraryInfo, LinkedInfo, Metadata, ObservabilitySignalInfo, PropertyDef, UseCaseInfo,
};

fn app(name: &str, app_type: Option<&str>, metadata: Metadata) -> AppInfo {
    AppInfo {
        name: name.into(),
        app_type: app_type.map(|t| t.to_string()),
        description: None,
        primary_language: None,
        metadata,
    }
}

fn result(application: AppInfo) -> AnalysisResult {
    AnalysisResult {
        application,
        languages: vec![],
        libraries: vec![],
        infrastructure: vec![],
        tools: vec![],
        cloud_providers: vec![],
        services: vec![],
        platforms: vec![],
        external: vec![],
        dependencies: vec![],
        users: vec![],
        groups: vec![],
        access: vec![],
        components: vec![],
        use_cases: vec![],
    }
}

fn null() -> Metadata {
    Metadata::Other("null".into())
}

fn object(members: &[(&str, &str)]) -> Metadata {
    Metadata::Object(members.iter().map(|(k, v)| (k.to_string(), v.to_string())).collect())
}

fn linked(name: &str, kind: &str) -> LinkedInfo {
    LinkedInfo { name: name.into(), kind: kind.into(), version: None, usage: None, metadata: null() }
}

fn library(name: &str, ecosystem: &str) -> LibraryInfo {
    LibraryInfo { name: name.into(), ecosystem: ecosystem.into(), version: None, scope: None, metadata: null() }
}

fn signal(name: &str, kind: &str) -> ObservabilitySignalInfo {
    ObservabilitySignalInfo { name: name.into(), kind: kind.into(), description: None, metadata: null() }
}

fn component(name: &str, kind: &str, signals: Vec<ObservabilitySignalInfo>) -> ComponentInfo {
    ComponentInfo {
        name: name.into(),
        kind: kind.into(),
        description: None,
        metadata: null(),
        observability_signals: signals,
        files: vec![],
    }
}

fn diagram(name: &str, kind: &str, content: &str) -> DiagramInfo {
    DiagramInfo { name: name.into(), kind: kind.into(), description: None, content: content.into(), metadata: null() }
}

fn kind(kind_id: &str) -> KindDef {
    KindDef { kind_id: kind_id.into(), name: kind_id.into(), description: String::new() }
}

fn decoded(text: &str) -> serde_json::Value {
    serde_json::from_str(&extract_json(text)).unwrap()
}

#[test]
fn parses_fenced_json() {
    let text = "```json\n{\"application\":{\"name\":\"api\"},\"languages\":[{\"name\":\"Rust\"}]}\n```";
    let v = decoded(text);
    assert_eq!(v["application"]["name"], "api");
    assert_eq!(v["languages"].as_array().unwrap().len(), 1);
}

#[test]
fn parses_with_surrounding_prose() {
    let text = "Here is the analysis:\n{\"application\":{\"name\":\"web\"}}\nThanks!";
    let v = decoded(text);
    assert_eq!(v["application"]["name"], "web");
}

#[test]
fn extract_json_isolates_the_object() {
    assert_eq!(extract_json("```\n{\"a\":1}\n```"), "{\"a\":1}");
    assert_eq!(extract_json("  no braces  "), "no braces");
    assert_eq!(extract_json("} before {"), "} before {");
    assert_eq!(extract_json("x {\"a\":{\"b\":2}} y"), "{\"a\":{\"b\":2}}");
}

#[test]
fn extract_json_takes_the_first_object_only() {
    assert_eq!(extract_json(r#"{"a":1} then {"b":2}"#), r#"{"a":1}"#);
    assert_eq!(extract_json(r#"Here: {"s":"} {","t":"\"}"} and {"x":0}"#), r#"{"s":"} {","t":"\"}"}"#);
    assert_eq!(extract_json("```json\n{\"a\":{}}\n```\n"), "{\"a\":{}}");
    assert_eq!(extract_json(r#"{"a": {"b": 1} }} trailing"#), r#"{"a": {"b": 1} }"#);
    assert_eq!(extract_json(r#"{"open": 1 } x"#), r#"{"open": 1 }"#);
    assert_eq!(extract_json(r#"{"never": {"closed": 1} x"#), r#"{"never": {"closed": 1}"#);
}

#[test]
fn apply_config_enforces_subentity_kinds() {
    let mut r = result(app("a", None, null()));
    r.components = vec![
        component("Ctl", "controller", vec![signal("reqs", "metric"), signal("bad", "nope")]),
        component("Weird", "made-up", vec![]),
    ];
    r.use_cases = vec![UseCaseInfo {
        name: "Register".into(),
        description: None,
        metadata: null(),
        components: vec!["Ctl".into()],
        diagrams: vec![diagram("Flow", "flowchart", "graph TD; A-->B"), diagram("Bad", "nope", "x")],
        files: vec![],
    }];
    let mut cfg = AnalysisConfig::default();
    cfg.kinds.insert("components".into(), vec![kind("controller")]);
    cfg.kinds.insert("observability-signals".into(), vec![kind("metric")]);
    cfg.kinds.insert("diagrams".into(), vec![kind("flowchart")]);
    r.apply_config(&cfg);
    assert_eq!(r.components.len(), 1, "disallowed component dropped");
    assert_eq!(r.components[0].name, "Ctl");
    assert_eq!(r.components[0].observability_signals.len(), 1, "disallowed signal dropped");
    assert_eq!(r.use_cases[0].diagrams.len(), 1, "disallowed diagram dropped");
    assert_eq!(r.use_cases[0].diagrams[0].kind, "flowchart");
}

#[test]
fn apply_config_drops_disallowed_kinds() {
    let mut r = result(app("a", Some("weird"), null()));
    r.libraries = vec![library("x", "weird"), library("y", "cargo")];
    r.services = vec![linked("s", "weird")];
    r.tools = vec![linked("t", "build")];
    let mut cfg = AnalysisConfig::default();
    for (entity, value) in [("applications", "api"), ("libraries", "cargo"), ("services", "payments"), ("tools", "build")] {
        cfg.kinds.insert(entity.into(), vec![kind(value)]);
    }
    r.apply_config(&cfg);
    // Invalid application app_type is cleared; the application is kept.
    assert_eq!(r.application.app_type, None);
    // Disallowed collection entities are dropped, allowed ones kept.
    assert_eq!(r.libraries.len(), 1);
    assert_eq!(r.libraries[0].ecosystem, "cargo");
    assert!(r.services.is_empty(), "disallowed service dropped");
    assert_eq!(r.tools.len(), 1, "allowed tool kept");
}

#[test]
fn apply_config_strips_unconfigured_metadata_keys() {
    let mut r = result(app("a", None, object(&[("framework", "\"axum\""), ("secret", "\"x\"")])));
    let mut cfg = AnalysisConfig::default();
    cfg.properties.insert(
        "applications".into(),
        vec![PropertyDef {
            prop_id: "framework".into(),
            name: "Framework".into(),
            description: String::new(),
            data_type: "string".into(),
        }],
    );
    r.apply_config(&cfg);
    match &r.application.metadata {
        Metadata::Object(members) => {
            assert_eq!(members, &vec![("framework".to_string(), "\"axum\"".to_string())]);
            assert!(!members.iter().any(|(k, _)| k == "secret"), "unconfigured key stripped");
        }
        Metadata::Other(_) => panic!("metadata should stay an object"),
    }
}

#[test]
fn apply_config_leaves_unconfigured_types_untouched() {
    let mut r = result(app("a", None, object(&[("k", "\"v\"")])));
    r.services = vec![linked("s", "weird")];
    r.apply_config(&AnalysisConfig::default());
    assert_eq!(r.services[0].kind, "weird");
    match &r.application.metadata {
        Metadata::Object(members) => assert_eq!(members, &vec![("k".to_string(), "\"v\"".to_string())]),
        Metadata::Other(_) => panic!("metadata should stay an object"),
    }
}

#[test]
fn apply_config_keeps_allowed_app_type_and_non_object_metadata() {
    let mut r = result(app("a", Some("api"), Metadata::Other("[1,2]".into())));
    let mut cfg = AnalysisConfig::default();
    cfg.kinds.insert("applications".into(), vec![kind("api")]);
    cfg.properties.insert(
        "applications".into(),
        vec![PropertyDef { prop_id: "x".into(), name: "X".into(), description: String::new(), data_type: "string".into() }],
    );
    r.apply_config(&cfg);
    assert_eq!(r.application.app_type.as_deref(), Some("api"));
    assert!(matches!(&r.application.metadata, Metadata::Other(t) if t == "[1,2]"));
}

#[test]
fn rejects_empty_name() {
    let r = result(app("", None, null()));
    let out = AnalysisResult::from_decoded(Ok(r));
    assert!(out.is_err());
    assert_eq!(out.err().unwrap(), "application.name is required");
}

#[test]
fn rejects_invalid_principal_type() {
    let mut r = result(app("a", None, null()));
    r.access = vec![AccessInfo {
        principal_type: "robot".into(),
        principal_name: "x".into(),
        access_level: "read".into(),
    }];
    let out = AnalysisResult::from_decoded(Ok(r));
    assert!(out.is_err());
    assert_eq!(out.err().unwrap(), "invalid principal_type 'robot'");
}

#[test]
fn invalid_json_errors() {
    let err = serde_json::from_str::<serde_json::Value>(&extract_json("not json")).unwrap_err();
    let out = AnalysisResult::from_decoded(Err(err.to_string()));
    assert!(out.is_err());
    assert!(out.err().unwrap().starts_with("invalid analysis JSON: "));
}

#[test]
fn valid_result_is_accepted() {
    let mut r = result(app("api", None, null()));
    r.access = vec![AccessInfo { principal_type: "group".into(), principal_name: "devs".into(), access_level: "write".into() }];
    let out = AnalysisResult::from_decoded(Ok(r)).ok().unwrap();
    assert_eq!(out.application.name, "api");
    assert!(out.linked_items("services").unwrap().is_empty());
    assert!(out.linked_items("widgets").is_none());
}
