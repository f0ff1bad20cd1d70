use pmp_iq::analysis::{AnalysisConfig, KindDef, PropertyDef};
use pmp_iq::analyzer::build_system_prompt;
use pmp_iq::prompts::{all_sections, compose_system_prompt, required_placeholders, validate_section, PromptConfig};

fn config_with_vocab() -> AnalysisConfig {
    let mut cfg = AnalysisConfig::default();
    cfg.kinds.insert(
        "services".into(),
        vec![KindDef { kind_id: "payments".into(), name: "Payments".into(), description: String::new() }],
    );
    cfg.properties.insert(
        "applications".into(),
        vec![PropertyDef {
            prop_id: "framework".into(),
            name: "F".into(),
            description: String::new(),
            data_type: "string".into(),
        }],
    );
    cfg
}

#[test]
fn composes_base_sections_schema_and_vocabulary() {
    let cfg = config_with_vocab();
    let prompt = compose_system_prompt(&cfg.prompts, &cfg);
    assert!(prompt.contains("You are a software platform analyst"));
    assert!(prompt.contains("\"application\":{\"name\":string")); // schema injected
    assert!(prompt.contains("Classify each discovered dependency")); // dependencies section
    assert!(prompt.contains("services kind: [payments]")); // kinds injection
    assert!(prompt.contains("framework (string)")); // properties injection
    assert!(!prompt.contains("{{")); // all placeholders substituted
}

#[test]
fn disabled_section_is_omitted() {
    let mut cfg = config_with_vocab();
    cfg.prompts.set("dependencies", PromptConfig::default_template("dependencies").unwrap().into(), false);
    let prompt = compose_system_prompt(&cfg.prompts, &cfg);
    assert!(!prompt.contains("Classify each discovered dependency"));
    // Schema + vocabulary still injected.
    assert!(prompt.contains("\"application\":{\"name\":string"));
    assert!(prompt.contains("services kind: [payments]"));
}

#[test]
fn edited_section_text_takes_effect() {
    let mut cfg = config_with_vocab();
    cfg.prompts.set("members", "Custom members rule.".into(), true);
    let prompt = compose_system_prompt(&cfg.prompts, &cfg);
    assert!(prompt.contains("Custom members rule."));
    assert!(!prompt.contains("CODEOWNERS"));
}

#[test]
fn validation_requires_placeholder_and_non_empty() {
    assert!(validate_section("base", "no placeholder here").is_err());
    assert!(validate_section("base", "schema {{json_schema}} ok").is_ok());
    assert!(validate_section("members", "any text").is_ok());
    assert!(validate_section("members", "   ").is_err());
}

#[test]
fn metrics_template_respects_enabled() {
    let mut cfg = PromptConfig::default();
    assert!(cfg.metrics_template().contains("quality and security analyst"));
    cfg.set("metrics", "x".into(), false);
    assert_eq!(cfg.metrics_template(), "");
}

#[test]
fn system_prompt_includes_configured_kinds_and_properties() {
    let kind = |id: &str| KindDef { kind_id: id.into(), name: id.into(), description: String::new() };
    let mut cfg = AnalysisConfig::default();
    cfg.kinds.insert("services".into(), vec![kind("payments"), kind("other")]);
    cfg.kinds.insert(
        "applications".into(),
        vec![KindDef { kind_id: "api".into(), name: "API".into(), description: "REST service".into() }],
    );
    cfg.properties.insert(
        "applications".into(),
        vec![PropertyDef {
            prop_id: "framework".into(),
            name: "Framework".into(),
            description: String::new(),
            data_type: "string".into(),
        }],
    );
    let prompt = build_system_prompt(&cfg);
    assert!(prompt.contains("services kind: [payments, other]"), "{prompt}");
    assert!(prompt.contains("application app_type: [api (REST service)]"), "{prompt}");
    assert!(prompt.contains("framework (string)"), "{prompt}");
}

#[test]
fn validation_error_messages_name_the_problem() {
    assert_eq!(validate_section("members", " \t").unwrap_err(), "template must not be empty");
    assert_eq!(
        validate_section("base", "plain").unwrap_err(),
        "template for 'base' must contain the {{json_schema}} placeholder"
    );
}

#[test]
fn sections_and_placeholders_are_listed() {
    let all = all_sections();
    assert_eq!(all.last(), Some(&"metrics"));
    assert!(all.contains(&"base"));
    assert_eq!(required_placeholders("base"), vec!["{{json_schema}}"]);
    assert!(required_placeholders("members").is_empty());
}
