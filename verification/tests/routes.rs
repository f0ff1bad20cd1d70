use pmp_iq::analyzer::{
    after_attempt, after_reply, stays_inside, analysis_request, build_system_prompt, build_prompt, context_from, incremental_focus, retain_existing_files, signal_paths, user_prompt,
    AnalysisError, AnalysisInput, AttemptStep,
};
use pmp_iq::analysis::{AnalysisConfig, AnalysisResult, AppInfo, ComponentInfo, Metadata, UseCaseInfo};
use pmp_iq::keyed::KeyedList;
use pmp_iq::prompts::PromptConfig;
use pmp_iq::routes::{
    agent_profile, ask_question, check_required, RequiredFields, follow_up_message, hint_change, new_task_fields, HintChange,
    build_list_query, check_approval, default_true, login_provider, parse_i64, prompt_view, remediation_prompt,
    validate_entity, AuthProvider, GitHubAuthMode,
};
use pmp_iq::sql::{app_detail_sql, apps_list_sql, ex_members_sql, libs_list_sql, linked_detail_sql, linked_list_sql};
use pmp_iq::linked::linked;
use pmp_iq::web::PageContext;

#[test]
fn list_query_from_params() {
    let mut params = KeyedList::new();
    params.insert("search".into(), "pay".to_string());
    params.insert("page".into(), "3".to_string());
    params.insert("page_size".into(), "abc".to_string());
    params.insert("app_type".into(), "api".to_string());
    params.insert("primary_language".into(), String::new());
    params.insert("ecosystem".into(), "cargo".to_string());
    let q = build_list_query("applications", &params);
    assert_eq!(q.search, "pay");
    assert_eq!(q.page, 3);
    assert_eq!(q.page_size, 25);
    assert_eq!(q.filters.len(), 1);
    assert_eq!(q.filters.get("app_type").map(|s| s.as_str()), Some("api"));
    let mut p2 = KeyedList::new();
    p2.insert("page".into(), "-4".to_string());
    p2.insert("page_size".into(), "+500".to_string());
    let q2 = build_list_query("libraries", &p2);
    assert_eq!(q2.page, 1);
    assert_eq!(q2.page_size, 200);
    assert_eq!(q2.search, "");
}

#[test]
fn parses_i64_like_std() {
    assert_eq!(parse_i64("42"), Some(42));
    assert_eq!(parse_i64("-42"), Some(-42));
    assert_eq!(parse_i64("+7"), Some(7));
    assert_eq!(parse_i64("9223372036854775807"), Some(i64::MAX));
    assert_eq!(parse_i64("-9223372036854775808"), Some(i64::MIN));
    assert_eq!(parse_i64("9223372036854775808"), None);
    assert_eq!(parse_i64("-"), None);
    assert_eq!(parse_i64(""), None);
    assert_eq!(parse_i64(" 1"), None);
}

#[test]
fn entity_validation() {
    assert!(validate_entity("applications").is_ok());
    assert_eq!(validate_entity("widgets").unwrap_err(), "unknown entity 'widgets'");
}

#[test]
fn prompt_view_describes_a_section() {
    let mut cfg = PromptConfig::default();
    cfg.set("base", "custom {{json_schema}}".into(), false);
    let v = prompt_view(&cfg, "base", &vec!["base".to_string()]);
    assert_eq!(v.template, "custom {{json_schema}}");
    assert!(!v.enabled);
    assert!(v.overridden);
    assert_eq!(v.required_placeholders, vec!["{{json_schema}}".to_string()]);
    assert_eq!(v.default_template, PromptConfig::default_template("base").unwrap());
    let missing = prompt_view(&cfg, "nope", &vec![]);
    assert_eq!(missing.template, "");
    assert!(missing.enabled);
    assert!(!missing.overridden);
    assert_eq!(missing.default_template, "");
    assert!(default_true());
}

#[test]
fn login_form_provider() {
    assert_eq!(login_provider(AuthProvider::Github, Some(GitHubAuthMode::PersonalToken)), ("github", "personal_token"));
    assert_eq!(login_provider(AuthProvider::Github, None), ("github", "oauth_app"));
    assert_eq!(login_provider(AuthProvider::Admin, Some(GitHubAuthMode::OauthApp)), ("admin", ""));
}

#[test]
fn approval_checks() {
    assert_eq!(check_approval("proposed", Some(9)), Ok(9));
    assert_eq!(check_approval("running", Some(9)).unwrap_err(), "remediation is not pending approval");
    assert_eq!(check_approval("proposed", None).unwrap_err(), "remediation has no application");
    let rules = vec![(1u128, "fix coverage".to_string()), (2u128, "upgrade deps".to_string())];
    assert_eq!(remediation_prompt(&rules, Some(2)), "upgrade deps");
    assert_eq!(remediation_prompt(&rules, Some(3)), "Apply the remediation.");
    assert_eq!(remediation_prompt(&rules, None), "Apply the remediation.");
}

#[test]
fn list_and_detail_statements() {
    let apps = apps_list_sql(" AND a.app_type=$4");
    assert!(apps.starts_with("SELECT to_jsonb(t) FROM (SELECT a.id, a.name, a.app_type"));
    assert!(apps.ends_with("'%'||$1||'%') AND a.app_type=$4 ORDER BY a.name LIMIT $2 OFFSET $3) t"));
    let libs = libs_list_sql("");
    assert!(libs.ends_with("FROM libraries l WHERE ($1 = '' OR l.name ILIKE '%'||$1||'%') ORDER BY l.name LIMIT $2 OFFSET $3) t"));
    let tools = linked("tools").unwrap();
    let list = linked_list_sql(&tools, "");
    assert!(list.contains("FROM application_tools ai WHERE ai.tool_id=i.id"));
    assert!(list.contains("FROM tools i WHERE"));
    let detail = linked_detail_sql(&tools);
    assert!(detail.contains("FROM application_tools ai JOIN applications a ON a.id=ai.application_id WHERE ai.tool_id=i.id"));
    assert!(detail.ends_with("FROM tools i WHERE i.id=$1) t"));
    let app = app_detail_sql();
    assert!(app.contains("AS \"cloud-providers\""));
    assert!(app.contains("FROM application_external_deps j JOIN external_deps x ON x.id=j.external_dep_id"));
    assert!(app.ends_with("FROM applications a WHERE a.id=$1) t"));
}

#[test]
fn page_context_carries_user_and_nav() {
    let p = PageContext::new(Some("admin".into()), "home");
    assert_eq!(p.current_user.as_deref(), Some("admin"));
    assert_eq!(p.active_nav, "home");
}

#[test]
fn analyzer_prompts() {
    assert_eq!(
        build_prompt("org/api", "  \n"),
        "Repository 'org/api' has no recognised manifest files. Infer what you can from the name and return the JSON schema."
    );
    assert_eq!(build_prompt("org/api", "ctx"), "Repository 'org/api'. Files:\nctx");
    let focus = incremental_focus(&vec!["a.rs".into(), "b.rs".into()]);
    assert!(focus.starts_with("\n\nINCREMENTAL UPDATE: only these files changed since the last analysis: [a.rs, b.rs]. "));
    let input = AnalysisInput {
        checkout_path: "/repo".into(),
        repo_full_name: "org/api".into(),
        config: AnalysisConfig::default(),
        hints: "\nHINTS".into(),
        changed_files: Some(vec!["a.rs".into()]),
    };
    let p = user_prompt(&input, "ctx");
    assert!(p.starts_with("Repository 'org/api'. Files:\nctx\nHINTS\n\nINCREMENTAL UPDATE"));
}

#[test]
fn manifest_context() {
    let paths = signal_paths("/repo//");
    assert_eq!(paths.len(), 17);
    assert_eq!(paths[0], "/repo/Cargo.toml");
    assert_eq!(paths[16], "/repo/README.md");
    let mut contents: Vec<Option<String>> = vec![None; 17];
    contents[0] = Some("[package]".into());
    contents[1] = Some("x".repeat(8005));
    let ctx = context_from(&contents);
    assert!(ctx.starts_with("\n===== Cargo.toml =====\n[package]\n\n===== package.json =====\n"));
    assert_eq!(ctx.len(), "\n===== Cargo.toml =====\n[package]\n".len() + "\n===== package.json =====\n".len() + 8000 + 1);
}

#[test]
fn retries_then_fails_on_invalid_json() {
    assert!(matches!(after_attempt(0, Err("bad".into())), AttemptStep::Retry(m) if m == "bad"));
    match after_attempt(1, Err("still bad".into())) {
        AttemptStep::Fail(e) => assert_eq!(e.message(), "could not produce valid analysis: still bad"),
        _ => panic!("no retries left"),
    }
    assert_eq!(AnalysisError::Ai("down".into()).message(), "ai error: down");
}

#[test]
fn drops_nonexistent_files_and_runs_in_checkout() {
    let mut r = AnalysisResult {
        application: AppInfo {
            name: "api".into(),
            app_type: Some("api".into()),
            description: None,
            primary_language: None,
            metadata: Metadata::Other("null".into()),
        },
        languages: vec![],
        libraries: vec![],
        infrastructure: vec![],
        tools: vec![],
        cloud_providers: vec![],
        services: vec![],
        platforms: vec![],
        external: vec![],
        dependencies: vec![],
        users: vec![],
        groups: vec![],
        access: vec![],
        components: vec![ComponentInfo {
            name: "C".into(),
            kind: String::new(),
            description: None,
            metadata: Metadata::Other("null".into()),
            observability_signals: vec![],
            files: vec!["src/real.rs".into(), "src/ghost.rs".into()],
        }],
        use_cases: vec![UseCaseInfo {
            name: "U".into(),
            description: None,
            metadata: Metadata::Other("null".into()),
            components: vec![],
            diagrams: vec![],
            files: vec!["src/real.rs".into(), "missing.rs".into()],
        }],
    };
    retain_existing_files(&mut r, &vec!["src/real.rs".to_string()]);
    assert_eq!(r.components[0].files, vec!["src/real.rs".to_string()]);
    assert_eq!(r.use_cases[0].files, vec!["src/real.rs".to_string()]);
}

#[test]
fn ex_members_update_for_no_current_members_flips_all() {
    assert_eq!(
        ex_members_sql(0),
        "UPDATE access_grants SET association_type='ex_member' WHERE application_id=$1 AND association_type='member'"
    );
}

#[test]
fn ex_members_update_keeps_current_members() {
    assert_eq!(
        ex_members_sql(3),
        "UPDATE access_grants SET association_type='ex_member' WHERE application_id=$1 AND association_type='member' AND principal_id NOT IN ($2,$3,$4)"
    );
}

#[test]
fn questions_and_messages_are_trimmed_and_required() {
    assert_eq!(ask_question("  why? \n"), Ok("why?".to_string()));
    assert_eq!(ask_question(" \t "), Err("question is required".to_string()));
    assert_eq!(new_task_fields(" Fix ", " do it "), Ok(("Fix".to_string(), "do it".to_string())));
    assert_eq!(new_task_fields("Fix", "   "), Err("title and message are required".to_string()));
    assert_eq!(new_task_fields("", "do it"), Err("title and message are required".to_string()));
    assert_eq!(follow_up_message(" more "), Ok("more".to_string()));
    assert_eq!(follow_up_message("\u{3000}"), Err("message is required".to_string()));
}

#[test]
fn blank_hint_clears_and_other_hints_are_set() {
    match hint_change(" library ", " serde ", "  ") {
        Ok(HintChange::Delete { entity_type, entity_key }) => {
            assert_eq!(entity_type, "library");
            assert_eq!(entity_key, "serde");
        }
        _ => panic!("expected a delete"),
    }
    match hint_change("component", "", " pinned ") {
        Ok(HintChange::Upsert { entity_type, entity_key, hint }) => {
            assert_eq!(entity_type, "component");
            assert_eq!(entity_key, "");
            assert_eq!(hint, "pinned");
        }
        _ => panic!("expected an upsert"),
    }
    assert!(matches!(hint_change(" ", "k", "h"), Err(m) if m == "entity_type is required"));
}

#[test]
fn agent_profile_prefers_the_first_enabled() {
    assert_eq!(agent_profile(&[(1, false), (2, true), (3, true)]), Ok(2));
    assert_eq!(agent_profile(&[(1, false), (2, false)]), Ok(1));
    assert_eq!(agent_profile(&[]), Err("no AI agent profile configured".to_string()));
}

#[test]
fn required_fields_are_checked_per_request() {
    assert_eq!(check_required(RequiredFields::Rule, &["Low coverage", "add tests"]), Ok(()));
    assert_eq!(
        check_required(RequiredFields::Rule, &["Low coverage", "  "]),
        Err("name and prompt are required".to_string())
    );
    assert_eq!(
        check_required(RequiredFields::Radar, &["tools", "", "adopt"]),
        Err("quadrant, name and ring are required".to_string())
    );
    assert_eq!(check_required(RequiredFields::TeamName, &[" "]), Err("team name is required".to_string()));
    assert_eq!(check_required(RequiredFields::TestPrompt, &["\n"]), Err("prompt is required".to_string()));
    assert_eq!(check_required(RequiredFields::TestPrompt, &["hi"]), Ok(()));
}

#[test]
fn model_failures_end_the_analysis_and_requests_run_in_the_checkout() {
    match after_reply(0, Err("timeout".into())) {
        AttemptStep::Fail(e) => assert_eq!(e.message(), "ai error: timeout"),
        _ => panic!("a failed call is not retried"),
    }
    assert!(matches!(after_reply(0, Ok(Err("bad".into()))), AttemptStep::Retry(m) if m == "bad"));
    match after_reply(1, Ok(Err("bad".into()))) {
        AttemptStep::Fail(e) => assert_eq!(e.message(), "could not produce valid analysis: bad"),
        _ => panic!("no retries left"),
    }
    let input = AnalysisInput {
        checkout_path: "/repo".into(),
        repo_full_name: "org/api".into(),
        config: AnalysisConfig::default(),
        hints: String::new(),
        changed_files: None,
    };
    let req = analysis_request(&input, "");
    assert_eq!(req.working_dir, "/repo");
    assert_eq!(req.prompt, user_prompt(&input, ""));
    assert_eq!(req.system, build_system_prompt(&input.config));
}

#[test]
fn only_paths_inside_the_checkout_are_looked_up() {
    assert!(stays_inside("src/main.rs"));
    assert!(stays_inside("./a/..b/c"));
    assert!(stays_inside(""));
    assert!(!stays_inside("/etc/passwd"));
    assert!(!stays_inside("../secret"));
    assert!(!stays_inside("a/../../b"));
    assert!(!stays_inside("a/.."));
}
