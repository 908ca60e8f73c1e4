use std::collections::hash_map::DefaultHasher;
use std::hash::{Hash, Hasher};

use pg_kinetic_proxy::clock::Duration;
use pg_kinetic_proxy::config::{InlinePolicyActionConfig, InlinePolicyConfig, PolicyConfig};
use pg_kinetic_proxy::health::BackendRole;
use pg_kinetic_proxy::modes::{PolicyHookPoint, PolicyMode};
use pg_kinetic_proxy::policy::{
    fit_context_fields, preview_policy, redact_value, FreshnessStatus, PolicyAction,
    PolicyContextBuilder, PolicyContextField, PolicyEvalInput, PolicyGeneration,
    PolicyPluginAction, PolicyPluginError, PolicyPluginHostLimits, PolicyPluginInput,
    PolicyPluginOutput, PolicyRuntime, PolicyStore, TransactionAccessMode,
};

fn input() -> PolicyEvalInput {
    PolicyEvalInput {
        database: "db".to_string(),
        user: "alice".to_string(),
        application_name: None,
        route: Some("main".to_string()),
        shard: None,
        backend_role: BackendRole::Primary,
        query_class: "read".to_string(),
        transaction_mode: TransactionAccessMode::ReadOnly,
        freshness_state: FreshnessStatus::Satisfied,
        routing_decision: None,
        shard_route_decision: None,
        password: Some("hunter2".to_string()),
        bind_values: vec!["4111".to_string()],
        tls_certificate_body: Some("CERT".to_string()),
        raw_sql_text: Some("select 4111".to_string()),
        secrets: vec!["token".to_string()],
    }
}

fn rule(action: InlinePolicyActionConfig) -> PolicyConfig {
    let mut config = PolicyConfig::default();
    config.inline_rules = vec![InlinePolicyConfig {
        policy_id: "p1".to_string(),
        hook_point: PolicyHookPoint::BeforeRouting,
        action,
    }];
    config
}

#[test]
fn contexts_hide_what_is_secret() {
    let output = PolicyContextBuilder::new(8_192).build(&input());
    for secret in ["hunter2", "4111", "CERT", "select", "token"] {
        assert!(!output.rendered_context.contains(secret), "{}", secret);
    }
    assert!(output.rendered_context.contains("alice"));
    assert_eq!(output.rendered_context_bytes, output.rendered_context.len());
    assert!(!output.truncated);
    assert_eq!(output.context.render(), output.rendered_context);
    assert!(!redact_value("hunter2").contains("hunter2"));
}

#[test]
fn contexts_are_cut_to_their_size() {
    let output = PolicyContextBuilder::new(40).build(&input());
    assert!(output.truncated);
    assert!(output.rendered_context_bytes <= 40);
    let fields = || vec![PolicyContextField::public("a", "12345")];
    let (kept, cut) = fit_context_fields(fields(), 7);
    assert_eq!((kept.len(), cut), (1, false));
    let (kept, cut) = fit_context_fields(fields(), 0);
    assert!(kept.is_empty() && cut);
}

#[test]
fn previews_say_what_rules_ask_for() {
    let allowed = preview_policy(&PolicyConfig::default(), false, &input()).expect("preview");
    assert!(matches!(allowed.action, PolicyAction::Allow));
    assert_eq!(allowed.audit_event.policy_id, "policy-preview");
    assert_eq!(allowed.audit_event.outcome, "dry_run");
    let denied = preview_policy(
        &rule(InlinePolicyActionConfig::Deny { reason: "no".to_string() }),
        false,
        &input(),
    )
    .expect("preview");
    assert!(matches!(denied.action, PolicyAction::Deny));
    assert_eq!(denied.deny_reason.as_deref(), Some("no"));
    assert_eq!(denied.audit_event.policy_id, "p1");
    let error = preview_policy(
        &rule(InlinePolicyActionConfig::Wasm { module_file: "m.wasm".to_string() }),
        false,
        &input(),
    )
    .err()
    .expect("wasm");
    assert_eq!(error.code, "invalid_policy_configuration");
}

#[test]
fn reloads_take_effect_only_where_they_are_sound() {
    let mut store = PolicyStore::new(PolicyConfig::default());
    assert_eq!(store.generation().as_u64(), PolicyGeneration::initial().as_u64());
    let there = vec!["main".to_string()];
    let mut next = rule(InlinePolicyActionConfig::RouteOverride { target_id: "main".to_string() });
    next.policy_mode = PolicyMode::Enforce;
    let result = store.reload(next.clone(), &there, false, &vec![]);
    assert!(result.success);
    let generation = store.generation().as_u64();
    assert_eq!(generation, PolicyGeneration::initial().as_u64() + 1);
    assert_eq!(store.policy_mode(), PolicyMode::Enforce);
    let result = store.reload(next, &vec![], false, &vec![]);
    assert!(!result.success);
    assert_eq!(
        result.error_code.expect("code").as_str(),
        "route_reference_missing"
    );
    assert_eq!(store.generation().as_u64(), generation);
}

#[test]
fn plugins_are_kept_within_limits() {
    let limits = PolicyPluginHostLimits::new(10, 5, Duration::from_millis(5));
    let asked = |bytes: usize, files: bool| PolicyPluginInput {
        rendered_len_bytes: bytes,
        requested_filesystem_access: files,
        requested_network_access: false,
        requested_secret_access: false,
    };
    assert!(limits.validate_input(&asked(10, false)).is_ok());
    assert!(matches!(
        limits.validate_input(&asked(11, false)),
        Err(PolicyPluginError::InputTooLarge { bytes: 11, limit: 10 })
    ));
    assert!(matches!(
        limits.validate_input(&asked(1, true)),
        Err(PolicyPluginError::FilesystemAccessDenied)
    ));
    let answer = PolicyPluginOutput {
        policy_id: "p".to_string(),
        hook_point: PolicyHookPoint::BeforeRouting,
        action: PolicyPluginAction::Allow,
        rendered_len_bytes: 6,
    };
    assert!(matches!(
        limits.validate_output(&answer),
        Err(PolicyPluginError::OutputTooLarge { bytes: 6, limit: 5 })
    ));
    assert!(limits.validate_evaluation_duration(Duration::from_millis(5)).is_ok());
    assert!(matches!(
        limits.validate_evaluation_duration(Duration::from_millis(6)),
        Err(PolicyPluginError::EvaluationTimeout { .. })
    ));
}

#[test]
fn modules_are_read_only_where_they_are_allowed() {
    let config = rule(InlinePolicyActionConfig::Wasm { module_file: "m.wasm".to_string() });
    let runtime = PolicyRuntime::from_config(&config);
    assert!(runtime.wasm_module(&config.inline_rules[0]).is_err());
    let runtime = runtime.with_policy_wasm_enabled(true);
    assert!(matches!(
        runtime.wasm_module(&config.inline_rules[0]),
        Ok(module) if module == "m.wasm"
    ));
}

#[test]
fn decisions_are_sampled_by_everything_but_their_context() {
    let mut event = preview_policy(&PolicyConfig::default(), false, &input())
        .expect("preview")
        .audit_event;
    event.route = Some("main".to_string());
    let mut hasher = DefaultHasher::new();
    event.kind.as_str().hash(&mut hasher);
    event.policy_id.as_str().hash(&mut hasher);
    event.policy_version.hash(&mut hasher);
    event.hook_point.as_str().hash(&mut hasher);
    event.action.as_str().hash(&mut hasher);
    event.outcome.as_str().hash(&mut hasher);
    "".hash(&mut hasher);
    "main".hash(&mut hasher);
    "".hash(&mut hasher);
    "".hash(&mut hasher);
    assert_eq!(event.sample_hash(), hasher.finish());
    assert!(event.reason.is_none() && event.target_role.is_none());
}
