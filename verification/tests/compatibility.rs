use pg_kinetic_proxy::clock::Duration;
use pg_kinetic_proxy::compatibility::{
    available_services, completed_case, completed_case_from_output, first_non_empty_line,
    live_enabled, load_compatibility_manifest, parse_outcome, parse_suite_output, plan_suite,
    read_expected_outcomes, record_comparison_failures, suite_artifact, suite_wait, timed_out_case,
    validate_observations, CaseChecks, CompatibilityArtifactPolicy, CompatibilityCaseDocument,
    CompatibilityCaseObservation, CompatibilityCaseReport, CompatibilityCommandBuilder,
    CompatibilityLanguage, CompatibilityOutcome, CompatibilityRunReport,
    CompatibilityRunner, CompatibilitySuite, CompatibilitySuiteSelector, CompatibilityTarget,
    ExpectedCase, ManifestCaseDocument, SuitePlan, SuiteWait,
};

fn language() -> CompatibilityLanguage {
    CompatibilityLanguage { rank: 0, label: "python".to_string() }
}

fn case_document() -> CompatibilityCaseDocument {
    CompatibilityCaseDocument {
        suite_id: "s".to_string(),
        library: "psycopg".to_string(),
        library_version: Some("3".to_string()),
        command: "run tests".to_string(),
        timeout_seconds: 30,
        required_services: vec!["postgres".to_string()],
        artifact_path: Some("out.json".to_string()),
        smoke: true,
        category: Some("drivers".to_string()),
        required: true,
        skip_reason: None,
    }
}

fn documents() -> Vec<ManifestCaseDocument> {
    vec![
        ManifestCaseDocument { category: "other".to_string(), compatibility: None },
        ManifestCaseDocument {
            category: "drivers".to_string(),
            compatibility: Some(case_document()),
        },
    ]
}

fn passed() -> CaseChecks {
    CaseChecks {
        command: None,
        category: None,
        language: Ok(language()),
        target: Ok(CompatibilityTarget::PgKinetic),
        library: None,
        artifact_policy: Ok(CompatibilityArtifactPolicy::Summary),
        suite: None,
    }
}

fn suite() -> CompatibilitySuite {
    let mut loaded =
        load_compatibility_manifest(1, &documents(), &vec![passed(), passed()]).expect("manifest");
    loaded.remove(0).suite
}

#[test]
fn manifests_are_loaded_case_by_case() {
    let loaded =
        load_compatibility_manifest(1, &documents(), &vec![passed(), passed()]).expect("manifest");
    assert_eq!(loaded.len(), 1);
    assert_eq!(loaded[0].suite.id, "s");
    assert_eq!(loaded[0].suite.library.name, "psycopg");
    assert_eq!(loaded[0].category, "drivers");
    let error = load_compatibility_manifest(2, &documents(), &vec![passed(), passed()])
        .err()
        .expect("version");
    assert!(error.text().contains('2'));
    let mut refused = passed();
    refused.target = Err("no such target".to_string());
    let error = load_compatibility_manifest(1, &documents(), &vec![passed(), refused])
        .err()
        .expect("target");
    assert!(error.text().contains("no such target"));
}

#[test]
fn suites_are_selected() {
    let loaded =
        load_compatibility_manifest(1, &documents(), &vec![passed(), passed()]).expect("manifest");
    let selector = |target| CompatibilitySuiteSelector { language: None, target, smoke: false };
    let all = CompatibilityRunner::list(&loaded, &selector(None), &None, &None);
    assert_eq!(all.len(), 1);
    assert!(CompatibilityRunner::check_selection(&all).is_ok());
    let none = CompatibilityRunner::list(
        &loaded,
        &selector(Some(CompatibilityTarget::DirectPostgres)),
        &None,
        &None,
    );
    assert!(none.is_empty());
    assert!(CompatibilityRunner::check_selection(&none).is_err());
    let other =
        CompatibilityRunner::list(&loaded, &selector(None), &Some("jdbc".to_string()), &None);
    assert!(other.is_empty());
    assert_eq!(CompatibilityCommandBuilder::build(&suite()), "run tests PG_KINETIC_COMPAT_TARGET=pg-kinetic");
}

#[test]
fn suites_run_where_their_services_are() {
    let services = available_services(&Some(" postgres , redis,".to_string()));
    assert_eq!(services, vec!["postgres".to_string(), "redis".to_string()]);
    assert!(live_enabled(&Some("1".to_string())));
    assert!(!live_enabled(&None));
    assert!(matches!(plan_suite(&suite(), true, &services), SuitePlan::Run));
    match plan_suite(&suite(), true, &vec![]) {
        SuitePlan::Skip(case) => assert_ne!(case.outcome, CompatibilityOutcome::Passed),
        SuitePlan::Run => panic!("service is missing"),
    }
    let late = timed_out_case(&suite(), 30_000);
    assert_eq!(late.outcome, CompatibilityOutcome::Failed);
    assert_eq!(late.duration_ms, 30_000);
}

#[test]
fn commands_are_waited_for_until_their_time_is_over() {
    let suite = suite();
    let early = Duration::from_secs(30).as_nanos() as u64 - 1;
    assert!(matches!(
        suite_wait(&suite, false, &Duration::from_nanos(early)),
        SuiteWait::Sleep(pause) if pause.as_millis() == 10
    ));
    assert!(matches!(
        suite_wait(&suite, false, &Duration::from_secs(30)),
        SuiteWait::TimedOut
    ));
    assert!(matches!(
        suite_wait(&suite, true, &Duration::from_secs(31)),
        SuiteWait::Finished
    ));
}

#[test]
fn outcomes_are_found_by_name() {
    for outcome in [
        CompatibilityOutcome::Passed,
        CompatibilityOutcome::Failed,
        CompatibilityOutcome::Skipped,
    ] {
        assert_eq!(parse_outcome(outcome.as_str()), Some(outcome));
    }
    assert_eq!(parse_outcome("nothing"), None);
}

const RESULTS: &str = "starting\n{\"results\": [{\"library\": \"psycopg\", \"case\": \"a\", \
    \"outcome\": \"passed\"}, {\"library\": \"other\", \"outcome\": \"blocked\"}, {\"library\": \
    \"psycopg\", \"case\": \"b\", \"outcome\": \"failed\", \"error_summary\": \"boom\"}]}\ndone\n";

#[test]
fn what_suites_print_is_read() {
    assert!(parse_suite_output(&suite(), "no json").is_none());
    let parsed = parse_suite_output(&suite(), RESULTS).expect("report");
    assert_eq!(parsed.outcome, CompatibilityOutcome::Failed);
    assert_eq!(parsed.error_summary.as_deref(), Some("boom"));
    let skipped = parse_suite_output(&suite(), "{\"results\": [{\"outcome\": \"skip\"}]}");
    let skipped = skipped.expect("report");
    assert_eq!(skipped.outcome, CompatibilityOutcome::Skipped);
    assert_eq!(skipped.skip_reason.as_deref(), Some("feature-unsupported"));
    assert_eq!(first_non_empty_line("\n  \n x \ny"), " x ");
    assert_eq!(first_non_empty_line(" \n"), "command exited without a JSON report");
    let case = completed_case_from_output(&suite(), 5, true, RESULTS, "", &Ok(vec![]));
    assert_eq!(case.outcome, CompatibilityOutcome::Failed);
    let crashed = completed_case(&suite(), 5, false, None, "\nboom\n", &Ok(vec![]));
    assert_eq!(crashed.outcome, CompatibilityOutcome::Failed);
}

fn seen(case_id: &str, outcome: &str) -> CompatibilityCaseObservation {
    CompatibilityCaseObservation { case_id: case_id.to_string(), outcome: outcome.to_string() }
}

#[test]
fn observations_are_held_against_what_is_expected() {
    let expected =
        vec![ExpectedCase { case_id: "a".to_string(), outcome: "passed".to_string() }];
    assert_eq!(validate_observations(&vec![seen("a", "passed")], &expected), None);
    assert!(validate_observations(&vec![seen("a", "failed")], &expected).is_some());
    assert_eq!(validate_observations(&vec![seen("b", "skipped")], &expected), None);
    assert_eq!(
        validate_observations(&vec![seen("b", "passed")], &expected),
        Some("suite reported unknown compatibility case 'b'".to_string())
    );
    assert!(read_expected_outcomes("not json", "p").is_err());
}

fn report(target: CompatibilityTarget, outcome: &str) -> CompatibilityCaseReport {
    CompatibilityCaseReport {
        suite_id: "s".to_string(),
        language: language(),
        library: "psycopg".to_string(),
        version: None,
        target,
        outcome: CompatibilityOutcome::Passed,
        duration_ms: 1,
        skip_reason: None,
        error_summary: None,
        observations: vec![seen("a", outcome)],
    }
}

#[test]
fn the_proxy_is_held_against_the_server() {
    let mut same = vec![
        report(CompatibilityTarget::DirectPostgres, "passed"),
        report(CompatibilityTarget::PgKinetic, "passed"),
    ];
    record_comparison_failures(&mut same);
    assert_eq!(same.len(), 2);
    assert!(same.iter().all(|case| case.outcome == CompatibilityOutcome::Passed));
    let mut differing = vec![
        report(CompatibilityTarget::DirectPostgres, "passed"),
        report(CompatibilityTarget::PgKinetic, "failed"),
    ];
    record_comparison_failures(&mut differing);
    let report = CompatibilityRunReport::new(differing);
    assert!(report.has_failures());
    assert_eq!(report.cases().last().expect("case").outcome, CompatibilityOutcome::Failed);
}

#[test]
fn reports_of_suites_are_json() {
    let report = CompatibilityRunReport::new(vec![report(CompatibilityTarget::PgKinetic, "passed")]);
    let text = report.render_json();
    let value: serde_json::Value = serde_json::from_str(&text).expect("json");
    assert_eq!(value.to_string(), text);
    assert!(!report.has_failures());
    assert!(suite_artifact(&suite(), &report.cases()[0]).is_none());
    let mut large = suite();
    large.artifact_policy = CompatibilityArtifactPolicy::Large;
    let (path, contents) = suite_artifact(&large, &report.cases()[0]).expect("artifact");
    assert_eq!(path, "out.json");
    let value: serde_json::Value = serde_json::from_str(&contents).expect("json");
    assert_eq!(value["library"], "psycopg");
}
