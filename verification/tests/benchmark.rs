use pg_kinetic_proxy::admin::tables::{benchmarks_table, performance_table};
use pg_kinetic_proxy::benchmark::{
    benchmark_target_endpoint, benchmark_target_is_required, check_stored_report,
    compare_benchmark_reports, default_benchmark_driver, default_duration_ms, git_commit_of,
    load_benchmark_scenario, parse_comparison, proc_stat_cpu_ticks, proc_status_memory,
    process_metric_status, resident_memory_bytes, result_place, validate_benchmark_scenario,
    validate_benchmark_targets_with, BenchmarkComparison, BenchmarkConnectionProfile,
    BenchmarkExpectedMetricSet, BenchmarkMetric, BenchmarkReportOutcome, BenchmarkResult,
    BenchmarkRunReport, BenchmarkScenario, BenchmarkScenarioDocument, BenchmarkTargetDocument,
    BenchmarkTargetOutcome, BenchmarkTargetReportOutcome, BenchmarkValidationError,
    BenchmarkVocabulary, MeasuredValue, MetricOutcomes, PerformanceBudgetOutcome,
    ProcessMetricCollectionStatus, ScenarioChecks, StoredBenchmarkReport, StoredBenchmarkResult,
    TargetCheck,
};
use pg_kinetic_proxy::snapshot::{BenchmarkRunSnapshot, PerformanceSnapshot};

#[test]
fn proc_stat_cpu_ticks_include_user_and_system_time() {
    let stat = "123 (pg kinetic) S 1 2 3 4 5 6 7 8 9 10 200 50 0 0";

    assert_eq!(proc_stat_cpu_ticks(stat), Some(250));
}

#[test]
fn cpu_ticks_are_read_behind_the_last_bracket() {
    let stat = "1 (odd ) name) S 1 2 3 4 5 6 7 8 9 10 3 4 0 0";
    assert_eq!(proc_stat_cpu_ticks(stat), Some(7));
    assert_eq!(proc_stat_cpu_ticks("1 name S 1 2"), None);
    assert_eq!(proc_stat_cpu_ticks("1 (x) S 1 2 3 4 5 6 7 8 9 10 11"), None);
    assert_eq!(
        proc_stat_cpu_ticks("1 (x) S 1 2 3 4 5 6 7 8 9 10 18446744073709551615 1"),
        None
    );
}

#[test]
fn resident_memory_kibibytes_convert_to_bytes() {
    assert_eq!(resident_memory_bytes(4_096), Some(4_194_304));
    assert_eq!(resident_memory_bytes(u64::MAX), None);
}

#[test]
fn resident_memory_is_found_among_the_lines() {
    assert_eq!(proc_status_memory("Name: x\nVmRSS:\t  4096 kB\nThreads: 1\n"), Some(4_096));
    assert_eq!(proc_status_memory("VmRSS: none\nVmRSS: 7 kB\n"), Some(7));
    assert_eq!(proc_status_memory("Name: x\n"), None);
}

#[test]
fn what_is_known_of_the_process_is_complete_or_not() {
    assert_eq!(process_metric_status(true, true, true), ProcessMetricCollectionStatus::Complete);
    assert_eq!(process_metric_status(true, false, true), ProcessMetricCollectionStatus::Partial);
    assert_eq!(
        process_metric_status(false, false, false),
        ProcessMetricCollectionStatus::Unavailable
    );
}

fn vocabulary() -> BenchmarkVocabulary {
    BenchmarkVocabulary {
        drivers: vec!["pgbench".to_string()],
        workloads: vec!["simple".to_string(), "mixed".to_string()],
        default_workload: "simple".to_string(),
        default_connections: BenchmarkConnectionProfile { concurrency: 1, connection_count: 1 },
        default_expected_metrics: BenchmarkExpectedMetricSet {
            latency: true,
            throughput: true,
            cpu: false,
            memory: false,
            error_rate: true,
        },
    }
}

fn document() -> BenchmarkScenarioDocument {
    BenchmarkScenarioDocument {
        name: "smoke".to_string(),
        driver: default_benchmark_driver(),
        duration_ms: default_duration_ms(),
        workload: String::new(),
        warmup: None,
        warmup_ms: None,
        target_matrix: Some(vec![
            BenchmarkTargetDocument {
                label: "direct".to_string(),
                comparison: "direct-postgresql".to_string(),
                dsn: "postgres://localhost:5432/db".to_string(),
            },
            BenchmarkTargetDocument {
                label: "bouncer".to_string(),
                comparison: "pgbouncer".to_string(),
                dsn: "postgres://localhost:6432/db".to_string(),
            },
        ]),
        connections: None,
        features: None,
        expected_metrics: None,
    }
}

fn checks() -> ScenarioChecks {
    let target = |name: &str| TargetCheck {
        refusal: None,
        redacted_dsn: "postgres://redacted".to_string(),
        metric_label: name.to_string(),
    };
    ScenarioChecks {
        targets: vec![target("direct"), target("bouncer")],
        connections: None,
        expected_metrics: None,
        warmup: None,
        matrix: None,
        scenario: None,
    }
}

fn scenario() -> BenchmarkScenario {
    load_benchmark_scenario(document(), "smoke".to_string(), &vocabulary(), &checks())
        .expect("scenario")
}

#[test]
fn scenarios_take_defaults() {
    let scenario = scenario();
    assert_eq!(scenario.driver, "pgbench");
    assert_eq!(scenario.workload, "simple");
    assert_eq!(scenario.duration_ms, 60_000);
    assert_eq!(scenario.warmup_ms, 5_000);
    assert_eq!(scenario.targets.len(), 2);
    assert_eq!(scenario.targets[1].comparison, BenchmarkComparison::PgBouncer);
    let mut other = document();
    other.warmup_ms = Some(7);
    let loaded =
        load_benchmark_scenario(other.clone(), String::new(), &vocabulary(), &checks()).unwrap();
    assert_eq!(loaded.warmup_ms, 7);
    other.warmup = Some(9);
    let loaded =
        load_benchmark_scenario(other, String::new(), &vocabulary(), &checks()).unwrap();
    assert_eq!(loaded.warmup_ms, 9);
}

#[test]
fn scenarios_are_refused_for_the_first_wrong_part() {
    let load = |document: BenchmarkScenarioDocument, checks: ScenarioChecks| {
        load_benchmark_scenario(document, String::new(), &vocabulary(), &checks).unwrap_err()
    };
    let mut wrong = document();
    wrong.driver = "sysbench".to_string();
    wrong.workload = "odd".to_string();
    assert_eq!(
        load(wrong, checks()),
        BenchmarkValidationError::UnsupportedDriverLabel { label: "sysbench".to_string() }
    );
    let mut wrong = document();
    wrong.workload = "odd".to_string();
    assert_eq!(
        load(wrong, checks()),
        BenchmarkValidationError::UnsupportedWorkloadLabel { label: "odd".to_string() }
    );
    let mut wrong = document();
    wrong.target_matrix = None;
    assert_eq!(load(wrong, checks()), BenchmarkValidationError::MissingTargetMatrix);
    let mut wrong = document();
    wrong.target_matrix.as_mut().unwrap()[1].comparison = "odyssey".to_string();
    assert_eq!(
        load(wrong, checks()),
        BenchmarkValidationError::UnsupportedComparisonLabel { label: "odyssey".to_string() }
    );
    let mut found = checks();
    found.matrix = Some("no matrix".to_string());
    found.scenario = Some("no scenario".to_string());
    assert_eq!(
        load(document(), found),
        BenchmarkValidationError::InvalidPart { message: "no matrix".to_string() }
    );
    let mut found = checks();
    found.connections = Some("no connections".to_string());
    assert!(load_benchmark_scenario(document(), String::new(), &vocabulary(), &found).is_ok());
    assert!(validate_benchmark_scenario(
        document(),
        String::new(),
        &vocabulary(),
        &checks(),
        &Some("odd".to_string())
    )
    .is_err());
}

#[test]
fn comparisons_are_found_by_name() {
    for comparison in [
        BenchmarkComparison::DirectPostgreSQL,
        BenchmarkComparison::PgBouncer,
        BenchmarkComparison::PgDog,
        BenchmarkComparison::PgKinetic,
    ] {
        assert_eq!(parse_comparison(comparison.as_str()), Some(comparison));
    }
    assert_eq!(parse_comparison("PgDog"), None);
    assert!(benchmark_target_is_required(BenchmarkComparison::PgKinetic));
    assert!(!benchmark_target_is_required(BenchmarkComparison::PgDog));
}

#[test]
fn required_targets_decide_whether_a_benchmark_runs() {
    let scenario = scenario();
    let all = validate_benchmark_targets_with(&scenario, &vec![true, true]);
    assert_eq!(all.outcome(), BenchmarkTargetReportOutcome::Ready);
    let some = validate_benchmark_targets_with(&scenario, &vec![true, false]);
    assert_eq!(some.outcome(), BenchmarkTargetReportOutcome::Partial);
    assert!(some.can_run());
    assert_eq!(some.targets()[1].outcome(), BenchmarkTargetOutcome::SkippedOptional);
    assert_eq!(some.targets()[1].dsn(), "postgres://redacted");
    assert_eq!(some.targets()[1].label(), "pgbouncer");
    let none = validate_benchmark_targets_with(&scenario, &vec![false, true]);
    assert_eq!(none.outcome(), BenchmarkTargetReportOutcome::FailedRequired);
    assert!(!none.can_run());
}

#[test]
fn endpoints_are_read_out_of_connection_strings() {
    let found = |dsn: &str| benchmark_target_endpoint(dsn);
    assert_eq!(
        found("postgres://user:p@ss@db.example:5433/app?x=1"),
        Some(("db.example".to_string(), 5433))
    );
    assert_eq!(found("postgres://[::1]:5432/app"), Some(("::1".to_string(), 5432)));
    assert_eq!(found("postgres://host:80"), Some(("host".to_string(), 80)));
    assert_eq!(found("postgres://host"), None);
    assert_eq!(found("postgres://host:99999"), None);
    assert_eq!(found("host:80"), None);
    assert_eq!(found("postgres://::1]:5432"), None);
    assert_eq!(found("postgres://[::1]5432"), None);
}

fn stored(scenario: &str, comparisons: &[&str]) -> StoredBenchmarkReport {
    StoredBenchmarkReport {
        scenario: scenario.to_string(),
        results: comparisons
            .iter()
            .map(|comparison| StoredBenchmarkResult {
                comparison: comparison.to_string(),
                p50_ms: "1.5".to_string(),
                p95_ms: "2.5".to_string(),
                p99_ms: "3.5".to_string(),
                throughput_qps: "1000.0".to_string(),
                error_rate: "0.0".to_string(),
            })
            .collect(),
    }
}

fn outcomes(p99: PerformanceBudgetOutcome) -> MetricOutcomes {
    MetricOutcomes {
        latency_p50: PerformanceBudgetOutcome::Passed,
        latency_p95: PerformanceBudgetOutcome::Passed,
        latency_p99: p99,
        throughput: PerformanceBudgetOutcome::Passed,
        error_rate: PerformanceBudgetOutcome::Passed,
    }
}

#[test]
fn reports_of_other_scenarios_or_targets_are_not_compared() {
    let base = stored("a", &["pgdog", "pgbouncer"]);
    let other = stored("b", &["pgdog", "pgbouncer"]);
    let judged = vec![outcomes(PerformanceBudgetOutcome::Passed); 2];
    let found = compare_benchmark_reports("x", "y", &base, &other, &judged).expect("compared");
    assert_eq!(found.outcome(), BenchmarkReportOutcome::Failed);
    assert_eq!(
        found.error.as_deref(),
        Some("incompatible benchmark reports: scenario names differ (baseline 'a', current 'b')")
    );
    let other = stored("a", &["pgdog", "pg-kinetic"]);
    let found = compare_benchmark_reports("x", "y", &base, &other, &judged).expect("compared");
    assert_eq!(
        found.error.as_deref(),
        Some(
            "incompatible benchmark reports: target sets differ (baseline [\"pgbouncer\", \
             \"pgdog\"], current [\"pg-kinetic\", \"pgdog\"])"
        )
    );
}

#[test]
fn reports_are_compared_metric_by_metric() {
    let base = stored("a", &["pgdog", "pgbouncer"]);
    let current = stored("a", &["pgbouncer", "pgdog"]);
    let passed = outcomes(PerformanceBudgetOutcome::Passed);
    let found = compare_benchmark_reports("x", "y", &base, &current, &vec![passed, passed])
        .expect("compared");
    assert_eq!(found.outcome(), BenchmarkReportOutcome::Passed);
    assert_eq!(found.entries.len(), 10);
    assert_eq!(found.entries[3].current_value, "1000.0");
    assert_eq!(found.entries[3].baseline_value.as_deref(), Some("1000.0"));
    let warned = outcomes(PerformanceBudgetOutcome::Warning);
    let found = compare_benchmark_reports("x", "y", &base, &current, &vec![passed, warned])
        .expect("compared");
    assert_eq!(found.outcome(), BenchmarkReportOutcome::Warning);
    let failed = outcomes(PerformanceBudgetOutcome::Failed);
    let found = compare_benchmark_reports("x", "y", &base, &current, &vec![failed, warned])
        .expect("compared");
    assert_eq!(found.outcome(), BenchmarkReportOutcome::Failed);
    let odd = stored("a", &["odd"]);
    let error = compare_benchmark_reports("x", "y", &odd, &odd, &vec![passed]).unwrap_err();
    assert_eq!(error.message, "current report contains unsupported target comparison 'odd'");
    assert!(error.text().starts_with("benchmark report error: "));
}

#[test]
fn comparisons_are_written_as_json() {
    let base = stored("a \"quoted\"", &["pgdog"]);
    let passed = outcomes(PerformanceBudgetOutcome::Passed);
    let found = compare_benchmark_reports("x", "y", &base, &base, &vec![passed]).expect("compared");
    let text = found.render_json();
    let value: serde_json::Value = serde_json::from_str(&text).expect("json");
    assert_eq!(value["ok"], serde_json::Value::Bool(true));
    assert_eq!(value["results"][0]["scenario"], "a \"quoted\"");
    assert_eq!(value["results"][0]["baseline_value"], serde_json::Value::from(1.5));
    assert_eq!(value["error"], serde_json::Value::Null);
    assert_eq!(value.to_string(), text);
}

fn measured(exact: &str, shown: &str) -> MeasuredValue {
    MeasuredValue { exact: exact.to_string(), shown: shown.to_string() }
}

fn result() -> BenchmarkResult {
    let scenario = scenario();
    BenchmarkResult {
        scenario: scenario.name.clone(),
        target: scenario.targets[0].clone(),
        driver: scenario.driver.clone(),
        duration_ms: 60_000,
        metrics: BenchmarkMetric {
            p50_ms: measured("4.0", "4.000"),
            p95_ms: measured("8.0", "8.000"),
            p99_ms: measured("12.0", "12.000"),
            throughput_qps: measured("1000.0", "1000.000"),
            cpu_label: "x86_64".to_string(),
            memory_label: "resident_set_bytes".to_string(),
            error_rate: measured("0.0", "0.000"),
        },
    }
}

#[test]
fn runs_are_written_as_json() {
    let report = BenchmarkRunReport {
        scenario: scenario(),
        results: vec![result()],
        process_status: ProcessMetricCollectionStatus::Partial,
        process_sample: "null".to_string(),
        operating_system: "linux".to_string(),
        architecture: "x86_64".to_string(),
        dry_run: true,
        git_commit: None,
    };
    let text = report.render_json();
    let value: serde_json::Value = serde_json::from_str(&text).expect("json");
    assert_eq!(value["dry_run"], serde_json::Value::Bool(true));
    assert_eq!(value["results"][0]["metrics"]["p99_ms"], serde_json::Value::from(12.0));
    assert!(text.contains("\"p50_ms\":4.0,"));
    assert!(text.contains("\"throughput_qps\":1000.0}"));
    assert_eq!(value["results"][0]["target"]["dsn"], "postgres://redacted");
    assert_eq!(value["environment"]["git"]["commit"], serde_json::Value::Null);
    assert_eq!(value["process_metrics"]["status"], "partial");
    assert_eq!(value.to_string(), text);
}

#[test]
fn stored_reports_and_commits_are_checked() {
    assert!(check_stored_report(&stored("a", &["pgdog"]), "p").is_ok());
    assert_eq!(
        check_stored_report(&stored("  ", &["pgdog"]), "p").unwrap_err().message,
        "p does not contain a scenario and at least one result"
    );
    assert!(check_stored_report(&stored("a", &[]), "p").is_err());
    assert_eq!(git_commit_of(true, " abc \n"), Some("abc".to_string()));
    assert_eq!(git_commit_of(true, " \n"), None);
    assert_eq!(git_commit_of(false, "abc"), None);
}

#[test]
fn runs_are_shown_with_three_digits() {
    let performance = PerformanceSnapshot {
        budgets: vec![],
        regressions: vec![],
        comparisons: vec![],
        profile_status: "off".to_string(),
        process_status: "complete".to_string(),
        process_cpu_seconds: Some(measured("1.23456", "1.235")),
        process_resident_memory_bytes: None,
        cpu_per_query: None,
        memory_per_client_bytes: None,
        protocol_buffer_copies: 0,
        pool_checkout_lock_wait_ms: None,
        prepared_cache_hits: 0,
        prepared_cache_misses: 0,
        observability_hot_path_allocations: 0,
        idle_clients: 0,
    };
    let run = BenchmarkRunSnapshot { scenario: scenario(), results: vec![result()] };
    let table = benchmarks_table(&vec![run], &performance);
    assert_eq!(table.rows.len(), 1);
    assert_eq!(
        table.rows[0].values[5..10].to_vec(),
        vec!["4.000", "8.000", "12.000", "1000.000", "0.000"]
    );
    let table = performance_table(&performance);
    assert_eq!(
        table.rows[0].values[8..12].to_vec(),
        vec!["1.235", "0.000", "0.000", "0.000"]
    );
}

#[test]
fn results_are_held_against_the_first_of_their_target() {
    let base = stored("a", &["pgdog", "pgbouncer", "pgdog"]);
    assert_eq!(result_place(&base.results, "pgdog"), Some(0));
    assert_eq!(result_place(&base.results, "pgbouncer"), Some(1));
    assert_eq!(result_place(&base.results, "pg-kinetic"), None);
    let mut first = stored("a", &["pgdog", "pgdog"]);
    first.results[1].p50_ms = "9.5".to_string();
    let passed = outcomes(PerformanceBudgetOutcome::Passed);
    let found = compare_benchmark_reports("x", "y", &first, &first, &vec![passed, passed])
        .expect("compared");
    assert_eq!(found.entries[5].current_value, "9.5");
    assert_eq!(found.entries[5].baseline_value.as_deref(), Some("1.5"));
}
