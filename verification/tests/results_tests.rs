use fhirpath_runner::results::{
    ExecutionTiming, TestResult, TestCaseResult, BenchmarkResult, BenchmarkCaseResult,
    ResultMetadata,
};
use fhirpath_runner::utils::SystemInfo;

fn sys() -> SystemInfo {
    SystemInfo {
        os: "linux".to_string(),
        arch: "x86_64".to_string(),
        cpu_count: 4,
        total_memory: 1024,
        available_memory: 512,
    }
}

fn case(name: &str, passed: bool, time: u64, error: Option<&str>) -> TestCaseResult {
    TestCaseResult {
        name: name.to_string(),
        file: "cases.json".to_string(),
        passed,
        execution_time_ms: time,
        expected: "true".to_string(),
        actual: None,
        error: error.map(|e| e.to_string()),
    }
}

#[test]
fn timing_total_is_sum_of_phases() {
    let mut t = ExecutionTiming::new();
    t.setup_time_ms = 10;
    t.execution_time_ms = 25;
    t.teardown_time_ms = 5;
    t.calculate_total();
    assert_eq!(t.total_time_ms, 40);
}

#[test]
fn summary_counts_always_add_up() {
    let mut r = TestResult::new("python".to_string(), sys());
    r.add_test_case(case("a", true, 3, None));
    r.add_test_case(case("b", false, 4, None));
    r.add_test_case(case("c", false, 5, Some("boom")));
    r.add_test_case(case("d", true, 1, None));
    assert_eq!(r.summary.total, 4);
    assert_eq!(r.summary.passed, 2);
    assert_eq!(r.summary.failed, 1);
    assert_eq!(r.summary.errors, 1);
    assert_eq!(r.summary.passed + r.summary.failed + r.summary.errors, r.summary.total);
    assert_eq!(r.summary.execution_time_ms, 13);
    assert_eq!(r.tests.len(), 4);
}

#[test]
fn passed_case_with_error_text_counts_as_passed() {
    let mut r = TestResult::new("go".to_string(), sys());
    r.add_test_case(case("a", true, 1, Some("warning")));
    assert_eq!(r.summary.passed, 1);
    assert_eq!(r.summary.errors, 0);
}

#[test]
fn benchmark_case_derives_statistics_from_samples() {
    let c = BenchmarkCaseResult::from_times(
        "bench".to_string(),
        "cases.json".to_string(),
        3,
        6,
        vec![1, 2, 3],
        0,
        None,
    );
    assert_eq!(c.avg_time_ms, 2000);
    assert_eq!(c.median_time_ms, 2000);
    assert_eq!(c.min_time_ms, 1);
    assert_eq!(c.max_time_ms, 3);
    assert_eq!(c.statistical_summary.min, 1000);
    assert_eq!(c.statistical_summary.max, 3000);
}

#[test]
fn benchmark_summary_average_tracks_totals() {
    let mut r = BenchmarkResult::new("go".to_string(), sys());
    let c1 = BenchmarkCaseResult::from_times(
        "one".to_string(),
        "f".to_string(),
        5,
        25,
        vec![5, 5, 5, 5, 5],
        0,
        None,
    );
    let c2 = BenchmarkCaseResult::from_times(
        "two".to_string(),
        "f".to_string(),
        2,
        50,
        vec![25, 25],
        0,
        None,
    );
    r.add_benchmark_case(c1);
    assert_eq!(r.summary.total_cases, 1);
    assert_eq!(r.summary.avg_time_per_case_ms, 25000);
    r.add_benchmark_case(c2);
    assert_eq!(r.summary.total_cases, 2);
    assert_eq!(r.summary.total_iterations, 7);
    assert_eq!(r.summary.total_time_ms, 75);
    assert_eq!(r.summary.avg_time_per_case_ms, 37500);
}

#[test]
fn metadata_records_versions_and_environment() {
    let m = ResultMetadata::new(
        vec![("PATH".to_string(), "/usr/bin".to_string())],
        vec!["runner".to_string(), "test".to_string()],
    );
    assert_eq!(m.format_version, "2.0");
    assert_eq!(m.environment.len(), 1);
    assert_eq!(m.command_line.len(), 2);
}

#[test]
fn fresh_results_are_empty_and_consistent() {
    let t = TestResult::new("java".to_string(), sys());
    assert_eq!(t.language, "java");
    assert_eq!(t.summary.total, 0);
    assert!(t.error.is_none());
    assert_eq!(t.id.len(), 36);
    let b = BenchmarkResult::new("java".to_string(), sys());
    assert_eq!(b.summary.total_cases, 0);
    assert_eq!(b.summary.avg_time_per_case_ms, 0);
}

#[test]
fn fresh_identifiers_differ_between_results() {
    let a = TestResult::new("a".to_string(), sys());
    let b = TestResult::new("b".to_string(), sys());
    assert_ne!(a.id, b.id);
}
