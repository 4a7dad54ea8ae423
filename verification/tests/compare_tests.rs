use fhirpath_runner::compare::{ComparisonReport, ComparisonSummary};
use fhirpath_runner::results::{TestResult, BenchmarkResult};
use fhirpath_runner::utils::SystemInfo;

fn host() -> SystemInfo {
    SystemInfo {
        os: "linux".to_string(),
        arch: "x86_64".to_string(),
        cpu_count: 4,
        total_memory: 1024,
        available_memory: 512,
    }
}

fn test_result(language: &str, passed: usize, total: usize) -> TestResult {
    let mut r = TestResult::new(language.to_string(), host());
    r.summary.total = total;
    r.summary.passed = passed;
    r.summary.failed = total - passed;
    r
}

fn benchmark_result(language: &str, avg_milli: u64) -> BenchmarkResult {
    let mut r = BenchmarkResult::new(language.to_string(), host());
    r.summary.total_cases = 1;
    r.summary.avg_time_per_case_ms = avg_milli;
    r
}

#[test]
fn empty_report_has_no_best_implementations() {
    let report = ComparisonReport::new(Vec::new(), Vec::new());
    assert_eq!(report.summary.languages_tested, 0);
    assert_eq!(report.summary.total_tests, 0);
    assert_eq!(report.summary.total_benchmarks, 0);
    assert!(report.summary.fastest_implementation.is_none());
    assert!(report.summary.most_compliant_implementation.is_none());
}

#[test]
fn fastest_is_first_implementation_achieving_the_minimum() {
    // averages 12.5 ms, 8.0 ms, 8.0 ms
    let bs = vec![
        benchmark_result("A", 12500),
        benchmark_result("B", 8000),
        benchmark_result("C", 8000),
    ];
    let s = ComparisonSummary::calculate(&Vec::new(), &bs);
    assert_eq!(s.fastest_implementation.as_deref(), Some("B"));
}

#[test]
fn most_compliant_has_highest_pass_ratio() {
    // ratios 0.9, 0.9, 0.95
    let ts = vec![
        test_result("A", 9, 10),
        test_result("B", 9, 10),
        test_result("C", 19, 20),
    ];
    let s = ComparisonSummary::calculate(&ts, &Vec::new());
    assert_eq!(s.most_compliant_implementation.as_deref(), Some("C"));
}

#[test]
fn most_compliant_tie_goes_to_the_later_entry() {
    let ts = vec![test_result("A", 9, 10), test_result("B", 18, 20)];
    let s = ComparisonSummary::calculate(&ts, &Vec::new());
    assert_eq!(s.most_compliant_implementation.as_deref(), Some("B"));
}

#[test]
fn zero_total_counts_as_ratio_zero() {
    let ts = vec![test_result("A", 0, 0), test_result("B", 1, 2)];
    let s = ComparisonSummary::calculate(&ts, &Vec::new());
    assert_eq!(s.most_compliant_implementation.as_deref(), Some("B"));
}

#[test]
fn totals_and_language_count_are_derived() {
    let ts = vec![test_result("A", 3, 5), test_result("B", 2, 2)];
    let bs = vec![benchmark_result("A", 100), benchmark_result("B", 50), benchmark_result(
        "C", 70,
    )];
    let s = ComparisonSummary::calculate(&ts, &bs);
    assert_eq!(s.languages_tested, 3);
    assert_eq!(s.total_tests, 7);
    assert_eq!(s.total_benchmarks, 3);
    assert_eq!(s.fastest_implementation.as_deref(), Some("B"));
}

#[test]
fn building_the_report_twice_derives_identical_summaries() {
    let ts = vec![test_result("A", 3, 5), test_result("B", 2, 2)];
    let bs = vec![benchmark_result("A", 100), benchmark_result("B", 50)];
    let first = ComparisonReport::new(ts.clone(), bs.clone());
    let second = ComparisonReport::new(ts, bs);
    assert_eq!(first.summary.languages_tested, second.summary.languages_tested);
    assert_eq!(first.summary.total_tests, second.summary.total_tests);
    assert_eq!(first.summary.total_benchmarks, second.summary.total_benchmarks);
    assert_eq!(first.summary.fastest_implementation, second.summary.fastest_implementation);
    assert_eq!(
        first.summary.most_compliant_implementation,
        second.summary.most_compliant_implementation
    );
}

#[test]
fn report_keeps_both_result_lists() {
    let ts = vec![test_result("A", 1, 1)];
    let bs = vec![benchmark_result("B", 10)];
    let report = ComparisonReport::new(ts, bs);
    assert_eq!(report.test_results.len(), 1);
    assert_eq!(report.benchmark_results.len(), 1);
    assert_eq!(report.test_results[0].language, "A");
    assert_eq!(report.benchmark_results[0].language, "B");
}
