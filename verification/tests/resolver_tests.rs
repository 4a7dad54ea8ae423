use fhirpath_runner::resolver::{
    test_result_from_json, benchmark_result_from_json, resolve_test_result,
    resolve_benchmark_result, match_result_files,
};

fn test_result_text(summary: &str) -> String {
    let mut s = String::new();
    s.push_str("{\"id\":\"abc\",\"language\":\"python\",\"timestamp\":\"2024-01-01T00:00:00Z\",");
    s.push_str("\"execution_time_ms\":12,");
    s.push_str(
        "\"timing\":{\"setup_time_ms\":1,\"execution_time_ms\":10,\"teardown_time_ms\":1,\"total_time_ms\":12},",
    );
    s.push_str(
        "\"system_info\":{\"os\":\"linux\",\"arch\":\"x86_64\",\"cpu_count\":4,\"total_memory\":8,\"available_memory\":4},",
    );
    s.push_str(
        "\"tests\":[{\"name\":\"t1\",\"file\":\"f\",\"passed\":true,\"execution_time_ms\":5,\"expected\":true},",
    );
    s.push_str(
        "{\"name\":\"t2\",\"file\":\"f\",\"passed\":false,\"execution_time_ms\":7,\"expected\":1,\"error\":\"bad\"}],",
    );
    s.push_str("\"summary\":");
    s.push_str(summary);
    s.push_str(",\"metadata\":{}}");
    s
}

#[test]
fn well_formed_test_result_is_loaded() {
    let text = test_result_text(
        "{\"total\":2,\"passed\":1,\"failed\":0,\"errors\":1,\"execution_time_ms\":12}",
    );
    let r = test_result_from_json(&text).expect("conforming document");
    assert_eq!(r.language, "python");
    assert_eq!(r.id, "abc");
    assert_eq!(r.summary.total, 2);
    assert_eq!(r.summary.passed, 1);
    assert_eq!(r.summary.errors, 1);
    assert_eq!(r.tests.len(), 2);
    assert_eq!(r.tests[0].name, "t1");
    assert_eq!(r.tests[0].expected, "true");
    assert_eq!(r.tests[1].error.as_deref(), Some("bad"));
    assert_eq!(r.timing.total_time_ms, 12);
    assert_eq!(r.system_info.cpu_count, 4);
}

#[test]
fn inconsistent_summary_counts_are_rejected() {
    let text = test_result_text(
        "{\"total\":5,\"passed\":1,\"failed\":0,\"errors\":1,\"execution_time_ms\":12}",
    );
    assert!(test_result_from_json(&text).is_none());
}

#[test]
fn malformed_json_is_rejected() {
    assert!(test_result_from_json("{ this is not json").is_none());
    assert!(test_result_from_json("").is_none());
}

#[test]
fn missing_required_field_is_rejected() {
    // no "summary" field at all
    let mut text = String::new();
    text.push_str("{\"id\":\"abc\",\"language\":\"go\",\"timestamp\":\"t\",");
    text.push_str("\"execution_time_ms\":1,");
    text.push_str(
        "\"timing\":{\"setup_time_ms\":0,\"execution_time_ms\":0,\"teardown_time_ms\":0,\"total_time_ms\":0},",
    );
    text.push_str(
        "\"system_info\":{\"os\":\"l\",\"arch\":\"a\",\"cpu_count\":1,\"total_memory\":1,\"available_memory\":1},",
    );
    text.push_str("\"tests\":[],\"metadata\":{}}");
    assert!(test_result_from_json(&text).is_none());
}

#[test]
fn resolver_returns_first_conforming_candidate() {
    let good = test_result_text(
        "{\"total\":2,\"passed\":1,\"failed\":0,\"errors\":1,\"execution_time_ms\":12}",
    );
    let candidates = vec!["not json at all".to_string(), good, "{}".to_string()];
    let r = resolve_test_result(&candidates).expect("second candidate conforms");
    assert_eq!(r.summary.total, 2);
}

#[test]
fn resolver_with_only_malformed_candidates_is_not_found() {
    let candidates = vec!["{ broken".to_string(), "{}".to_string()];
    assert!(resolve_test_result(&candidates).is_none());
    assert!(resolve_benchmark_result(&candidates).is_none());
}

#[test]
fn benchmark_result_recomputes_derived_statistics() {
    let mut text = String::new();
    text.push_str("{\"id\":\"x\",\"language\":\"go\",\"timestamp\":\"t\",");
    text.push_str(
        "\"timing\":{\"setup_time_ms\":0,\"execution_time_ms\":0,\"teardown_time_ms\":0,\"total_time_ms\":0},",
    );
    text.push_str(
        "\"system_info\":{\"os\":\"l\",\"arch\":\"a\",\"cpu_count\":1,\"total_memory\":1,\"available_memory\":1},",
    );
    text.push_str("\"benchmarks\":[{\"name\":\"b1\",\"file\":\"f\",\"iterations\":3,");
    text.push_str("\"total_time_ms\":6,\"avg_time_ms\":9.9,\"median_time_ms\":9.9,");
    text.push_str("\"min_time_ms\":0,\"max_time_ms\":0,\"std_dev_ms\":9.9,");
    text.push_str("\"times\":[1,2,3]}],");
    text.push_str("\"summary\":{},\"metadata\":{}}");
    let r = benchmark_result_from_json(&text).expect("conforming document");
    assert_eq!(r.language, "go");
    assert_eq!(r.benchmarks.len(), 1);
    // the samples are the source of truth: the file's derived fields are
    // recomputed from times
    assert_eq!(r.benchmarks[0].avg_time_ms, 2000);
    assert_eq!(r.benchmarks[0].median_time_ms, 2000);
    assert_eq!(r.benchmarks[0].min_time_ms, 1);
    assert_eq!(r.benchmarks[0].max_time_ms, 3);
    assert_eq!(r.summary.total_cases, 1);
    assert_eq!(r.summary.total_iterations, 3);
    assert_eq!(r.summary.total_time_ms, 6);
    assert_eq!(r.summary.avg_time_per_case_ms, 6000);
}

#[test]
fn benchmark_with_fractional_sample_is_rejected() {
    let mut text = String::new();
    text.push_str("{\"id\":\"x\",\"language\":\"go\",\"timestamp\":\"t\",");
    text.push_str(
        "\"timing\":{\"setup_time_ms\":0,\"execution_time_ms\":0,\"teardown_time_ms\":0,\"total_time_ms\":0},",
    );
    text.push_str(
        "\"system_info\":{\"os\":\"l\",\"arch\":\"a\",\"cpu_count\":1,\"total_memory\":1,\"available_memory\":1},",
    );
    text.push_str("\"benchmarks\":[{\"name\":\"b1\",\"file\":\"f\",\"iterations\":1,");
    text.push_str("\"total_time_ms\":1,\"avg_time_ms\":1,\"median_time_ms\":1,");
    text.push_str("\"min_time_ms\":1,\"max_time_ms\":1,\"std_dev_ms\":0,");
    text.push_str("\"times\":[1.5]}],");
    text.push_str("\"summary\":{},\"metadata\":{}}");
    assert!(benchmark_result_from_json(&text).is_none());
}

#[test]
fn result_files_are_selected_by_convention() {
    let listing = vec![
        "python_test_results.json".to_string(),
        "python_test_results_1700000000.json".to_string(),
        "java_test_results.json".to_string(),
        "python_benchmark_results.json".to_string(),
        "notes.txt".to_string(),
    ];
    let picked = match_result_files(&listing, "python", "test_results");
    assert_eq!(
        picked,
        vec![
            "python_test_results.json".to_string(),
            "python_test_results_1700000000.json".to_string(),
        ]
    );
    let picked_java = match_result_files(&listing, "java", "test_results");
    assert_eq!(picked_java, vec!["java_test_results.json".to_string()]);
    let none = match_result_files(&listing, "go", "benchmark_results");
    assert!(none.is_empty());
}
