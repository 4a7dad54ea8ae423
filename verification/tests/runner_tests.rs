use fhirpath_runner::runners::{
    create_runner, supported_language, adapt_command, RunnerKind, PythonRunner, GoRunner,
    JavaScriptRunner, BaseRunner,
};
use fhirpath_runner::invoker::{validate_command, finish_invocation, CommandEvent, InvokeError};
use fhirpath_runner::utils::{find_virtual_env_python, result_filename, result_file_pattern};

#[test]
fn empty_command_is_invalid() {
    assert_eq!(validate_command(&Vec::new()), Err(InvokeError::InvalidCommand));
    assert!(validate_command(&vec!["ls".to_string()]).is_ok());
}

#[test]
fn timeout_event_yields_timeout_error() {
    // the invoker's decision for a command (such as ["sleep","10"] under a
    // one-second budget) whose deadline elapsed first; the caller has
    // already terminated the child when it hands this event in
    let r = finish_invocation(CommandEvent::TimedOut);
    assert_eq!(r.err(), Some(InvokeError::Timeout));
}

#[test]
fn completion_keeps_captured_output_whatever_the_exit_status() {
    let r = finish_invocation(CommandEvent::Completed(false, "out".to_string(), "err".to_string()))
        .expect("completion is not an invoker failure");
    assert!(!r.exit_ok);
    assert_eq!(r.stdout, "out");
    assert_eq!(r.stderr, "err");
}

#[test]
fn spawn_failure_carries_its_message() {
    let r = finish_invocation(CommandEvent::Failed("no such program".to_string()));
    assert_eq!(r.err(), Some(InvokeError::SpawnFailure("no such program".to_string())));
}

#[test]
fn runner_registry_covers_the_supported_identities() {
    assert!(supported_language("python"));
    assert!(supported_language("clojure"));
    assert!(!supported_language("rust"));
    assert!(!supported_language("fortran"));
    let r = create_runner("go");
    assert_eq!(r.name(), "Go");
    assert!(matches!(r, RunnerKind::Go(_)));
    assert_eq!(create_runner("csharp").name(), "C#");
}

#[test]
fn fallback_scan_counts_pass_and_fail_lines() {
    let runner = PythonRunner::new();
    let out = "case one passed\ncase two FAILED\nsome chatter\nError: broke\n";
    let r = runner.parse_test_output(out);
    assert_eq!(r.language, "python");
    assert!(r.error.is_none());
    assert_eq!(r.summary.total, 3);
    assert_eq!(r.summary.passed, 1);
    assert_eq!(r.summary.failed, 2);
    assert_eq!(r.summary.errors, 0);
}

#[test]
fn fallback_scan_is_case_insensitive_for_folded_tokens() {
    let runner = JavaScriptRunner::new();
    let r = runner.parse_test_output("Everything PASSED here\n");
    assert_eq!(r.summary.passed, 1);
    assert_eq!(r.summary.total, 1);
}

#[test]
fn go_scan_matches_raw_tokens_only() {
    let runner = GoRunner::new();
    // "ok" and "PASS" count; lowercase "pass" alone does not
    let r = runner.parse_test_output("ok  \tpkg 0.5s\nPASS\npass quietly\nFAIL other\n");
    assert_eq!(r.summary.passed, 2);
    assert_eq!(r.summary.total, 3);
}

#[test]
fn scan_of_silent_output_counts_nothing() {
    let runner = PythonRunner::new();
    let r = runner.parse_test_output("");
    assert_eq!(r.summary.total, 0);
    assert_eq!(r.summary.passed, 0);
}

#[test]
fn error_results_keep_counts_consistent() {
    let base = BaseRunner::new("Python".to_string());
    let t = base.create_error_test_result("python", "setup exploded");
    assert_eq!(t.language, "python");
    assert_eq!(t.error.as_deref(), Some("setup exploded"));
    assert_eq!(t.summary.total, 1);
    assert_eq!(t.summary.errors, 1);
    assert_eq!(t.summary.passed + t.summary.failed + t.summary.errors, t.summary.total);
    let b = base.create_error_benchmark_result("python", "timed out");
    assert_eq!(b.error.as_deref(), Some("timed out"));
    assert_eq!(b.summary.total_cases, 0);
}

#[test]
fn failed_test_command_becomes_an_error_result() {
    let runner = create_runner("java");
    let r = runner.finish_test_run(false, "compile error", None, "");
    assert_eq!(r.language, "java");
    assert_eq!(r.error.as_deref(), Some("compile error"));
    assert_eq!(r.summary.errors, 1);
}

#[test]
fn structured_result_wins_over_fallback() {
    let runner = create_runner("python");
    let mut structured = fhirpath_runner::results::TestResult::new(
        "python".to_string(),
        fhirpath_runner::utils::get_system_info(),
    );
    structured.summary.total = 9;
    structured.summary.passed = 9;
    let r = runner.finish_test_run(true, "", Some(structured), "1 passed\n");
    assert_eq!(r.summary.total, 9);
}

#[test]
fn missing_structured_result_falls_back_to_scan() {
    let runner = create_runner("python");
    let r = runner.finish_test_run(true, "", None, "one passed\ntwo failed\n");
    assert_eq!(r.summary.total, 2);
    assert_eq!(r.summary.passed, 1);
}

#[test]
fn missing_benchmark_file_is_recorded_as_error() {
    let runner = create_runner("go");
    let r = runner.finish_benchmark_run(true, "", None);
    assert_eq!(r.error.as_deref(), Some("No results file generated"));
    assert_eq!(r.language, "go");
}

#[test]
fn python_command_first_word_is_adapted() {
    let command = vec!["python".to_string(), "test_runner.py".to_string(), "test".to_string()];
    let adapted = adapt_command(&command, "python", "/impl/venv/bin/python");
    assert_eq!(
        adapted,
        vec![
            "/impl/venv/bin/python".to_string(),
            "test_runner.py".to_string(),
            "test".to_string(),
        ]
    );
    let other = vec!["cargo".to_string(), "build".to_string()];
    assert_eq!(adapt_command(&other, "python", "/x"), other);
}

#[test]
fn virtual_env_interpreter_is_preferred() {
    let existing = vec![
        "/impl/.venv/bin/python".to_string(),
        "/impl/env/bin/python".to_string(),
    ];
    let found = find_virtual_env_python("/impl", &existing);
    assert_eq!(found.as_deref(), Some("/impl/.venv/bin/python"));
    let runner = PythonRunner::new();
    assert_eq!(runner.get_python_executable("/impl", &existing), "/impl/.venv/bin/python");
    assert_eq!(runner.get_python_executable("/impl", &Vec::new()), "python");
}

#[test]
fn result_file_names_follow_the_convention() {
    assert_eq!(result_filename("go", "test_results"), "go_test_results.json");
    assert_eq!(result_file_pattern("go", "benchmark_results"), "go_benchmark_results_*.json");
}
