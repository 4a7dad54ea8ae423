use fhirpath_runner::config::{Config, ConfigError, create_default_implementations};
use fhirpath_runner::orchestrator::{
    Runner, PhaseCommand, ImplPhase, collect_ok, languages_with_successful_setup,
};

#[test]
fn default_implementations_cover_the_seven_languages() {
    let impls = create_default_implementations();
    let keys: Vec<&str> = impls.iter().map(|(k, _)| k.as_str()).collect();
    assert_eq!(keys, vec!["javascript", "python", "java", "csharp", "rust", "go", "clojure"]);
    for (_, c) in &impls {
        assert!(!c.setup_command.is_empty());
        assert!(!c.test_command.is_empty());
        assert!(!c.benchmark_command.is_empty());
    }
}

#[test]
fn implementation_lookup_finds_configured_entries() {
    let config = Config::default();
    let python = config.get_implementation("python").expect("stock entry");
    assert_eq!(python.name, "Python");
    assert_eq!(python.timeout_seconds, 300);
    assert_eq!(python.test_command[0], "python");
    let java = config.get_implementation("java").expect("stock entry");
    assert_eq!(java.timeout_seconds, 600);
    assert!(config.get_implementation("fortran").is_none());
}

#[test]
fn validation_reports_the_first_missing_directory() {
    let config = Config::default();
    assert!(config.validate(true, true).is_ok());
    assert_eq!(config.validate(false, true), Err(ConfigError::MissingImplementationsDir));
    assert_eq!(config.validate(false, false), Err(ConfigError::MissingImplementationsDir));
    assert_eq!(config.validate(true, false), Err(ConfigError::MissingSpecsDir));
}

#[test]
fn overrides_replace_only_the_given_knobs() {
    let c = Config::load_with_env_overrides(Some(8), None);
    assert_eq!(c.runner.parallel_workers, 8);
    assert_eq!(c.runner.benchmark_iterations, 10);
    let d = Config::load_with_env_overrides(None, Some(50));
    assert_eq!(d.runner.parallel_workers, 4);
    assert_eq!(d.runner.benchmark_iterations, 50);
    assert_eq!(d.runner.warmup_iterations, 3);
}

#[test]
fn command_plans_come_from_the_configuration() {
    let runner = Runner::new(Config::default());
    let plan = runner.plan_command("python", PhaseCommand::Tests).expect("configured");
    assert_eq!(plan.language, "python");
    assert_eq!(plan.command, vec!["python", "test_runner.py", "test"]);
    assert_eq!(plan.timeout_seconds, 300);
    assert_eq!(plan.impl_dir, "../implementations/python");
    let setup = runner.plan_command("javascript", PhaseCommand::Setup).expect("configured");
    assert_eq!(setup.command, vec!["npm", "install"]);
    let bench = runner.plan_command("go", PhaseCommand::Benchmarks).expect("configured");
    assert_eq!(bench.command, vec!["go", "run", "main.go", "benchmark"]);
    match runner.plan_command("fortran", PhaseCommand::Tests) {
        Err(ConfigError::UnknownImplementation(l)) => assert_eq!(l, "fortran"),
        other => panic!("expected an unknown-implementation fault, got {:?}", other),
    }
}

#[test]
fn available_implementations_skips_hidden_and_unknown_entries() {
    let runner = Runner::new(Config::default());
    let listing = vec![
        ".git".to_string(),
        "python".to_string(),
        "fortran".to_string(),
        "go".to_string(),
    ];
    assert_eq!(
        runner.get_available_implementations(&listing),
        vec!["go".to_string(), "python".to_string()]
    );
}

#[test]
fn setup_validation_needs_directories_and_one_implementation() {
    let runner = Runner::new(Config::default());
    let some = vec!["python".to_string()];
    assert!(runner.validate_setup(true, true, &some).is_ok());
    assert_eq!(
        runner.validate_setup(true, true, &Vec::new()),
        Err(ConfigError::NoImplementationsFound)
    );
    assert_eq!(
        runner.validate_setup(false, true, &some),
        Err(ConfigError::MissingImplementationsDir)
    );
}

#[test]
fn cleanup_names_both_kinds_and_both_namings() {
    let runner = Runner::new(Config::default());
    let targets = runner.cleanup_old_results("python");
    assert_eq!(
        targets,
        vec![
            "python_test_results_*.json".to_string(),
            "python_test_results.json".to_string(),
            "python_benchmark_results_*.json".to_string(),
            "python_benchmark_results.json".to_string(),
        ]
    );
}

#[test]
fn phase_machine_walks_setup_then_both_phases() {
    let p = ImplPhase::Pending;
    let p = p.begin_setup();
    let p = p.finish_setup(true);
    assert_eq!(p, ImplPhase::Ready);
    let p = p.begin_testing();
    let p = p.finish_testing();
    assert_eq!(p, ImplPhase::Tested);
    let p = p.begin_benchmarking();
    let p = p.finish_benchmarking();
    assert_eq!(p, ImplPhase::Benchmarked);
}

#[test]
fn failed_setup_is_terminal() {
    let p = ImplPhase::Pending.begin_setup().finish_setup(false);
    assert_eq!(p, ImplPhase::SetupFailed);
}

#[test]
fn collection_keeps_successes_in_order_and_drops_failures() {
    let results: Vec<Result<u64, String>> = vec![
        Ok(1),
        Err("unit failed".to_string()),
        Ok(3),
        Err("another".to_string()),
        Ok(5),
    ];
    assert_eq!(collect_ok(results), vec![1, 3, 5]);
}

#[test]
fn only_successfully_set_up_languages_continue() {
    let setup = vec![
        ("python".to_string(), true),
        ("java".to_string(), false),
        ("go".to_string(), true),
    ];
    assert_eq!(
        languages_with_successful_setup(&setup),
        vec!["python".to_string(), "go".to_string()]
    );
}
