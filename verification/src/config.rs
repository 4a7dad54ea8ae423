//! Harness configuration: one command set per implementation, the shared
//! directories, and the runner's tuning knobs. Loading a configuration file
//! and reading environment variables is the caller's outside work; the
//! overrides arrive here as plain values.

use vstd::prelude::*;
use vstd::string::{StringExecFns, StringSliceAdditionalSpecFns};
use crate::strutil::str_eq;

verus! {

/// A configuration-level fault; these stop the run, unlike
/// implementation-level failures, which are recorded in result objects.
#[derive(Debug, Clone, PartialEq, Eq)]
pub enum ConfigError {
    MissingImplementationsDir,
    MissingSpecsDir,
    UnknownImplementation(String),
    NoImplementationsFound,
}

/// One implementation's identity: its display name, its three command
/// templates, its per-command timeout and its environment overrides.
/// Immutable once loaded.
#[derive(Debug, Clone)]
pub struct ImplementationConfig {
    pub name: String,
    pub setup_command: Vec<String>,
    pub test_command: Vec<String>,
    pub benchmark_command: Vec<String>,
    pub timeout_seconds: u64,
    pub env_vars: Vec<(String, String)>,
}

/// The runner's tuning knobs.
#[derive(Debug, Clone)]
pub struct RunnerConfig {
    pub parallel_workers: usize,
    pub benchmark_iterations: usize,
    pub warmup_iterations: usize,
    pub result_format_version: String,
}

/// The whole configuration. Implementations are an ordered list keyed by
/// identity; a lookup returns the first entry with the asked-for key.
#[derive(Debug, Clone)]
pub struct Config {
    pub project_root: String,
    pub implementations_dir: String,
    pub specs_dir: String,
    pub results_dir: String,
    pub implementations: Vec<(String, ImplementationConfig)>,
    pub runner: RunnerConfig,
}

/// The first configuration entry whose key has these UTF-8 bytes.
pub open spec fn find_impl(
    entries: Seq<(String, ImplementationConfig)>,
    lang: Seq<u8>,
) -> Option<ImplementationConfig>
    decreases entries.len(),
{
    if entries.len() == 0 {
        None
    } else if vstd::utf8::encode_utf8(entries[0].0@) == lang {
        Some(entries[0].1)
    } else {
        find_impl(entries.drop_first(), lang)
    }
}

impl Config {
    /// The configuration of one implementation: the first entry under that
    /// key, or `None` when the identity is unknown.
    pub fn get_implementation(&self, language: &str) -> (r: Option<&ImplementationConfig>)
        ensures
            match r {
                Some(c) => find_impl(self.implementations@, language.spec_bytes()) == Some(*c),
                None => find_impl(self.implementations@, language.spec_bytes()) is None,
            },
    {
        let n = self.implementations.len();
        proof {
            assert(self.implementations@.skip(0) =~= self.implementations@);
        }
        for i in 0..n
            invariant
                n == self.implementations@.len(),
                find_impl(self.implementations@, language.spec_bytes()) == find_impl(
                    self.implementations@.skip(i as int),
                    language.spec_bytes(),
                ),
        {
            proof {
                assert(self.implementations@.skip(i as int)[0] == self.implementations@[i as int]);
                assert(self.implementations@.skip(i as int).drop_first()
                    =~= self.implementations@.skip(i + 1));
            }
            if str_eq(self.implementations[i].0.as_str(), language) {
                return Some(&self.implementations[i].1);
            }
        }
        proof {
            assert(self.implementations@.skip(n as int) =~= Seq::<(
                String,
                ImplementationConfig,
            )>::empty());
        }
        None
    }

    /// Checks that the shared directories the run needs are present; the
    /// caller reports whether each exists. The implementations directory is
    /// checked first.
    pub fn validate(&self, implementations_dir_exists: bool, specs_dir_exists: bool) -> (r:
        Result<(), ConfigError>)
        ensures
            r is Ok <==> implementations_dir_exists && specs_dir_exists,
            !implementations_dir_exists ==> r == Result::<(), ConfigError>::Err(
                ConfigError::MissingImplementationsDir,
            ),
            implementations_dir_exists && !specs_dir_exists ==> r == Result::<(),
                ConfigError,
            >::Err(ConfigError::MissingSpecsDir),
    {
        if !implementations_dir_exists {
            Err(ConfigError::MissingImplementationsDir)
        } else if !specs_dir_exists {
            Err(ConfigError::MissingSpecsDir)
        } else {
            Ok(())
        }
    }

    /// The default configuration with the runner knobs overridden where the
    /// caller found an override (environment variables it read and parsed).
    pub fn load_with_env_overrides(workers: Option<usize>, iterations: Option<usize>) -> (r:
        Config)
        ensures
            r.runner.parallel_workers == (if workers is Some {
                workers->0
            } else {
                4usize
            }),
            r.runner.benchmark_iterations == (if iterations is Some {
                iterations->0
            } else {
                10usize
            }),
            r.runner.warmup_iterations == 3,
            r.runner.result_format_version@ == "2.0"@,
            r.project_root@ == "../"@,
            r.implementations_dir@ == "../implementations"@,
            r.specs_dir@ == "../specs"@,
            r.results_dir@ == "../results"@,
            r.implementations@.len() == 7,
    {
        let mut config = Config::default();
        if let Some(w) = workers {
            config.runner.parallel_workers = w;
        }
        if let Some(n) = iterations {
            config.runner.benchmark_iterations = n;
        }
        config
    }
}

impl Default for Config {
    /// The conventional project layout next to the harness, the seven
    /// stock implementations, and the stock runner knobs.
    fn default() -> (r: Self)
        ensures
            r.project_root@ == "../"@,
            r.implementations_dir@ == "../implementations"@,
            r.specs_dir@ == "../specs"@,
            r.results_dir@ == "../results"@,
            r.implementations@.len() == 7,
            r.runner.parallel_workers == 4,
            r.runner.benchmark_iterations == 10,
            r.runner.warmup_iterations == 3,
            r.runner.result_format_version@ == "2.0"@,
    {
        Config {
            project_root: "../".to_owned(),
            implementations_dir: "../implementations".to_owned(),
            specs_dir: "../specs".to_owned(),
            results_dir: "../results".to_owned(),
            implementations: create_default_implementations(),
            runner: RunnerConfig {
                parallel_workers: 4,
                benchmark_iterations: 10,
                warmup_iterations: 3,
                result_format_version: "2.0".to_owned(),
            },
        }
    }
}

/// One entry of the default implementation list.
fn mk_impl(
    key: &str,
    name: &str,
    setup_command: Vec<String>,
    test_command: Vec<String>,
    benchmark_command: Vec<String>,
    timeout_seconds: u64,
) -> (r: (String, ImplementationConfig))
    requires
        setup_command@.len() > 0,
        test_command@.len() > 0,
        benchmark_command@.len() > 0,
    ensures
        r.0@ == key@,
        r.1.name@ == name@,
        r.1.setup_command == setup_command,
        r.1.test_command == test_command,
        r.1.benchmark_command == benchmark_command,
        r.1.timeout_seconds == timeout_seconds,
        r.1.env_vars@.len() == 0,
{
    (
        key.to_owned(),
        ImplementationConfig {
            name: name.to_owned(),
            setup_command,
            test_command,
            benchmark_command,
            timeout_seconds,
            env_vars: Vec::new(),
        },
    )
}

/// One command word.
fn w(s: &str) -> (r: String)
    ensures
        r@ == s@,
{
    s.to_owned()
}

/// The seven stock implementations with their command templates and
/// timeouts.
pub fn create_default_implementations() -> (r: Vec<(String, ImplementationConfig)>)
    ensures
        r@.len() == 7,
        r@[0].0@ == "javascript"@ && r@[0].1.name@ == "JavaScript"@ && r@[0].1.timeout_seconds
            == 300,
        r@[1].0@ == "python"@ && r@[1].1.name@ == "Python"@ && r@[1].1.timeout_seconds == 300,
        r@[2].0@ == "java"@ && r@[2].1.name@ == "Java"@ && r@[2].1.timeout_seconds == 600,
        r@[3].0@ == "csharp"@ && r@[3].1.name@ == "C#"@ && r@[3].1.timeout_seconds == 300,
        r@[4].0@ == "rust"@ && r@[4].1.name@ == "Rust"@ && r@[4].1.timeout_seconds == 300,
        r@[5].0@ == "go"@ && r@[5].1.name@ == "Go"@ && r@[5].1.timeout_seconds == 300,
        r@[6].0@ == "clojure"@ && r@[6].1.name@ == "Clojure"@ && r@[6].1.timeout_seconds == 600,
        forall|i: int|
            0 <= i < 7 ==> (#[trigger] r@[i].1.setup_command@.len() > 0
                && r@[i].1.test_command@.len() > 0 && r@[i].1.benchmark_command@.len() > 0),
{
    let mut r: Vec<(String, ImplementationConfig)> = Vec::new();
    r.push(
        mk_impl(
            "javascript",
            "JavaScript",
            vec![w("npm"), w("install")],
            vec![w("node"), w("test-runner.js"), w("test")],
            vec![w("node"), w("test-runner.js"), w("benchmark")],
            300,
        ),
    );
    r.push(
        mk_impl(
            "python",
            "Python",
            vec![w("python"), w("-m"), w("pip"), w("install"), w("-r"), w("requirements.txt")],
            vec![w("python"), w("test_runner.py"), w("test")],
            vec![w("python"), w("test_runner.py"), w("benchmark")],
            300,
        ),
    );
    r.push(
        mk_impl(
            "java",
            "Java",
            vec![w("mvn"), w("compile")],
            vec![
                w("mvn"),
                w("exec:java"),
                w("-Dexec.mainClass=org.fhirpath.comparison.TestRunner"),
                w("-Dexec.args=test"),
            ],
            vec![
                w("mvn"),
                w("exec:java"),
                w("-Dexec.mainClass=org.fhirpath.comparison.TestRunner"),
                w("-Dexec.args=benchmark"),
            ],
            600,
        ),
    );
    r.push(
        mk_impl(
            "csharp",
            "C#",
            vec![w("dotnet"), w("restore")],
            vec![w("dotnet"), w("run"), w("--"), w("test")],
            vec![w("dotnet"), w("run"), w("--"), w("benchmark")],
            300,
        ),
    );
    r.push(
        mk_impl(
            "rust",
            "Rust",
            vec![w("cargo"), w("build")],
            vec![w("cargo"), w("run"), w("--"), w("test")],
            vec![w("cargo"), w("run"), w("--"), w("benchmark")],
            300,
        ),
    );
    r.push(
        mk_impl(
            "go",
            "Go",
            vec![w("go"), w("mod"), w("tidy")],
            vec![w("go"), w("run"), w("main.go"), w("test")],
            vec![w("go"), w("run"), w("main.go"), w("benchmark")],
            300,
        ),
    );
    r.push(
        mk_impl(
            "clojure",
            "Clojure",
            vec![w("clojure"), w("-P")],
            vec![w("clojure"), w("-M"), w("-m"), w("test-runner")],
            vec![w("clojure"), w("-M"), w("-m"), w("test-runner"), w("benchmark")],
            600,
        ),
    );
    r
}

} // verus!
