//! The orchestrator: the per-implementation phase machine, the command
//! plans it hands to the caller for the outside work (spawning, file I/O),
//! and the collection of per-implementation outcomes. A failure of one
//! implementation is captured as a value and never aborts its siblings.

use vstd::prelude::*;
use vstd::string::{StringExecFns, StringSliceAdditionalSpecFns};
use crate::config::{Config, ConfigError, ImplementationConfig, find_impl};
use crate::utils::{result_filename, result_file_pattern};

verus! {

/// Where one implementation stands in a run. Setup comes first; after a
/// successful setup the test and benchmark phases each run independently.
/// A failed setup is terminal: no transition leaves `SetupFailed`.
#[derive(Debug, Clone, Copy, PartialEq, Eq, Structural)]
pub enum ImplPhase {
    Pending,
    SettingUp,
    Ready,
    SetupFailed,
    Testing,
    Tested,
    Benchmarking,
    Benchmarked,
}

impl ImplPhase {
    /// No transition leaves this phase for the remainder of the run.
    pub open spec fn is_terminal(self) -> bool {
        self is SetupFailed
    }

    pub fn begin_setup(self) -> (r: Self)
        requires
            self is Pending,
        ensures
            r is SettingUp,
    {
        ImplPhase::SettingUp
    }

    /// A successful setup makes the implementation ready for both phases;
    /// a failed one excludes it from the rest of the run.
    pub fn finish_setup(self, success: bool) -> (r: Self)
        requires
            self is SettingUp,
        ensures
            success ==> r is Ready,
            !success ==> r is SetupFailed,
            !success ==> r.is_terminal(),
    {
        if success {
            ImplPhase::Ready
        } else {
            ImplPhase::SetupFailed
        }
    }

    pub fn begin_testing(self) -> (r: Self)
        requires
            self is Ready || self is Benchmarked,
        ensures
            r is Testing,
    {
        ImplPhase::Testing
    }

    /// Test-command failure is captured in the result object, so the test
    /// phase always completes.
    pub fn finish_testing(self) -> (r: Self)
        requires
            self is Testing,
        ensures
            r is Tested,
    {
        ImplPhase::Tested
    }

    pub fn begin_benchmarking(self) -> (r: Self)
        requires
            self is Ready || self is Tested,
        ensures
            r is Benchmarking,
    {
        ImplPhase::Benchmarking
    }

    pub fn finish_benchmarking(self) -> (r: Self)
        requires
            self is Benchmarking,
        ensures
            r is Benchmarked,
    {
        ImplPhase::Benchmarked
    }
}

/// Everything the caller needs to run one phase command of one
/// implementation: its identity, the command words, the working directory
/// and the timeout.
#[derive(Debug, Clone)]
pub struct CommandPlan {
    pub language: String,
    pub command: Vec<String>,
    pub impl_dir: String,
    pub timeout_seconds: u64,
}

/// Which phase command a plan is asked for.
#[derive(Debug, Clone, Copy, PartialEq, Eq, Structural)]
pub enum PhaseCommand {
    Setup,
    Tests,
    Benchmarks,
}

/// The command template the phase uses from an implementation's
/// configuration.
pub open spec fn phase_command_of(c: ImplementationConfig, phase: PhaseCommand) -> Seq<String> {
    match phase {
        PhaseCommand::Setup => c.setup_command@,
        PhaseCommand::Tests => c.test_command@,
        PhaseCommand::Benchmarks => c.benchmark_command@,
    }
}

/// The results of the units that finished, in their given order; failed
/// units are left out rather than aborting the collection.
pub open spec fn oks_of<T>(results: Seq<Result<T, String>>) -> Seq<T>
    decreases results.len(),
{
    if results.len() == 0 {
        Seq::empty()
    } else {
        let rest = oks_of(results.drop_last());
        match results.last() {
            Ok(v) => rest.push(v),
            Err(_) => rest,
        }
    }
}

/// Keeps the successful units' results, in order; each failed unit was
/// already reported by the caller and is dropped here, never propagated.
pub fn collect_ok<T>(results: Vec<Result<T, String>>) -> (r: Vec<T>)
    ensures
        r@ == oks_of(results@),
{
    let ghost all = results@;
    let mut results = results;
    let mut r: Vec<T> = Vec::new();
    let n = results.len();
    proof {
        assert(all.subrange(0, 0) =~= Seq::<Result<T, String>>::empty());
    }
    for i in 0..n
        invariant
            n == all.len(),
            results@ == all.skip(i as int),
            r@ == oks_of(all.subrange(0, i as int)),
    {
        proof {
            assert(all.subrange(0, i + 1).drop_last() =~= all.subrange(0, i as int));
            assert(all.subrange(0, i + 1).last() == all[i as int]);
            assert(all.skip(i as int)[0] == all[i as int]);
            assert(all.skip(i as int).drop_first() =~= all.skip(i + 1));
        }
        match results.remove(0) {
            Ok(v) => {
                r.push(v);
            },
            Err(_) => {},
        }
    }
    proof {
        assert(all.subrange(0, n as int) =~= all);
    }
    r
}

/// The identities whose setup succeeded, in their given order.
pub open spec fn successful_of(results: Seq<(String, bool)>) -> Seq<String>
    decreases results.len(),
{
    if results.len() == 0 {
        Seq::empty()
    } else {
        let rest = successful_of(results.drop_last());
        if results.last().1 {
            rest.push(results.last().0)
        } else {
            rest
        }
    }
}

/// The identities whose setup succeeded; the others are excluded from the
/// later phases.
pub fn languages_with_successful_setup(results: &Vec<(String, bool)>) -> (r: Vec<String>)
    ensures
        r@ == successful_of(results@),
{
    let mut r: Vec<String> = Vec::new();
    let n = results.len();
    proof {
        assert(results@.subrange(0, 0) =~= Seq::<(String, bool)>::empty());
    }
    for i in 0..n
        invariant
            n == results@.len(),
            r@ == successful_of(results@.subrange(0, i as int)),
    {
        proof {
            assert(results@.subrange(0, i + 1).drop_last() =~= results@.subrange(0, i as int));
            assert(results@.subrange(0, i + 1).last() == results@[i as int]);
        }
        if results[i].1 {
            r.push(results[i].0.clone());
        }
    }
    proof {
        assert(results@.subrange(0, n as int) =~= results@);
    }
    r
}

/// Whether a directory entry is a known implementation: not hidden (no
/// leading dot byte) and present in the configuration.
pub open spec fn is_available(entries: Seq<(String, ImplementationConfig)>, name: String) -> bool {
    let bytes = vstd::utf8::encode_utf8(name@);
    !(bytes.len() > 0 && bytes[0] == 46) && find_impl(entries, bytes) is Some
}

/// The directory entries that are known implementations, in the listing's
/// order.
pub open spec fn available_of(
    entries: Seq<(String, ImplementationConfig)>,
    names: Seq<String>,
) -> Seq<String>
    decreases names.len(),
{
    if names.len() == 0 {
        Seq::empty()
    } else {
        let rest = available_of(entries, names.drop_last());
        if is_available(entries, names.last()) {
            rest.push(names.last())
        } else {
            rest
        }
    }
}

/// The orchestrator: sequences setup-then-execute per implementation and
/// hands every outside action to the caller as a plan.
pub struct Runner {
    pub config: Config,
}

impl Runner {
    pub fn new(config: Config) -> (r: Self)
        ensures
            r.config == config,
    {
        Runner { config }
    }

    pub fn get_config(&self) -> (r: &Config)
        ensures
            *r == self.config,
    {
        &self.config
    }

    /// The plan for one phase command of one implementation: its
    /// configured command template, working directory and timeout. An
    /// identity missing from the configuration is a configuration fault
    /// that stops the run.
    pub fn plan_command(&self, language: &str, phase: PhaseCommand) -> (r: Result<
        CommandPlan,
        ConfigError,
    >)
        ensures
            match find_impl(self.config.implementations@, language.spec_bytes()) {
                Some(c) => {
                    &&& r is Ok
                    &&& r->Ok_0.language@ == language@
                    &&& r->Ok_0.command@ == phase_command_of(c, phase)
                    &&& r->Ok_0.timeout_seconds == c.timeout_seconds
                    &&& r->Ok_0.impl_dir@ == self.config.implementations_dir@ + "/"@ + language@
                },
                None => r matches Err(ConfigError::UnknownImplementation(l)) && l@ == language@,
            },
    {
        let found = self.config.get_implementation(language);
        match found {
            Some(c) => {
                let command = match phase {
                    PhaseCommand::Setup => c.setup_command.clone(),
                    PhaseCommand::Tests => c.test_command.clone(),
                    PhaseCommand::Benchmarks => c.benchmark_command.clone(),
                };
                let mut impl_dir = self.config.implementations_dir.clone();
                impl_dir.append("/");
                impl_dir.append(language);
                Ok(
                    CommandPlan {
                        language: language.to_owned(),
                        command,
                        impl_dir,
                        timeout_seconds: c.timeout_seconds,
                    },
                )
            },
            None => Err(ConfigError::UnknownImplementation(language.to_owned())),
        }
    }

    /// The implementations a run can address: the directory entries the
    /// caller found under the implementations directory, kept when they
    /// are not hidden and are configured, in ascending byte-wise
    /// lexicographic order.
    pub fn get_available_implementations(&self, dir_entries: &Vec<String>) -> (r: Vec<String>)
        ensures
            r@.to_multiset() == available_of(
                self.config.implementations@,
                dir_entries@,
            ).to_multiset(),
            crate::strutil::strings_sorted(r@),
    {
        let mut kept: Vec<String> = Vec::new();
        let n = dir_entries.len();
        proof {
            assert(dir_entries@.subrange(0, 0) =~= Seq::<String>::empty());
        }
        for i in 0..n
            invariant
                n == dir_entries@.len(),
                kept@ == available_of(self.config.implementations@, dir_entries@.subrange(
                    0,
                    i as int,
                )),
        {
            proof {
                assert(dir_entries@.subrange(0, i + 1).drop_last() =~= dir_entries@.subrange(
                    0,
                    i as int,
                ));
                assert(dir_entries@.subrange(0, i + 1).last() == dir_entries@[i as int]);
            }
            let name = &dir_entries[i];
            let bytes = name.as_str().as_bytes();
            let hidden = bytes.len() > 0 && bytes[0] == 46;
            if !hidden && self.config.get_implementation(name.as_str()).is_some() {
                kept.push(name.clone());
            }
        }
        proof {
            assert(dir_entries@.subrange(0, n as int) =~= dir_entries@);
        }
        crate::strutil::sort_strings(kept)
    }

    /// The four stale result files of one implementation that a fresh run
    /// removes: the legacy timestamped pattern and the current name, for
    /// each result kind. The caller deletes whatever matches.
    pub fn cleanup_old_results(&self, language: &str) -> (r: Vec<String>)
        ensures
            r@.len() == 4,
            r@[0]@ == language@ + "_"@ + "test_results"@ + "_*.json"@,
            r@[1]@ == language@ + "_"@ + "test_results"@ + ".json"@,
            r@[2]@ == language@ + "_"@ + "benchmark_results"@ + "_*.json"@,
            r@[3]@ == language@ + "_"@ + "benchmark_results"@ + ".json"@,
    {
        let mut r: Vec<String> = Vec::new();
        r.push(result_file_pattern(language, "test_results"));
        r.push(result_filename(language, "test_results"));
        r.push(result_file_pattern(language, "benchmark_results"));
        r.push(result_filename(language, "benchmark_results"));
        r
    }

    /// Checks that the run can start: the shared directories are present
    /// (the caller reports each) and at least one implementation is
    /// available.
    pub fn validate_setup(
        &self,
        implementations_dir_exists: bool,
        specs_dir_exists: bool,
        available: &Vec<String>,
    ) -> (r: Result<(), ConfigError>)
        ensures
            r is Ok <==> implementations_dir_exists && specs_dir_exists && available@.len() > 0,
            !implementations_dir_exists ==> r == Result::<(), ConfigError>::Err(
                ConfigError::MissingImplementationsDir,
            ),
            implementations_dir_exists && !specs_dir_exists ==> r == Result::<(),
                ConfigError,
            >::Err(ConfigError::MissingSpecsDir),
            implementations_dir_exists && specs_dir_exists && available@.len() == 0 ==> r
                == Result::<(), ConfigError>::Err(ConfigError::NoImplementationsFound),
    {
        match self.config.validate(implementations_dir_exists, specs_dir_exists) {
            Err(e) => Err(e),
            Ok(()) => {
                if available.len() == 0 {
                    Err(ConfigError::NoImplementationsFound)
                } else {
                    Ok(())
                }
            },
        }
    }
}

} // verus!
