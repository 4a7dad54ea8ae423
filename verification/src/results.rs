//! Result records produced per implementation and per run: test results,
//! benchmark results, their roll-up summaries, and the invariants that tie a
//! summary to its case outcomes.
//!
//! All times are integer milliseconds; fields documented as "scaled" carry
//! thousandths of a millisecond (see `stats::STAT_SCALE`).

use vstd::prelude::*;
use crate::stats::{StatisticalSummary, all_bounded, MAX_SAMPLES};
use crate::utils::{SystemInfo, ProcessStats, new_uuid_string, now_rfc3339};

verus! {

/// Version of this harness recorded in result metadata.
pub const RUNNER_VERSION: &'static str = "0.1.0";

/// Version of the result handoff format this harness reads and writes.
pub const FORMAT_VERSION: &'static str = "2.0";

/// Largest accepted accumulated time, in milliseconds; keeps the scaled
/// average within `u64`.
pub const MAX_TOTAL_TIME_MS: u64 = 18000000000000000;

/// Wall-clock breakdown of one phase run.
#[derive(Debug, Clone, Copy, PartialEq, Eq, Structural)]
pub struct ExecutionTiming {
    pub setup_time_ms: u64,
    pub execution_time_ms: u64,
    pub teardown_time_ms: u64,
    pub total_time_ms: u64,
}

impl ExecutionTiming {
    pub fn new() -> (r: Self)
        ensures
            r == (ExecutionTiming {
                setup_time_ms: 0,
                execution_time_ms: 0,
                teardown_time_ms: 0,
                total_time_ms: 0,
            }),
    {
        ExecutionTiming {
            setup_time_ms: 0,
            execution_time_ms: 0,
            teardown_time_ms: 0,
            total_time_ms: 0,
        }
    }

    /// Recomputes the total as the sum of the three phases.
    pub fn calculate_total(&mut self)
        requires
            old(self).setup_time_ms + old(self).execution_time_ms + old(self).teardown_time_ms
                <= u64::MAX,
        ensures
            final(self).total_time_ms == old(self).setup_time_ms + old(self).execution_time_ms
                + old(self).teardown_time_ms,
            final(self).setup_time_ms == old(self).setup_time_ms,
            final(self).execution_time_ms == old(self).execution_time_ms,
            final(self).teardown_time_ms == old(self).teardown_time_ms,
    {
        self.total_time_ms = self.setup_time_ms + self.execution_time_ms + self.teardown_time_ms;
    }
}

/// Roll-up counts over the test cases of one implementation run.
#[derive(Debug, Clone, Copy, PartialEq, Eq, Structural)]
pub struct TestSummary {
    pub total: usize,
    pub passed: usize,
    pub failed: usize,
    pub errors: usize,
    pub execution_time_ms: u64,
}

impl TestSummary {
    /// The counts add up: passed + failed + errors == total.
    pub open spec fn wf(self) -> bool {
        self.passed + self.failed + self.errors == self.total
    }

    pub fn zero() -> (r: Self)
        ensures
            r == (TestSummary { total: 0, passed: 0, failed: 0, errors: 0, execution_time_ms: 0 }),
            r.wf(),
    {
        TestSummary { total: 0, passed: 0, failed: 0, errors: 0, execution_time_ms: 0 }
    }
}

/// Outcome of one test case. `expected` and `actual` carry the JSON text of
/// the values exchanged with the implementation; the harness records them
/// without interpreting them.
#[derive(Debug, Clone)]
pub struct TestCaseResult {
    pub name: String,
    pub file: String,
    pub passed: bool,
    pub execution_time_ms: u64,
    pub expected: String,
    pub actual: Option<String>,
    pub error: Option<String>,
}

/// One implementation's test run: identity, environment snapshot, case
/// outcomes and their roll-up, plus a top-level error when the
/// implementation produced no case-level results at all.
#[derive(Debug, Clone)]
pub struct TestResult {
    pub id: String,
    pub language: String,
    pub timestamp: String,
    pub execution_time_ms: u64,
    pub timing: ExecutionTiming,
    pub system_info: SystemInfo,
    pub process_stats: Option<ProcessStats>,
    pub tests: Vec<TestCaseResult>,
    pub summary: TestSummary,
    pub metadata: ResultMetadata,
    pub error: Option<String>,
}

impl TestResult {
    /// The roll-up counts add up (passed + failed + errors == total).
    pub open spec fn wf(self) -> bool {
        self.summary.wf()
    }

    /// A fresh, empty result for one implementation.
    pub fn new(language: String, system_info: SystemInfo) -> (r: Self)
        ensures
            r.language == language,
            r.execution_time_ms == 0,
            r.timing == (ExecutionTiming {
                setup_time_ms: 0,
                execution_time_ms: 0,
                teardown_time_ms: 0,
                total_time_ms: 0,
            }),
            r.tests@.len() == 0,
            r.summary == (TestSummary {
                total: 0,
                passed: 0,
                failed: 0,
                errors: 0,
                execution_time_ms: 0,
            }),
            r.error is None,
            r.id@.len() == 36,
            r.wf(),
    {
        TestResult {
            id: new_uuid_string(),
            language,
            timestamp: now_rfc3339(),
            execution_time_ms: 0,
            timing: ExecutionTiming::new(),
            system_info,
            process_stats: None,
            tests: Vec::new(),
            summary: TestSummary::zero(),
            metadata: ResultMetadata::empty(),
            error: None,
        }
    }

    /// Appends one case outcome and rolls it into the summary: a passed case
    /// counts as passed, a failed case with an error text as an error, any
    /// other failed case as a failure.
    pub fn add_test_case(&mut self, test_case: TestCaseResult)
        requires
            old(self).wf(),
            old(self).summary.total < usize::MAX,
            old(self).summary.execution_time_ms + test_case.execution_time_ms <= u64::MAX,
        ensures
            final(self).wf(),
            final(self).summary.total == old(self).summary.total + 1,
            final(self).summary.passed == old(self).summary.passed + (if test_case.passed {
                1int
            } else {
                0int
            }),
            final(self).summary.errors == old(self).summary.errors + (if !test_case.passed
                && test_case.error is Some {
                1int
            } else {
                0int
            }),
            final(self).summary.failed == old(self).summary.failed + (if !test_case.passed
                && test_case.error is None {
                1int
            } else {
                0int
            }),
            final(self).summary.execution_time_ms == old(self).summary.execution_time_ms
                + test_case.execution_time_ms,
            final(self).tests@ == old(self).tests@.push(test_case),
            final(self).id == old(self).id,
            final(self).language == old(self).language,
            final(self).timestamp == old(self).timestamp,
            final(self).execution_time_ms == old(self).execution_time_ms,
            final(self).timing == old(self).timing,
            final(self).system_info == old(self).system_info,
            final(self).process_stats == old(self).process_stats,
            final(self).metadata == old(self).metadata,
            final(self).error == old(self).error,
    {
        self.summary.total = self.summary.total + 1;
        if test_case.passed {
            self.summary.passed = self.summary.passed + 1;
        } else if test_case.error.is_some() {
            self.summary.errors = self.summary.errors + 1;
        } else {
            self.summary.failed = self.summary.failed + 1;
        }
        self.summary.execution_time_ms = self.summary.execution_time_ms
            + test_case.execution_time_ms;
        self.tests.push(test_case);
    }
}

/// Outcome of one benchmark case. `times` holds the raw per-iteration
/// samples in milliseconds and is the source of truth: the derived fields
/// are recomputed from it and scaled by `stats::STAT_SCALE` where noted.
#[derive(Debug, Clone)]
pub struct BenchmarkCaseResult {
    pub name: String,
    pub file: String,
    pub iterations: usize,
    pub total_time_ms: u64,
    /// scaled: the mean of `times`
    pub avg_time_ms: u64,
    /// scaled: the median of `times`
    pub median_time_ms: u64,
    pub min_time_ms: u64,
    pub max_time_ms: u64,
    /// scaled: the standard deviation of `times`
    pub std_dev_ms: u64,
    pub times: Vec<u64>,
    pub statistical_summary: StatisticalSummary,
    pub memory_stats: Option<ProcessStats>,
    pub warmup_iterations: usize,
    pub error: Option<String>,
}

impl BenchmarkCaseResult {
    /// The derived statistics agree with the raw samples.
    pub open spec fn wf(self) -> bool {
        &&& self.statistical_summary.consistent_with(self.times@)
        &&& self.avg_time_ms == self.statistical_summary.mean
        &&& self.median_time_ms == self.statistical_summary.median
        &&& self.std_dev_ms == self.statistical_summary.std_dev
        &&& self.min_time_ms * 1000 == self.statistical_summary.min
        &&& self.max_time_ms * 1000 == self.statistical_summary.max
    }

    /// Builds a case outcome from its raw samples, deriving every statistic
    /// from them.
    pub fn from_times(
        name: String,
        file: String,
        iterations: usize,
        total_time_ms: u64,
        times: Vec<u64>,
        warmup_iterations: usize,
        error: Option<String>,
    ) -> (r: Self)
        requires
            times@.len() <= MAX_SAMPLES,
            all_bounded(times@),
        ensures
            r.wf(),
            r.name == name,
            r.file == file,
            r.iterations == iterations,
            r.total_time_ms == total_time_ms,
            r.times == times,
            r.warmup_iterations == warmup_iterations,
            r.memory_stats is None,
            r.error == error,
    {
        let statistical_summary = StatisticalSummary::calculate(&times);
        let min_time_ms = statistical_summary.min / 1000;
        let max_time_ms = statistical_summary.max / 1000;
        proof {
            if times@.len() > 0 {
                vstd::arithmetic::div_mod::lemma_div_multiples_vanish(
                    crate::stats::sorted_of(times@)[0] as int,
                    1000,
                );
                vstd::arithmetic::div_mod::lemma_div_multiples_vanish(
                    crate::stats::sorted_of(times@)[crate::stats::sorted_of(times@).len() - 1]
                        as int,
                    1000,
                );
            }
        }
        BenchmarkCaseResult {
            name,
            file,
            iterations,
            total_time_ms,
            avg_time_ms: statistical_summary.mean,
            median_time_ms: statistical_summary.median,
            min_time_ms,
            max_time_ms,
            std_dev_ms: statistical_summary.std_dev,
            times,
            statistical_summary,
            memory_stats: None,
            warmup_iterations,
            error,
        }
    }
}

/// Roll-up over the benchmark cases of one implementation run. The average
/// is scaled by `stats::STAT_SCALE`.
#[derive(Debug, Clone, Copy, PartialEq, Eq, Structural)]
pub struct BenchmarkSummary {
    pub total_cases: usize,
    pub total_iterations: usize,
    pub total_time_ms: u64,
    /// scaled: total time divided by the number of cases
    pub avg_time_per_case_ms: u64,
}

impl BenchmarkSummary {
    /// The average agrees with total time and case count.
    pub open spec fn wf(self) -> bool {
        if self.total_cases == 0 {
            self.avg_time_per_case_ms == 0
        } else {
            self.avg_time_per_case_ms == self.total_time_ms * 1000 / self.total_cases as int
        }
    }

    pub fn zero() -> (r: Self)
        ensures
            r == (BenchmarkSummary {
                total_cases: 0,
                total_iterations: 0,
                total_time_ms: 0,
                avg_time_per_case_ms: 0,
            }),
            r.wf(),
    {
        BenchmarkSummary {
            total_cases: 0,
            total_iterations: 0,
            total_time_ms: 0,
            avg_time_per_case_ms: 0,
        }
    }
}

/// One implementation's benchmark run.
#[derive(Debug, Clone)]
pub struct BenchmarkResult {
    pub id: String,
    pub language: String,
    pub timestamp: String,
    pub timing: ExecutionTiming,
    pub system_info: SystemInfo,
    pub process_stats: Option<ProcessStats>,
    pub benchmarks: Vec<BenchmarkCaseResult>,
    pub summary: BenchmarkSummary,
    pub metadata: ResultMetadata,
    pub error: Option<String>,
}

impl BenchmarkResult {
    /// The roll-up average agrees with its own totals.
    pub open spec fn wf(self) -> bool {
        self.summary.wf()
    }

    /// A fresh, empty result for one implementation.
    pub fn new(language: String, system_info: SystemInfo) -> (r: Self)
        ensures
            r.language == language,
            r.benchmarks@.len() == 0,
            r.summary == (BenchmarkSummary {
                total_cases: 0,
                total_iterations: 0,
                total_time_ms: 0,
                avg_time_per_case_ms: 0,
            }),
            r.error is None,
            r.id@.len() == 36,
            r.wf(),
    {
        BenchmarkResult {
            id: new_uuid_string(),
            language,
            timestamp: now_rfc3339(),
            timing: ExecutionTiming::new(),
            system_info,
            process_stats: None,
            benchmarks: Vec::new(),
            summary: BenchmarkSummary::zero(),
            metadata: ResultMetadata::empty(),
            error: None,
        }
    }

    /// Appends one case outcome and rolls it into the summary, recomputing
    /// the scaled average time per case.
    pub fn add_benchmark_case(&mut self, benchmark_case: BenchmarkCaseResult)
        requires
            old(self).wf(),
            old(self).summary.total_cases < usize::MAX,
            old(self).summary.total_iterations + benchmark_case.iterations <= usize::MAX,
            old(self).summary.total_time_ms + benchmark_case.total_time_ms <= MAX_TOTAL_TIME_MS,
        ensures
            final(self).wf(),
            final(self).summary.total_cases == old(self).summary.total_cases + 1,
            final(self).summary.total_iterations == old(self).summary.total_iterations
                + benchmark_case.iterations,
            final(self).summary.total_time_ms == old(self).summary.total_time_ms
                + benchmark_case.total_time_ms,
            final(self).benchmarks@ == old(self).benchmarks@.push(benchmark_case),
            final(self).id == old(self).id,
            final(self).language == old(self).language,
            final(self).timestamp == old(self).timestamp,
            final(self).timing == old(self).timing,
            final(self).system_info == old(self).system_info,
            final(self).process_stats == old(self).process_stats,
            final(self).metadata == old(self).metadata,
            final(self).error == old(self).error,
    {
        self.summary.total_cases = self.summary.total_cases + 1;
        self.summary.total_iterations = self.summary.total_iterations + benchmark_case.iterations;
        self.summary.total_time_ms = self.summary.total_time_ms + benchmark_case.total_time_ms;
        self.summary.avg_time_per_case_ms = ((self.summary.total_time_ms as u128 * 1000) / (
        self.summary.total_cases as u128)) as u64;
        proof {
            vstd::arithmetic::div_mod::lemma_div_is_ordered_by_denominator(
                self.summary.total_time_ms as int * 1000,
                1,
                self.summary.total_cases as int,
            );
            vstd::arithmetic::div_mod::lemma_div_basics(self.summary.total_time_ms as int * 1000);
        }
        self.benchmarks.push(benchmark_case);
    }
}

/// Provenance of a result: harness version, handoff-format version, the
/// environment snapshot and the command line that produced it.
#[derive(Debug, Clone)]
pub struct ResultMetadata {
    pub runner_version: String,
    pub format_version: String,
    pub environment: Vec<(String, String)>,
    pub command_line: Vec<String>,
}

impl ResultMetadata {
    /// Metadata with the given environment snapshot and command line.
    pub fn new(environment: Vec<(String, String)>, command_line: Vec<String>) -> (r: Self)
        ensures
            r.runner_version@ == RUNNER_VERSION@,
            r.format_version@ == FORMAT_VERSION@,
            r.environment == environment,
            r.command_line == command_line,
    {
        ResultMetadata {
            runner_version: RUNNER_VERSION.to_owned(),
            format_version: FORMAT_VERSION.to_owned(),
            environment,
            command_line,
        }
    }

    /// Metadata with an empty environment snapshot and command line.
    pub fn empty() -> (r: Self)
        ensures
            r.runner_version@ == RUNNER_VERSION@,
            r.format_version@ == FORMAT_VERSION@,
            r.environment@.len() == 0,
            r.command_line@.len() == 0,
    {
        ResultMetadata::new(Vec::new(), Vec::new())
    }
}

} // verus!
