//! The comparison builder: merges the collected test and benchmark results
//! of all implementations into one report and derives the fastest and the
//! most compliant implementation.

use vstd::prelude::*;
use crate::results::{TestResult, TestSummary, BenchmarkResult, ResultMetadata};
use crate::utils::{new_uuid_string, now_rfc3339};

verus! {

/// Derived roll-up of one comparison run.
#[derive(Debug, Clone)]
pub struct ComparisonSummary {
    pub languages_tested: usize,
    pub total_tests: usize,
    pub total_benchmarks: usize,
    pub fastest_implementation: Option<String>,
    pub most_compliant_implementation: Option<String>,
}

/// Sum of the test-case counts over all results.
pub open spec fn sum_totals(ts: Seq<TestResult>) -> int
    decreases ts.len(),
{
    if ts.len() == 0 {
        0
    } else {
        sum_totals(ts.drop_last()) + ts.last().summary.total
    }
}

/// Sum of the benchmark-case counts over all results.
pub open spec fn sum_cases(bs: Seq<BenchmarkResult>) -> int
    decreases bs.len(),
{
    if bs.len() == 0 {
        0
    } else {
        sum_cases(bs.drop_last()) + bs.last().summary.total_cases
    }
}

/// The pass-ratio numerator of a summary; a run with no cases counts as
/// ratio zero.
pub open spec fn ratio_num(s: TestSummary) -> int {
    if s.total == 0 {
        0
    } else {
        s.passed as int
    }
}

/// The pass-ratio denominator of a summary (one for an empty run, so the
/// ratio is zero rather than undefined).
pub open spec fn ratio_den(s: TestSummary) -> int {
    if s.total == 0 {
        1
    } else {
        s.total as int
    }
}

/// passed/total of `a` is at most passed/total of `b`, compared exactly by
/// cross-multiplication.
pub open spec fn ratio_le(a: TestSummary, b: TestSummary) -> bool {
    ratio_num(a) * ratio_den(b) <= ratio_num(b) * ratio_den(a)
}

/// The index the fastest-implementation rule picks over a non-empty result
/// list: the first index whose summary has the lowest average time per case.
pub open spec fn fastest_idx(bs: Seq<BenchmarkResult>) -> int
    recommends bs.len() > 0,
    decreases bs.len(),
{
    if bs.len() <= 1 {
        0
    } else {
        let k = fastest_idx(bs.drop_last());
        if bs.last().summary.avg_time_per_case_ms < bs[k].summary.avg_time_per_case_ms {
            bs.len() - 1
        } else {
            k
        }
    }
}

/// The index the most-compliant rule picks over a non-empty result list:
/// the last index whose summary has the highest pass ratio.
pub open spec fn most_compliant_idx(ts: Seq<TestResult>) -> int
    recommends ts.len() > 0,
    decreases ts.len(),
{
    if ts.len() <= 1 {
        0
    } else {
        let k = most_compliant_idx(ts.drop_last());
        if ratio_le(ts[k].summary, ts.last().summary) {
            ts.len() - 1
        } else {
            k
        }
    }
}

/// The whole derived summary as a function of the input lists alone.
pub open spec fn summary_of(ts: Seq<TestResult>, bs: Seq<BenchmarkResult>) -> ComparisonSummary {
    ComparisonSummary {
        languages_tested: if ts.len() >= bs.len() {
            ts.len() as usize
        } else {
            bs.len() as usize
        },
        total_tests: sum_totals(ts) as usize,
        total_benchmarks: sum_cases(bs) as usize,
        fastest_implementation: if bs.len() == 0 {
            None
        } else {
            Some(bs[fastest_idx(bs)].language)
        },
        most_compliant_implementation: if ts.len() == 0 {
            None
        } else {
            Some(ts[most_compliant_idx(ts)].language)
        },
    }
}

proof fn lemma_sum_totals_prefix(ts: Seq<TestResult>, i: int)
    requires
        0 <= i <= ts.len(),
    ensures
        0 <= sum_totals(ts.subrange(0, i)) <= sum_totals(ts),
    decreases ts.len(),
{
    if ts.len() == 0 {
        assert(ts.subrange(0, i) =~= ts);
    } else if i == ts.len() {
        assert(ts.subrange(0, i) =~= ts);
        lemma_sum_totals_prefix(ts.drop_last(), ts.len() - 1);
        assert(ts.drop_last().subrange(0, ts.len() - 1) =~= ts.drop_last());
    } else {
        lemma_sum_totals_prefix(ts.drop_last(), i);
        assert(ts.drop_last().subrange(0, i) =~= ts.subrange(0, i));
    }
}

proof fn lemma_sum_cases_prefix(bs: Seq<BenchmarkResult>, i: int)
    requires
        0 <= i <= bs.len(),
    ensures
        0 <= sum_cases(bs.subrange(0, i)) <= sum_cases(bs),
    decreases bs.len(),
{
    if bs.len() == 0 {
        assert(bs.subrange(0, i) =~= bs);
    } else if i == bs.len() {
        assert(bs.subrange(0, i) =~= bs);
        lemma_sum_cases_prefix(bs.drop_last(), bs.len() - 1);
        assert(bs.drop_last().subrange(0, bs.len() - 1) =~= bs.drop_last());
    } else {
        lemma_sum_cases_prefix(bs.drop_last(), i);
        assert(bs.drop_last().subrange(0, i) =~= bs.subrange(0, i));
    }
}

/// Whether the pass ratio of `a` is at most that of `b`.
fn ratio_le_exec(a: &TestSummary, b: &TestSummary) -> (r: bool)
    ensures
        r == ratio_le(*a, *b),
{
    let (num_a, den_a): (u128, u128) = if a.total == 0 {
        (0, 1)
    } else {
        (a.passed as u128, a.total as u128)
    };
    let (num_b, den_b): (u128, u128) = if b.total == 0 {
        (0, 1)
    } else {
        (b.passed as u128, b.total as u128)
    };
    proof {
        assert(num_a * den_b <= 0xffffffffffffffffffffffffffffffffu128) by (nonlinear_arith)
            requires num_a <= 0xffffffffffffffffu128 && den_b <= 0xffffffffffffffffu128;
        assert(num_b * den_a <= 0xffffffffffffffffffffffffffffffffu128) by (nonlinear_arith)
            requires num_b <= 0xffffffffffffffffu128 && den_a <= 0xffffffffffffffffu128;
    }
    num_a * den_b <= num_b * den_a
}

impl ComparisonSummary {
    /// Derives the whole summary from the two result lists: language count,
    /// case totals, the fastest implementation (lowest average time per
    /// case, first one on a tie) and the most compliant implementation
    /// (highest pass ratio, last one on a tie). Empty lists yield `None` for
    /// the corresponding derived field.
    pub fn calculate(test_results: &Vec<TestResult>, benchmark_results: &Vec<BenchmarkResult>)
        -> (r: ComparisonSummary)
        requires
            sum_totals(test_results@) <= usize::MAX,
            sum_cases(benchmark_results@) <= usize::MAX,
        ensures
            r == summary_of(test_results@, benchmark_results@),
    {
        let nt = test_results.len();
        let nb = benchmark_results.len();
        let languages_tested: usize = if nt >= nb {
            nt
        } else {
            nb
        };

        let mut total_tests: usize = 0;
        for i in 0..nt
            invariant
                nt == test_results@.len(),
                sum_totals(test_results@) <= usize::MAX,
                total_tests == sum_totals(test_results@.subrange(0, i as int)),
        {
            proof {
                lemma_sum_totals_prefix(test_results@, i + 1);
                assert(test_results@.subrange(0, i + 1).drop_last() =~= test_results@.subrange(
                    0,
                    i as int,
                ));
                assert(test_results@.subrange(0, i + 1).last() == test_results@[i as int]);
            }
            total_tests = total_tests + test_results[i].summary.total;
        }
        proof {
            assert(test_results@.subrange(0, nt as int) =~= test_results@);
        }

        let mut total_benchmarks: usize = 0;
        for i in 0..nb
            invariant
                nb == benchmark_results@.len(),
                sum_cases(benchmark_results@) <= usize::MAX,
                total_benchmarks == sum_cases(benchmark_results@.subrange(0, i as int)),
        {
            proof {
                lemma_sum_cases_prefix(benchmark_results@, i + 1);
                assert(benchmark_results@.subrange(0, i + 1).drop_last()
                    =~= benchmark_results@.subrange(0, i as int));
                assert(benchmark_results@.subrange(0, i + 1).last()
                    == benchmark_results@[i as int]);
            }
            total_benchmarks = total_benchmarks + benchmark_results[i].summary.total_cases;
        }
        proof {
            assert(benchmark_results@.subrange(0, nb as int) =~= benchmark_results@);
        }

        let fastest_implementation: Option<String> = if nb == 0 {
            None
        } else {
            let mut best: usize = 0;
            for i in 1..nb
                invariant
                    nb == benchmark_results@.len(),
                    best < i <= nb,
                    best == fastest_idx(benchmark_results@.subrange(0, i as int)),
            {
                proof {
                    assert(benchmark_results@.subrange(0, i + 1).drop_last()
                        =~= benchmark_results@.subrange(0, i as int));
                    assert(benchmark_results@.subrange(0, i + 1).last()
                        == benchmark_results@[i as int]);
                }
                if benchmark_results[i].summary.avg_time_per_case_ms
                    < benchmark_results[best].summary.avg_time_per_case_ms {
                    best = i;
                }
            }
            proof {
                assert(benchmark_results@.subrange(0, nb as int) =~= benchmark_results@);
            }
            Some(benchmark_results[best].language.clone())
        };

        let most_compliant_implementation: Option<String> = if nt == 0 {
            None
        } else {
            let mut best: usize = 0;
            for i in 1..nt
                invariant
                    nt == test_results@.len(),
                    best < i <= nt,
                    best == most_compliant_idx(test_results@.subrange(0, i as int)),
            {
                proof {
                    assert(test_results@.subrange(0, i + 1).drop_last()
                        =~= test_results@.subrange(0, i as int));
                    assert(test_results@.subrange(0, i + 1).last()
                        == test_results@[i as int]);
                }
                if ratio_le_exec(&test_results[best].summary, &test_results[i].summary) {
                    best = i;
                }
            }
            proof {
                assert(test_results@.subrange(0, nt as int) =~= test_results@);
            }
            Some(test_results[best].language.clone())
        };

        ComparisonSummary {
            languages_tested,
            total_tests,
            total_benchmarks,
            fastest_implementation,
            most_compliant_implementation,
        }
    }
}

/// The derived summary is a function of the input lists alone, so building
/// the comparison twice on the same lists yields identical derived fields.
pub proof fn lemma_comparison_idempotent(
    ts: Seq<TestResult>,
    bs: Seq<BenchmarkResult>,
    s1: ComparisonSummary,
    s2: ComparisonSummary,
)
    requires
        s1 == summary_of(ts, bs),
        s2 == summary_of(ts, bs),
    ensures
        s1 == s2,
{
}

/// An immutable snapshot of one comparison run: both result lists and the
/// summary derived from them.
#[derive(Debug, Clone)]
pub struct ComparisonReport {
    pub id: String,
    pub timestamp: String,
    pub test_results: Vec<TestResult>,
    pub benchmark_results: Vec<BenchmarkResult>,
    pub summary: ComparisonSummary,
    pub metadata: ResultMetadata,
}

impl ComparisonReport {
    /// Builds the report: keeps both lists and derives the summary from
    /// them.
    pub fn new(test_results: Vec<TestResult>, benchmark_results: Vec<BenchmarkResult>) -> (r:
        ComparisonReport)
        requires
            sum_totals(test_results@) <= usize::MAX,
            sum_cases(benchmark_results@) <= usize::MAX,
        ensures
            r.test_results == test_results,
            r.benchmark_results == benchmark_results,
            r.summary == summary_of(test_results@, benchmark_results@),
    {
        let summary = ComparisonSummary::calculate(&test_results, &benchmark_results);
        ComparisonReport {
            id: new_uuid_string(),
            timestamp: now_rfc3339(),
            test_results,
            benchmark_results,
            summary,
            metadata: ResultMetadata::empty(),
        }
    }
}

} // verus!
