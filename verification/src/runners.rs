//! Per-implementation runners. Each variant knows its implementation's
//! display name, its console-output token sets for the best-effort fallback
//! scan, and (for implementations with a managed runtime) how to adapt a
//! command to a resolved interpreter. Spawning the commands is the caller's
//! outside work; see `invoker`.

use vstd::prelude::*;
use vstd::string::{StringExecFns, StringSliceAdditionalSpecFns};
use crate::results::{TestResult, BenchmarkResult};
use crate::strutil::{
    spec_contains, spec_lower, spec_lines, contains_bytes, to_lower_bytes, split_lines, str_eq,
};
use crate::utils::{get_system_info, find_virtual_env_python, first_present,
    venv_python_candidates};

verus! {

/// The byte views of a list of byte vectors.
pub open spec fn byte_views(v: Seq<Vec<u8>>) -> Seq<Seq<u8>> {
    v.map_values(|x: Vec<u8>| x@)
}

/// One of the tokens occurs in the line: raw tokens are matched as they
/// stand, folded tokens against the ASCII-lowered line.
pub open spec fn line_matches(line: Seq<u8>, raw: Seq<Seq<u8>>, folded: Seq<Seq<u8>>) -> bool {
    (exists|i: int| 0 <= i < raw.len() && spec_contains(line, #[trigger] raw[i])) || (exists|
        i: int,
    | 0 <= i < folded.len() && spec_contains(spec_lower(line), #[trigger] folded[i]))
}

/// How many lines signal a pass.
pub open spec fn passed_in(lines: Seq<Seq<u8>>, raw: Seq<Seq<u8>>, folded: Seq<Seq<u8>>) -> int
    decreases lines.len(),
{
    if lines.len() == 0 {
        0
    } else {
        passed_in(lines.drop_last(), raw, folded) + (if line_matches(lines.last(), raw, folded) {
            1int
        } else {
            0int
        })
    }
}

/// How many lines signal either a pass or (otherwise) a failure.
pub open spec fn counted_in(
    lines: Seq<Seq<u8>>,
    pass_raw: Seq<Seq<u8>>,
    pass_folded: Seq<Seq<u8>>,
    fail_raw: Seq<Seq<u8>>,
    fail_folded: Seq<Seq<u8>>,
) -> int
    decreases lines.len(),
{
    if lines.len() == 0 {
        0
    } else {
        counted_in(lines.drop_last(), pass_raw, pass_folded, fail_raw, fail_folded) + (
        if line_matches(lines.last(), pass_raw, pass_folded) || line_matches(
            lines.last(),
            fail_raw,
            fail_folded,
        ) {
            1int
        } else {
            0int
        })
    }
}

/// Whether any of the tokens occurs in `hay`.
fn any_token_in(hay: &[u8], tokens: &Vec<Vec<u8>>) -> (r: bool)
    ensures
        r == exists|i: int|
            0 <= i < tokens@.len() && spec_contains(hay@, #[trigger] byte_views(tokens@)[i]),
{
    for i in 0..tokens.len()
        invariant
            forall|j: int| 0 <= j < i ==> !spec_contains(hay@, #[trigger] byte_views(tokens@)[j]),
    {
        if contains_bytes(hay, tokens[i].as_slice()) {
            proof {
                assert(byte_views(tokens@)[i as int] == tokens@[i as int]@);
                assert(spec_contains(hay@, byte_views(tokens@)[i as int]));
            }
            return true;
        }
    }
    false
}

/// Whether the line carries one of the tokens, raw or folded.
fn line_matches_exec(line: &Vec<u8>, lowered: &Vec<u8>, raw: &Vec<Vec<u8>>, folded: &Vec<Vec<u8>>)
    -> (r: bool)
    requires
        lowered@ == spec_lower(line@),
    ensures
        r == line_matches(line@, byte_views(raw@), byte_views(folded@)),
{
    any_token_in(line.as_slice(), raw) || any_token_in(lowered.as_slice(), folded)
}

/// Scans console output line by line: a line carrying a pass token counts
/// as one passed case; otherwise a line carrying a failure token counts as
/// one non-passed case.
fn tally_output(
    output: &str,
    pass_raw: &Vec<Vec<u8>>,
    pass_folded: &Vec<Vec<u8>>,
    fail_raw: &Vec<Vec<u8>>,
    fail_folded: &Vec<Vec<u8>>,
) -> (t: (usize, usize))
    ensures
        t.0 == passed_in(
            spec_lines(output.spec_bytes()),
            byte_views(pass_raw@),
            byte_views(pass_folded@),
        ),
        t.1 == counted_in(
            spec_lines(output.spec_bytes()),
            byte_views(pass_raw@),
            byte_views(pass_folded@),
            byte_views(fail_raw@),
            byte_views(fail_folded@),
        ),
        t.0 <= t.1,
{
    let bytes = output.as_bytes();
    let lines = split_lines(bytes);
    let ghost lviews = lines@.map_values(|l: Vec<u8>| l@);
    let ghost praw = byte_views(pass_raw@);
    let ghost pfolded = byte_views(pass_folded@);
    let ghost fraw = byte_views(fail_raw@);
    let ghost ffolded = byte_views(fail_folded@);

    let mut passed: usize = 0;
    let mut total: usize = 0;
    proof {
        assert(lviews.subrange(0, 0) =~= Seq::<Seq<u8>>::empty());
    }
    for i in 0..lines.len()
        invariant
            lviews == lines@.map_values(|l: Vec<u8>| l@),
            lviews == spec_lines(output.spec_bytes()),
            praw == byte_views(pass_raw@) && pfolded == byte_views(pass_folded@),
            fraw == byte_views(fail_raw@) && ffolded == byte_views(fail_folded@),
            passed == passed_in(lviews.subrange(0, i as int), praw, pfolded),
            total == counted_in(lviews.subrange(0, i as int), praw, pfolded, fraw, ffolded),
            passed <= total <= i,
    {
        let lowered = to_lower_bytes(lines[i].as_slice());
        proof {
            assert(lviews.subrange(0, i + 1).drop_last() =~= lviews.subrange(0, i as int));
            assert(lviews.subrange(0, i + 1).last() == lviews[i as int]);
            assert(lines@[i as int]@ == lviews[i as int]);
        }
        if line_matches_exec(&lines[i], &lowered, pass_raw, pass_folded) {
            passed += 1;
            total += 1;
        } else if line_matches_exec(&lines[i], &lowered, fail_raw, fail_folded) {
            total += 1;
        }
    }
    proof {
        assert(lviews.subrange(0, lviews.len() as int) =~= lviews);
    }
    (passed, total)
}

/// One token as an owned byte vector.
fn tok(s: &str) -> (r: Vec<u8>)
    ensures
        r@ == s.spec_bytes(),
{
    vstd::slice::slice_to_vec(s.as_bytes())
}

/// Builds a test result out of a fallback scan: `passed` passes and
/// `total - passed` failures, no errors.
fn scan_result(language: &str, passed: usize, total: usize) -> (r: TestResult)
    requires
        passed <= total,
    ensures
        r.language@ == language@,
        r.summary.total == total,
        r.summary.passed == passed,
        r.summary.failed == total - passed,
        r.summary.errors == 0,
        r.error is None,
        r.wf(),
{
    let mut result = TestResult::new(language.to_owned(), get_system_info());
    result.summary.total = total;
    result.summary.passed = passed;
    result.summary.failed = total - passed;
    result
}

/// Shared identity of every runner variant.
pub struct BaseRunner {
    pub name: String,
}

impl BaseRunner {
    pub fn new(name: String) -> (r: Self)
        ensures
            r.name == name,
    {
        BaseRunner { name }
    }

    /// A test result standing for a run in which the implementation could
    /// not produce any case-level results: the top-level error is set and
    /// the summary counts it as one errored case, so the counts stay
    /// consistent.
    pub fn create_error_test_result(&self, language: &str, error: &str) -> (r: TestResult)
        ensures
            r.language@ == language@,
            r.error matches Some(e) && e@ == error@,
            r.summary.total == 1,
            r.summary.errors == 1,
            r.summary.passed == 0,
            r.summary.failed == 0,
            r.tests@.len() == 0,
            r.wf(),
    {
        let mut result = TestResult::new(language.to_owned(), get_system_info());
        result.error = Some(error.to_owned());
        result.summary.errors = 1;
        result.summary.total = 1;
        result
    }

    /// A benchmark result standing for a run in which the implementation
    /// could not produce any case-level results.
    pub fn create_error_benchmark_result(&self, language: &str, error: &str) -> (r:
        BenchmarkResult)
        ensures
            r.language@ == language@,
            r.error matches Some(e) && e@ == error@,
            r.summary == (crate::results::BenchmarkSummary {
                total_cases: 0,
                total_iterations: 0,
                total_time_ms: 0,
                avg_time_per_case_ms: 0,
            }),
            r.benchmarks@.len() == 0,
            r.wf(),
    {
        let mut result = BenchmarkResult::new(language.to_owned(), get_system_info());
        result.error = Some(error.to_owned());
        result
    }
}

/// Replaces the first word of the command with `replacement` when it is the
/// generic interpreter word `expected`; other words are kept as they are.
pub fn adapt_command(command: &Vec<String>, expected: &str, replacement: &str) -> (r: Vec<String>)
    ensures
        r@.len() == command@.len(),
        forall|i: int| 1 <= i < command@.len() ==> r@[i] == command@[i],
        command@.len() > 0 ==> {
            if vstd::utf8::encode_utf8(command@[0]@) == expected.spec_bytes() {
                r@[0]@ == replacement@
            } else {
                r@[0] == command@[0]
            }
        },
{
    let mut r: Vec<String> = Vec::new();
    if command.len() == 0 {
        return r;
    }
    if str_eq(command[0].as_str(), expected) {
        r.push(replacement.to_owned());
    } else {
        r.push(command[0].clone());
    }
    for i in 1..command.len()
        invariant
            1 <= r@.len() == i <= command@.len(),
            forall|j: int| 1 <= j < i ==> r@[j] == command@[j],
            command@.len() > 0 ==> {
                if vstd::utf8::encode_utf8(command@[0]@) == expected.spec_bytes() {
                    r@[0]@ == replacement@
                } else {
                    r@[0] == command@[0]
                }
            },
    {
        r.push(command[i].clone());
    }
    r
}

// Console token sets per implementation, mirrored in `tokens` below. Folded
// tokens are matched case-insensitively, raw tokens as they stand. The scan
// is a best-effort compatibility shim for implementations that print no
// structured results, not an authoritative judgement.

pub open spec fn js_pass_raw() -> Seq<Seq<u8>> {
    Seq::<Seq<u8>>::empty()
}

pub open spec fn js_pass_folded() -> Seq<Seq<u8>> {
    seq!["passed".spec_bytes()]
}

pub open spec fn js_fail_raw() -> Seq<Seq<u8>> {
    Seq::<Seq<u8>>::empty()
}

pub open spec fn js_fail_folded() -> Seq<Seq<u8>> {
    seq!["failed".spec_bytes(), "error".spec_bytes()]
}

pub open spec fn python_pass_raw() -> Seq<Seq<u8>> {
    seq!["PASSED".spec_bytes()]
}

pub open spec fn python_pass_folded() -> Seq<Seq<u8>> {
    seq!["passed".spec_bytes()]
}

pub open spec fn python_fail_raw() -> Seq<Seq<u8>> {
    seq!["FAILED".spec_bytes()]
}

pub open spec fn python_fail_folded() -> Seq<Seq<u8>> {
    seq!["failed".spec_bytes(), "error".spec_bytes()]
}

pub open spec fn java_pass_raw() -> Seq<Seq<u8>> {
    seq!["SUCCESS".spec_bytes()]
}

pub open spec fn java_pass_folded() -> Seq<Seq<u8>> {
    seq!["passed".spec_bytes()]
}

pub open spec fn java_fail_raw() -> Seq<Seq<u8>> {
    seq!["FAILURE".spec_bytes()]
}

pub open spec fn java_fail_folded() -> Seq<Seq<u8>> {
    seq!["failed".spec_bytes(), "error".spec_bytes()]
}

pub open spec fn csharp_pass_raw() -> Seq<Seq<u8>> {
    seq!["Passed!".spec_bytes()]
}

pub open spec fn csharp_pass_folded() -> Seq<Seq<u8>> {
    seq!["passed".spec_bytes()]
}

pub open spec fn csharp_fail_raw() -> Seq<Seq<u8>> {
    seq!["Failed!".spec_bytes()]
}

pub open spec fn csharp_fail_folded() -> Seq<Seq<u8>> {
    seq!["failed".spec_bytes(), "error".spec_bytes()]
}

pub open spec fn go_pass_raw() -> Seq<Seq<u8>> {
    seq!["PASS".spec_bytes(), "ok".spec_bytes()]
}

pub open spec fn go_pass_folded() -> Seq<Seq<u8>> {
    Seq::<Seq<u8>>::empty()
}

pub open spec fn go_fail_raw() -> Seq<Seq<u8>> {
    seq!["FAIL".spec_bytes()]
}

pub open spec fn go_fail_folded() -> Seq<Seq<u8>> {
    seq!["error".spec_bytes()]
}

pub open spec fn clojure_pass_raw() -> Seq<Seq<u8>> {
    seq!["PASS".spec_bytes(), "passed".spec_bytes()]
}

pub open spec fn clojure_pass_folded() -> Seq<Seq<u8>> {
    Seq::<Seq<u8>>::empty()
}

pub open spec fn clojure_fail_raw() -> Seq<Seq<u8>> {
    seq!["FAIL".spec_bytes(), "failed".spec_bytes()]
}

pub open spec fn clojure_fail_folded() -> Seq<Seq<u8>> {
    seq!["error".spec_bytes()]
}

pub struct JavaScriptRunner {
    pub base: BaseRunner,
}

impl JavaScriptRunner {
    pub fn new() -> (r: Self)
        ensures
            r.base.name@ == "JavaScript"@,
    {
        JavaScriptRunner { base: BaseRunner::new("JavaScript".to_owned()) }
    }

    pub fn name(&self) -> (r: &str)
        ensures
            r@ == self.base.name@,
    {
        self.base.name.as_str()
    }

    /// Best-effort scan of console output for pass and failure signals.
    pub fn parse_test_output(&self, output: &str) -> (r: TestResult)
        ensures
            r.language@ == "javascript"@,
            r.summary.passed == passed_in(
                spec_lines(output.spec_bytes()),
                js_pass_raw(),
                js_pass_folded(),
            ),
            r.summary.total == counted_in(
                spec_lines(output.spec_bytes()),
                js_pass_raw(),
                js_pass_folded(),
                js_fail_raw(),
                js_fail_folded(),
            ),
            r.summary.failed == r.summary.total - r.summary.passed,
            r.summary.errors == 0,
            r.error is None,
            r.wf(),
    {
        let pass_raw: Vec<Vec<u8>> = Vec::new();
        let pass_folded: Vec<Vec<u8>> = vec![tok("passed")];
        let fail_raw: Vec<Vec<u8>> = Vec::new();
        let fail_folded: Vec<Vec<u8>> = vec![tok("failed"), tok("error")];
        proof {
            assert(byte_views(pass_raw@) =~= js_pass_raw());
            assert(byte_views(pass_folded@) =~= js_pass_folded());
            assert(byte_views(fail_raw@) =~= js_fail_raw());
            assert(byte_views(fail_folded@) =~= js_fail_folded());
        }
        let (passed, total) = tally_output(output, &pass_raw, &pass_folded, &fail_raw,
            &fail_folded);
        scan_result("javascript", passed, total)
    }
}

pub struct PythonRunner {
    pub base: BaseRunner,
}

impl PythonRunner {
    pub fn new() -> (r: Self)
        ensures
            r.base.name@ == "Python"@,
    {
        PythonRunner { base: BaseRunner::new("Python".to_owned()) }
    }

    pub fn name(&self) -> (r: &str)
        ensures
            r@ == self.base.name@,
    {
        self.base.name.as_str()
    }

    /// The interpreter this implementation should run with: its local
    /// virtual environment's interpreter when one of the conventional paths
    /// exists, else the system-wide default.
    pub fn get_python_executable(&self, impl_dir: &str, existing_paths: &Vec<String>) -> (r:
        String)
        ensures
            match first_present(
                venv_python_candidates(impl_dir@),
                existing_paths@.map_values(|q: String| q@),
            ) {
                Some(p) => r@ == p,
                None => r@ == "python"@,
            },
    {
        match find_virtual_env_python(impl_dir, existing_paths) {
            Some(p) => p,
            None => "python".to_owned(),
        }
    }

    /// Best-effort scan of console output for pass and failure signals.
    pub fn parse_test_output(&self, output: &str) -> (r: TestResult)
        ensures
            r.language@ == "python"@,
            r.summary.passed == passed_in(
                spec_lines(output.spec_bytes()),
                python_pass_raw(),
                python_pass_folded(),
            ),
            r.summary.total == counted_in(
                spec_lines(output.spec_bytes()),
                python_pass_raw(),
                python_pass_folded(),
                python_fail_raw(),
                python_fail_folded(),
            ),
            r.summary.failed == r.summary.total - r.summary.passed,
            r.summary.errors == 0,
            r.error is None,
            r.wf(),
    {
        let pass_raw: Vec<Vec<u8>> = vec![tok("PASSED")];
        let pass_folded: Vec<Vec<u8>> = vec![tok("passed")];
        let fail_raw: Vec<Vec<u8>> = vec![tok("FAILED")];
        let fail_folded: Vec<Vec<u8>> = vec![tok("failed"), tok("error")];
        proof {
            assert(byte_views(pass_raw@) =~= python_pass_raw());
            assert(byte_views(pass_folded@) =~= python_pass_folded());
            assert(byte_views(fail_raw@) =~= python_fail_raw());
            assert(byte_views(fail_folded@) =~= python_fail_folded());
        }
        let (passed, total) = tally_output(output, &pass_raw, &pass_folded, &fail_raw,
            &fail_folded);
        scan_result("python", passed, total)
    }
}

pub struct JavaRunner {
    pub base: BaseRunner,
}

impl JavaRunner {
    pub fn new() -> (r: Self)
        ensures
            r.base.name@ == "Java"@,
    {
        JavaRunner { base: BaseRunner::new("Java".to_owned()) }
    }

    pub fn name(&self) -> (r: &str)
        ensures
            r@ == self.base.name@,
    {
        self.base.name.as_str()
    }

    /// Best-effort scan of console output for pass and failure signals.
    pub fn parse_test_output(&self, output: &str) -> (r: TestResult)
        ensures
            r.language@ == "java"@,
            r.summary.passed == passed_in(
                spec_lines(output.spec_bytes()),
                java_pass_raw(),
                java_pass_folded(),
            ),
            r.summary.total == counted_in(
                spec_lines(output.spec_bytes()),
                java_pass_raw(),
                java_pass_folded(),
                java_fail_raw(),
                java_fail_folded(),
            ),
            r.summary.failed == r.summary.total - r.summary.passed,
            r.summary.errors == 0,
            r.error is None,
            r.wf(),
    {
        let pass_raw: Vec<Vec<u8>> = vec![tok("SUCCESS")];
        let pass_folded: Vec<Vec<u8>> = vec![tok("passed")];
        let fail_raw: Vec<Vec<u8>> = vec![tok("FAILURE")];
        let fail_folded: Vec<Vec<u8>> = vec![tok("failed"), tok("error")];
        proof {
            assert(byte_views(pass_raw@) =~= java_pass_raw());
            assert(byte_views(pass_folded@) =~= java_pass_folded());
            assert(byte_views(fail_raw@) =~= java_fail_raw());
            assert(byte_views(fail_folded@) =~= java_fail_folded());
        }
        let (passed, total) = tally_output(output, &pass_raw, &pass_folded, &fail_raw,
            &fail_folded);
        scan_result("java", passed, total)
    }
}

pub struct CSharpRunner {
    pub base: BaseRunner,
}

impl CSharpRunner {
    pub fn new() -> (r: Self)
        ensures
            r.base.name@ == "C#"@,
    {
        CSharpRunner { base: BaseRunner::new("C#".to_owned()) }
    }

    pub fn name(&self) -> (r: &str)
        ensures
            r@ == self.base.name@,
    {
        self.base.name.as_str()
    }

    /// Best-effort scan of console output for pass and failure signals.
    pub fn parse_test_output(&self, output: &str) -> (r: TestResult)
        ensures
            r.language@ == "csharp"@,
            r.summary.passed == passed_in(
                spec_lines(output.spec_bytes()),
                csharp_pass_raw(),
                csharp_pass_folded(),
            ),
            r.summary.total == counted_in(
                spec_lines(output.spec_bytes()),
                csharp_pass_raw(),
                csharp_pass_folded(),
                csharp_fail_raw(),
                csharp_fail_folded(),
            ),
            r.summary.failed == r.summary.total - r.summary.passed,
            r.summary.errors == 0,
            r.error is None,
            r.wf(),
    {
        let pass_raw: Vec<Vec<u8>> = vec![tok("Passed!")];
        let pass_folded: Vec<Vec<u8>> = vec![tok("passed")];
        let fail_raw: Vec<Vec<u8>> = vec![tok("Failed!")];
        let fail_folded: Vec<Vec<u8>> = vec![tok("failed"), tok("error")];
        proof {
            assert(byte_views(pass_raw@) =~= csharp_pass_raw());
            assert(byte_views(pass_folded@) =~= csharp_pass_folded());
            assert(byte_views(fail_raw@) =~= csharp_fail_raw());
            assert(byte_views(fail_folded@) =~= csharp_fail_folded());
        }
        let (passed, total) = tally_output(output, &pass_raw, &pass_folded, &fail_raw,
            &fail_folded);
        scan_result("csharp", passed, total)
    }
}

pub struct GoRunner {
    pub base: BaseRunner,
}

impl GoRunner {
    pub fn new() -> (r: Self)
        ensures
            r.base.name@ == "Go"@,
    {
        GoRunner { base: BaseRunner::new("Go".to_owned()) }
    }

    pub fn name(&self) -> (r: &str)
        ensures
            r@ == self.base.name@,
    {
        self.base.name.as_str()
    }

    /// Best-effort scan of console output for pass and failure signals.
    pub fn parse_test_output(&self, output: &str) -> (r: TestResult)
        ensures
            r.language@ == "go"@,
            r.summary.passed == passed_in(
                spec_lines(output.spec_bytes()),
                go_pass_raw(),
                go_pass_folded(),
            ),
            r.summary.total == counted_in(
                spec_lines(output.spec_bytes()),
                go_pass_raw(),
                go_pass_folded(),
                go_fail_raw(),
                go_fail_folded(),
            ),
            r.summary.failed == r.summary.total - r.summary.passed,
            r.summary.errors == 0,
            r.error is None,
            r.wf(),
    {
        let pass_raw: Vec<Vec<u8>> = vec![tok("PASS"), tok("ok")];
        let pass_folded: Vec<Vec<u8>> = Vec::new();
        let fail_raw: Vec<Vec<u8>> = vec![tok("FAIL")];
        let fail_folded: Vec<Vec<u8>> = vec![tok("error")];
        proof {
            assert(byte_views(pass_raw@) =~= go_pass_raw());
            assert(byte_views(pass_folded@) =~= go_pass_folded());
            assert(byte_views(fail_raw@) =~= go_fail_raw());
            assert(byte_views(fail_folded@) =~= go_fail_folded());
        }
        let (passed, total) = tally_output(output, &pass_raw, &pass_folded, &fail_raw,
            &fail_folded);
        scan_result("go", passed, total)
    }
}

pub struct ClojureRunner {
    pub base: BaseRunner,
}

impl ClojureRunner {
    pub fn new() -> (r: Self)
        ensures
            r.base.name@ == "Clojure"@,
    {
        ClojureRunner { base: BaseRunner::new("Clojure".to_owned()) }
    }

    pub fn name(&self) -> (r: &str)
        ensures
            r@ == self.base.name@,
    {
        self.base.name.as_str()
    }

    /// Best-effort scan of console output for pass and failure signals.
    pub fn parse_test_output(&self, output: &str) -> (r: TestResult)
        ensures
            r.language@ == "clojure"@,
            r.summary.passed == passed_in(
                spec_lines(output.spec_bytes()),
                clojure_pass_raw(),
                clojure_pass_folded(),
            ),
            r.summary.total == counted_in(
                spec_lines(output.spec_bytes()),
                clojure_pass_raw(),
                clojure_pass_folded(),
                clojure_fail_raw(),
                clojure_fail_folded(),
            ),
            r.summary.failed == r.summary.total - r.summary.passed,
            r.summary.errors == 0,
            r.error is None,
            r.wf(),
    {
        let pass_raw: Vec<Vec<u8>> = vec![tok("PASS"), tok("passed")];
        let pass_folded: Vec<Vec<u8>> = Vec::new();
        let fail_raw: Vec<Vec<u8>> = vec![tok("FAIL"), tok("failed")];
        let fail_folded: Vec<Vec<u8>> = vec![tok("error")];
        proof {
            assert(byte_views(pass_raw@) =~= clojure_pass_raw());
            assert(byte_views(pass_folded@) =~= clojure_pass_folded());
            assert(byte_views(fail_raw@) =~= clojure_fail_raw());
            assert(byte_views(fail_folded@) =~= clojure_fail_folded());
        }
        let (passed, total) = tally_output(output, &pass_raw, &pass_folded, &fail_raw,
            &fail_folded);
        scan_result("clojure", passed, total)
    }
}

/// The identity key a runner records in its results.
pub open spec fn lang_id(kind: RunnerKind) -> Seq<char> {
    match kind {
        RunnerKind::JavaScript(_) => "javascript"@,
        RunnerKind::Python(_) => "python"@,
        RunnerKind::Java(_) => "java"@,
        RunnerKind::CSharp(_) => "csharp"@,
        RunnerKind::Go(_) => "go"@,
        RunnerKind::Clojure(_) => "clojure"@,
    }
}

/// What the fallback scan of this runner yields for the given console
/// output: its implementation's identity, no top-level error, and the
/// token tallies of its own token sets.
pub open spec fn fallback_spec(kind: RunnerKind, out: Seq<u8>, r: TestResult) -> bool {
    &&& r.language@ == lang_id(kind)
    &&& r.error is None
    &&& r.summary.failed == r.summary.total - r.summary.passed
    &&& r.summary.errors == 0
    &&& match kind {
        RunnerKind::JavaScript(_) => r.summary.passed == passed_in(
            spec_lines(out),
            js_pass_raw(),
            js_pass_folded(),
        ) && r.summary.total == counted_in(
            spec_lines(out),
            js_pass_raw(),
            js_pass_folded(),
            js_fail_raw(),
            js_fail_folded(),
        ),
        RunnerKind::Python(_) => r.summary.passed == passed_in(
            spec_lines(out),
            python_pass_raw(),
            python_pass_folded(),
        ) && r.summary.total == counted_in(
            spec_lines(out),
            python_pass_raw(),
            python_pass_folded(),
            python_fail_raw(),
            python_fail_folded(),
        ),
        RunnerKind::Java(_) => r.summary.passed == passed_in(
            spec_lines(out),
            java_pass_raw(),
            java_pass_folded(),
        ) && r.summary.total == counted_in(
            spec_lines(out),
            java_pass_raw(),
            java_pass_folded(),
            java_fail_raw(),
            java_fail_folded(),
        ),
        RunnerKind::CSharp(_) => r.summary.passed == passed_in(
            spec_lines(out),
            csharp_pass_raw(),
            csharp_pass_folded(),
        ) && r.summary.total == counted_in(
            spec_lines(out),
            csharp_pass_raw(),
            csharp_pass_folded(),
            csharp_fail_raw(),
            csharp_fail_folded(),
        ),
        RunnerKind::Go(_) => r.summary.passed == passed_in(
            spec_lines(out),
            go_pass_raw(),
            go_pass_folded(),
        ) && r.summary.total == counted_in(
            spec_lines(out),
            go_pass_raw(),
            go_pass_folded(),
            go_fail_raw(),
            go_fail_folded(),
        ),
        RunnerKind::Clojure(_) => r.summary.passed == passed_in(
            spec_lines(out),
            clojure_pass_raw(),
            clojure_pass_folded(),
        ) && r.summary.total == counted_in(
            spec_lines(out),
            clojure_pass_raw(),
            clojure_pass_folded(),
            clojure_fail_raw(),
            clojure_fail_folded(),
        ),
    }
}

/// One variant per supported implementation identity.
pub enum RunnerKind {
    JavaScript(JavaScriptRunner),
    Python(PythonRunner),
    Java(JavaRunner),
    CSharp(CSharpRunner),
    Go(GoRunner),
    Clojure(ClojureRunner),
}

impl RunnerKind {
    /// The display name of this runner's implementation.
    pub fn name(&self) -> (r: &str)
        ensures
            match self {
                RunnerKind::JavaScript(x) => r@ == x.base.name@,
                RunnerKind::Python(x) => r@ == x.base.name@,
                RunnerKind::Java(x) => r@ == x.base.name@,
                RunnerKind::CSharp(x) => r@ == x.base.name@,
                RunnerKind::Go(x) => r@ == x.base.name@,
                RunnerKind::Clojure(x) => r@ == x.base.name@,
            },
    {
        match self {
            RunnerKind::JavaScript(x) => x.name(),
            RunnerKind::Python(x) => x.name(),
            RunnerKind::Java(x) => x.name(),
            RunnerKind::CSharp(x) => x.name(),
            RunnerKind::Go(x) => x.name(),
            RunnerKind::Clojure(x) => x.name(),
        }
    }

    /// Best-effort scan of console output with this runner's token sets.
    pub fn parse_test_output(&self, output: &str) -> (r: TestResult)
        ensures
            fallback_spec(*self, output.spec_bytes(), r),
            r.wf(),
    {
        match self {
            RunnerKind::JavaScript(x) => x.parse_test_output(output),
            RunnerKind::Python(x) => x.parse_test_output(output),
            RunnerKind::Java(x) => x.parse_test_output(output),
            RunnerKind::CSharp(x) => x.parse_test_output(output),
            RunnerKind::Go(x) => x.parse_test_output(output),
            RunnerKind::Clojure(x) => x.parse_test_output(output),
        }
    }

    fn base(&self) -> &BaseRunner {
        match self {
            RunnerKind::JavaScript(x) => &x.base,
            RunnerKind::Python(x) => &x.base,
            RunnerKind::Java(x) => &x.base,
            RunnerKind::CSharp(x) => &x.base,
            RunnerKind::Go(x) => &x.base,
            RunnerKind::Clojure(x) => &x.base,
        }
    }

    fn id(&self) -> (r: &str)
        ensures
            r@ == lang_id(*self),
    {
        match self {
            RunnerKind::JavaScript(_) => "javascript",
            RunnerKind::Python(_) => "python",
            RunnerKind::Java(_) => "java",
            RunnerKind::CSharp(_) => "csharp",
            RunnerKind::Go(_) => "go",
            RunnerKind::Clojure(_) => "clojure",
        }
    }

    /// The test result of one run, decided from what the run produced: a
    /// failing test command yields an error result (never a harness
    /// failure); a structured result found by the resolver is authoritative;
    /// with neither, the console output is scanned as a best effort.
    pub fn finish_test_run(
        &self,
        exit_ok: bool,
        stderr: &str,
        structured: Option<TestResult>,
        stdout: &str,
    ) -> (r: TestResult)
        requires
            structured matches Some(s) ==> s.wf(),
        ensures
            r.wf(),
            !exit_ok ==> {
                &&& r.language@ == lang_id(*self)
                &&& r.error matches Some(e) && e@ == stderr@
                &&& r.summary.total == 1 && r.summary.errors == 1
                &&& r.summary.passed == 0 && r.summary.failed == 0
                &&& r.tests@.len() == 0
            },
            exit_ok && structured is Some ==> r == structured->0,
            exit_ok && structured is None ==> fallback_spec(*self, stdout.spec_bytes(), r),
    {
        if !exit_ok {
            self.base().create_error_test_result(self.id(), stderr)
        } else {
            match structured {
                Some(result) => result,
                None => self.parse_test_output(stdout),
            }
        }
    }

    /// The benchmark result of one run: a failing benchmark command yields
    /// an error result; a structured result is authoritative; with neither
    /// there is nothing to scan, so the missing file is recorded as the
    /// error.
    pub fn finish_benchmark_run(
        &self,
        exit_ok: bool,
        stderr: &str,
        structured: Option<BenchmarkResult>,
    ) -> (r: BenchmarkResult)
        requires
            structured matches Some(s) ==> s.wf(),
        ensures
            r.wf(),
            !exit_ok ==> {
                &&& r.language@ == lang_id(*self)
                &&& r.error matches Some(e) && e@ == stderr@
                &&& r.benchmarks@.len() == 0
                &&& r.summary == (crate::results::BenchmarkSummary {
                    total_cases: 0,
                    total_iterations: 0,
                    total_time_ms: 0,
                    avg_time_per_case_ms: 0,
                })
            },
            exit_ok && structured is Some ==> r == structured->0,
            exit_ok && structured is None ==> {
                &&& r.language@ == lang_id(*self)
                &&& r.error matches Some(e) && e@ == "No results file generated"@
                &&& r.benchmarks@.len() == 0
                &&& r.summary == (crate::results::BenchmarkSummary {
                    total_cases: 0,
                    total_iterations: 0,
                    total_time_ms: 0,
                    avg_time_per_case_ms: 0,
                })
            },
    {
        if !exit_ok {
            self.base().create_error_benchmark_result(self.id(), stderr)
        } else {
            match structured {
                Some(result) => result,
                None => self.base().create_error_benchmark_result(
                    self.id(),
                    "No results file generated",
                ),
            }
        }
    }
}

/// The identities a runner exists for.
pub open spec fn is_supported_language(lang: Seq<u8>) -> bool {
    ||| lang == "javascript".spec_bytes()
    ||| lang == "python".spec_bytes()
    ||| lang == "java".spec_bytes()
    ||| lang == "csharp".spec_bytes()
    ||| lang == "go".spec_bytes()
    ||| lang == "clojure".spec_bytes()
}

/// Whether a runner exists for this identity.
pub fn supported_language(language: &str) -> (r: bool)
    ensures
        r == is_supported_language(language.spec_bytes()),
{
    str_eq(language, "javascript") || str_eq(language, "python") || str_eq(language, "java")
        || str_eq(language, "csharp") || str_eq(language, "go") || str_eq(language, "clojure")
}

/// The runner for one implementation identity. New identities register a
/// new variant here; shared logic never branches on identity strings.
pub fn create_runner(language: &str) -> (r: RunnerKind)
    requires
        is_supported_language(language.spec_bytes()),
    ensures
        match r {
            RunnerKind::JavaScript(_) => language.spec_bytes() == "javascript".spec_bytes(),
            RunnerKind::Python(_) => language.spec_bytes() == "python".spec_bytes(),
            RunnerKind::Java(_) => language.spec_bytes() == "java".spec_bytes(),
            RunnerKind::CSharp(_) => language.spec_bytes() == "csharp".spec_bytes(),
            RunnerKind::Go(_) => language.spec_bytes() == "go".spec_bytes(),
            RunnerKind::Clojure(_) => language.spec_bytes() == "clojure".spec_bytes(),
        },
{
    if str_eq(language, "javascript") {
        RunnerKind::JavaScript(JavaScriptRunner::new())
    } else if str_eq(language, "python") {
        RunnerKind::Python(PythonRunner::new())
    } else if str_eq(language, "java") {
        RunnerKind::Java(JavaRunner::new())
    } else if str_eq(language, "csharp") {
        RunnerKind::CSharp(CSharpRunner::new())
    } else if str_eq(language, "go") {
        RunnerKind::Go(GoRunner::new())
    } else {
        RunnerKind::Clojure(ClojureRunner::new())
    }
}

} // verus!
