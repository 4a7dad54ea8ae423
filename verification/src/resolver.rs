//! The result resolver: picks result files by the naming convention, reads
//! structured results out of their JSON text, and hands back the first
//! candidate that conforms to the handoff schema. Malformed candidates are
//! skipped silently; "not found" comes back exactly when no candidate
//! conforms, and the caller then falls back to the console-output scan
//! (see `runners`).
//!
//! Parsing is serde_json's work behind one trusted boundary, which converts
//! the parsed document into the library's own `Json` model, named by
//! `json_doc_of`. Everything after that line is verified: the conformance
//! judgement and the extracted record are exact functions of the parsed
//! document.

use vstd::prelude::*;
use vstd::string::StringSliceAdditionalSpecFns;
use vstd::string::StringExecFns;
use crate::results::{
    TestResult, TestCaseResult, TestSummary, BenchmarkResult, BenchmarkCaseResult,
    ExecutionTiming, ResultMetadata, MAX_TOTAL_TIME_MS, RUNNER_VERSION, FORMAT_VERSION,
};
use crate::stats::{MAX_SAMPLES, MAX_SAMPLE_MS, all_bounded};
use crate::utils::SystemInfo;
use crate::strutil::{spec_starts_with, spec_ends_with, starts_with_bytes, ends_with_bytes,
    str_eq, str_eq_view};

verus! {

/// One parsed JSON document, modelled with plain values. `text` holds the
/// node rendered back as JSON text, so a value the harness records without
/// interpreting (a test case's expected value) can be kept verbatim.
#[derive(Debug)]
pub struct Json {
    pub text: String,
    pub node: JsonNode,
}

/// The node itself. A number carries its value exactly when it is a
/// non-negative integer that fits 64 bits — the only numbers the handoff
/// schema admits; object members keep their document order.
#[derive(Debug)]
pub enum JsonNode {
    Null,
    Bool(bool),
    Num(Option<u64>),
    Str(String),
    Arr(Vec<Json>),
    Obj(Vec<(String, Json)>),
}

#[verifier::external_type_specification]
#[verifier::external_body]
pub struct ExValue(serde_json::Value);

/// What parsing yields for a given text: `None` for text that is not
/// well-formed JSON, else the document. Parsing is a function of the text
/// alone, so the result bears a name; `parse_json` returns it.
pub uninterp spec fn json_doc_of(s: Seq<char>) -> Option<Json>;

/// Converts a parsed document into the library's model, variant by
/// variant.
///
/// Relies on serde_json::to_string for each node's text (it cannot fail on
/// a `Value`: every object key is a string) and on
/// serde_json::Number::as_u64 for the numbers the schema admits.
#[verifier::external_body]
fn json_of_value(v: &serde_json::Value) -> Json {
    let text = match serde_json::to_string(v) {
        Ok(s) => s,
        Err(_) => String::new(),
    };
    let node = match v {
        serde_json::Value::Null => JsonNode::Null,
        serde_json::Value::Bool(b) => JsonNode::Bool(*b),
        serde_json::Value::Number(n) => JsonNode::Num(n.as_u64()),
        serde_json::Value::String(s) => JsonNode::Str(s.clone()),
        serde_json::Value::Array(a) => JsonNode::Arr(a.iter().map(json_of_value).collect()),
        serde_json::Value::Object(o) => JsonNode::Obj(
            o.iter().map(|(k, x)| (k.clone(), json_of_value(x))).collect(),
        ),
    };
    Json { text, node }
}

/// Relies on serde_json::from_str::<serde_json::Value>: `Some` only for
/// well-formed JSON text (within serde_json's nesting limit). The document
/// is handed over as the library's own model, so everything read out of it
/// afterwards is verified.
#[verifier::external_body]
pub(crate) fn parse_json(s: &str) -> (r: Option<Json>)
    ensures
        r == json_doc_of(s@),
{
    match serde_json::from_str::<serde_json::Value>(s) {
        Ok(v) => Some(json_of_value(&v)),
        Err(_) => None,
    }
}

/// The first member of an object's field list stored under this name.
pub open spec fn spec_obj_get(fields: Seq<(String, Json)>, key: Seq<char>) -> Option<Json>
    decreases fields.len(),
{
    if fields.len() == 0 {
        None
    } else if fields[0].0@ == key {
        Some(fields[0].1)
    } else {
        spec_obj_get(fields.drop_first(), key)
    }
}

/// The member under this name, when the document is an object holding one.
pub open spec fn spec_get(j: Json, key: Seq<char>) -> Option<Json> {
    match j.node {
        JsonNode::Obj(fields) => spec_obj_get(fields@, key),
        _ => None,
    }
}

/// The text, when the document is a string.
pub open spec fn spec_str_of(j: Json) -> Option<String> {
    match j.node {
        JsonNode::Str(s) => Some(s),
        _ => None,
    }
}

/// The number, when the document is a non-negative integer that fits.
pub open spec fn spec_u64_of(j: Json) -> Option<u64> {
    match j.node {
        JsonNode::Num(v) => v,
        _ => None,
    }
}

/// The truth value, when the document is a boolean.
pub open spec fn spec_bool_of(j: Json) -> Option<bool> {
    match j.node {
        JsonNode::Bool(b) => Some(b),
        _ => None,
    }
}

/// The elements, when the document is an array.
pub open spec fn spec_arr_of(j: Json) -> Option<Seq<Json>> {
    match j.node {
        JsonNode::Arr(items) => Some(items@),
        _ => None,
    }
}

/// The string under `key`, when the object holds one there.
pub open spec fn spec_get_str(j: Json, key: Seq<char>) -> Option<String> {
    match spec_get(j, key) {
        Some(f) => spec_str_of(f),
        None => None,
    }
}

/// The number under `key`, when the object holds one there.
pub open spec fn spec_get_u64(j: Json, key: Seq<char>) -> Option<u64> {
    match spec_get(j, key) {
        Some(f) => spec_u64_of(f),
        None => None,
    }
}

/// The member under `key`, when the document is an object holding one.
pub(crate) fn json_get<'a>(j: &'a Json, key: &str) -> (r: Option<&'a Json>)
    ensures
        match r {
            Some(v) => spec_get(*j, key@) == Some(*v),
            None => spec_get(*j, key@) is None,
        },
{
    match &j.node {
        JsonNode::Obj(fields) => {
            proof {
                assert(fields@.skip(0) =~= fields@);
            }
            let n = fields.len();
            for i in 0..n
                invariant
                    n == fields@.len(),
                    j.node matches JsonNode::Obj(f) && f == *fields,
                    spec_obj_get(fields@, key@) == spec_obj_get(
                        fields@.skip(i as int),
                        key@,
                    ),
            {
                proof {
                    assert(fields@.skip(i as int)[0] == fields@[i as int]);
                    assert(fields@.skip(i as int).drop_first() =~= fields@.skip(i + 1));
                }
                if str_eq_view(fields[i].0.as_str(), key) {
                    return Some(&fields[i].1);
                }
            }
            proof {
                assert(fields@.skip(n as int) =~= Seq::<(String, Json)>::empty());
            }
            None
        },
        _ => None,
    }
}

/// The text, when the document is a string.
pub(crate) fn json_as_str(j: &Json) -> (r: Option<String>)
    ensures
        r == spec_str_of(*j),
{
    match &j.node {
        JsonNode::Str(s) => Some(s.clone()),
        _ => None,
    }
}

/// The number, when the document is a non-negative integer that fits.
pub(crate) fn json_as_u64(j: &Json) -> (r: Option<u64>)
    ensures
        r == spec_u64_of(*j),
{
    match &j.node {
        JsonNode::Num(v) => *v,
        _ => None,
    }
}

/// The truth value, when the document is a boolean.
pub(crate) fn json_as_bool(j: &Json) -> (r: Option<bool>)
    ensures
        r == spec_bool_of(*j),
{
    match &j.node {
        JsonNode::Bool(b) => Some(*b),
        _ => None,
    }
}

/// The elements, when the document is an array.
pub(crate) fn json_as_array<'a>(j: &'a Json) -> (r: Option<&'a Vec<Json>>)
    ensures
        match r {
            Some(v) => spec_arr_of(*j) == Some(v@),
            None => spec_arr_of(*j) is None,
        },
{
    match &j.node {
        JsonNode::Arr(items) => Some(items),
        _ => None,
    }
}

/// The node's verbatim JSON text.
pub(crate) fn json_text(j: &Json) -> (r: String)
    ensures
        r == j.text,
{
    j.text.clone()
}

/// The number as a `usize`, when it fits.
fn u64_to_usize(x: u64) -> (r: Option<usize>)
    ensures
        r is Some <==> x <= usize::MAX,
        r is Some ==> r->0 == x,
{
    if x <= usize::MAX as u64 {
        Some(x as usize)
    } else {
        None
    }
}

/// The string under `key`, when the object holds one there.
pub(crate) fn get_string(j: &Json, key: &str) -> (r: Option<String>)
    ensures
        r == spec_get_str(*j, key@),
{
    match json_get(j, key) {
        Some(f) => json_as_str(f),
        None => None,
    }
}

/// The number under `key`, when the object holds one there.
pub(crate) fn get_u64(j: &Json, key: &str) -> (r: Option<u64>)
    ensures
        r == spec_get_u64(*j, key@),
{
    match json_get(j, key) {
        Some(f) => json_as_u64(f),
        None => None,
    }
}

/// The wall-clock breakdown a `timing` object describes; every field is
/// required.
pub open spec fn spec_timing_of(j: Json) -> Option<ExecutionTiming> {
    if spec_get_u64(j, "setup_time_ms"@) is Some && spec_get_u64(j, "execution_time_ms"@)
        is Some && spec_get_u64(j, "teardown_time_ms"@) is Some && spec_get_u64(
        j,
        "total_time_ms"@,
    ) is Some {
        Some(
            ExecutionTiming {
                setup_time_ms: spec_get_u64(j, "setup_time_ms"@)->0,
                execution_time_ms: spec_get_u64(j, "execution_time_ms"@)->0,
                teardown_time_ms: spec_get_u64(j, "teardown_time_ms"@)->0,
                total_time_ms: spec_get_u64(j, "total_time_ms"@)->0,
            },
        )
    } else {
        None
    }
}

fn timing_from_json(j: &Json) -> (r: Option<ExecutionTiming>)
    ensures
        r == spec_timing_of(*j),
{
    let setup_time_ms = get_u64(j, "setup_time_ms")?;
    let execution_time_ms = get_u64(j, "execution_time_ms")?;
    let teardown_time_ms = get_u64(j, "teardown_time_ms")?;
    let total_time_ms = get_u64(j, "total_time_ms")?;
    Some(ExecutionTiming { setup_time_ms, execution_time_ms, teardown_time_ms, total_time_ms })
}

/// The machine snapshot a `system_info` object describes; every field is
/// required, and the processor count must fit the machine.
pub open spec fn spec_system_info_of(j: Json) -> Option<SystemInfo> {
    if spec_get_str(j, "os"@) is Some && spec_get_str(j, "arch"@) is Some && (spec_get_u64(
        j,
        "cpu_count"@,
    ) matches Some(c) && c <= usize::MAX) && spec_get_u64(j, "total_memory"@) is Some
        && spec_get_u64(j, "available_memory"@) is Some {
        Some(
            SystemInfo {
                os: spec_get_str(j, "os"@)->0,
                arch: spec_get_str(j, "arch"@)->0,
                cpu_count: spec_get_u64(j, "cpu_count"@)->0 as usize,
                total_memory: spec_get_u64(j, "total_memory"@)->0,
                available_memory: spec_get_u64(j, "available_memory"@)->0,
            },
        )
    } else {
        None
    }
}

fn system_info_from_json(j: &Json) -> (r: Option<SystemInfo>)
    ensures
        r == spec_system_info_of(*j),
{
    let os = get_string(j, "os")?;
    let arch = get_string(j, "arch")?;
    let cpu_count = u64_to_usize(get_u64(j, "cpu_count")?)?;
    let total_memory = get_u64(j, "total_memory")?;
    let available_memory = get_u64(j, "available_memory")?;
    Some(SystemInfo { os, arch, cpu_count, total_memory, available_memory })
}

/// The string under `key` when a string stands there, else `None` — an
/// absent member and a present non-string member both read as absent.
pub open spec fn spec_opt_str(j: Json, key: Seq<char>) -> Option<String> {
    match spec_get(j, key) {
        Some(f) => spec_str_of(f),
        None => None,
    }
}

/// The test case a `tests` entry describes: name, file, verdict and time
/// are required; the expected value is kept as its verbatim JSON text; the
/// actual value and the error text are optional.
pub open spec fn spec_case_of(j: Json) -> Option<TestCaseResult> {
    if spec_get_str(j, "name"@) is Some && spec_get_str(j, "file"@) is Some && (spec_get(
        j,
        "passed"@,
    ) matches Some(p) && spec_bool_of(p) is Some) && spec_get_u64(j, "execution_time_ms"@)
        is Some && spec_get(j, "expected"@) is Some {
        Some(
            TestCaseResult {
                name: spec_get_str(j, "name"@)->0,
                file: spec_get_str(j, "file"@)->0,
                passed: spec_bool_of(spec_get(j, "passed"@)->0)->0,
                execution_time_ms: spec_get_u64(j, "execution_time_ms"@)->0,
                expected: spec_get(j, "expected"@)->0.text,
                actual: match spec_get(j, "actual"@) {
                    Some(f) => Some(f.text),
                    None => None,
                },
                error: spec_opt_str(j, "error"@),
            },
        )
    } else {
        None
    }
}

fn test_case_from_json(j: &Json) -> (r: Option<TestCaseResult>)
    ensures
        r == spec_case_of(*j),
{
    let name = get_string(j, "name")?;
    let file = get_string(j, "file")?;
    let passed = match json_get(j, "passed") {
        Some(f) => json_as_bool(f)?,
        None => {
            return None;
        },
    };
    let execution_time_ms = get_u64(j, "execution_time_ms")?;
    let expected = match json_get(j, "expected") {
        Some(f) => json_text(f),
        None => {
            return None;
        },
    };
    let actual = match json_get(j, "actual") {
        Some(f) => Some(json_text(f)),
        None => None,
    };
    let error = match json_get(j, "error") {
        Some(f) => json_as_str(f),
        None => None,
    };
    Some(TestCaseResult { name, file, passed, execution_time_ms, expected, actual, error })
}

/// The cases a `tests` array describes, in order; `None` when any entry
/// does not conform.
pub open spec fn spec_cases_of(items: Seq<Json>) -> Option<Seq<TestCaseResult>>
    decreases items.len(),
{
    if items.len() == 0 {
        Some(Seq::empty())
    } else {
        match spec_cases_of(items.drop_last()) {
            None => None,
            Some(rest) => match spec_case_of(items.last()) {
                None => None,
                Some(c) => Some(rest.push(c)),
            },
        }
    }
}

proof fn lemma_cases_none(items: Seq<Json>, i: int)
    requires
        0 <= i < items.len(),
        spec_case_of(items[i]) is None,
    ensures
        spec_cases_of(items) is None,
    decreases items.len(),
{
    if i < items.len() - 1 {
        lemma_cases_none(items.drop_last(), i);
    }
}

/// The roll-up a `summary` object describes. A document whose counts do
/// not add up does not conform and is rejected.
pub open spec fn spec_summary_of(j: Json) -> Option<TestSummary> {
    if (spec_get_u64(j, "total"@) matches Some(t) && t <= usize::MAX) && (spec_get_u64(
        j,
        "passed"@,
    ) matches Some(p) && p <= usize::MAX) && (spec_get_u64(j, "failed"@) matches Some(f) && f
        <= usize::MAX) && (spec_get_u64(j, "errors"@) matches Some(e) && e <= usize::MAX)
        && spec_get_u64(j, "execution_time_ms"@) is Some && spec_get_u64(j, "passed"@)->0
        + spec_get_u64(j, "failed"@)->0 + spec_get_u64(j, "errors"@)->0 == spec_get_u64(
        j,
        "total"@,
    )->0 {
        Some(
            TestSummary {
                total: spec_get_u64(j, "total"@)->0 as usize,
                passed: spec_get_u64(j, "passed"@)->0 as usize,
                failed: spec_get_u64(j, "failed"@)->0 as usize,
                errors: spec_get_u64(j, "errors"@)->0 as usize,
                execution_time_ms: spec_get_u64(j, "execution_time_ms"@)->0,
            },
        )
    } else {
        None
    }
}

fn test_summary_from_json(j: &Json) -> (r: Option<TestSummary>)
    ensures
        r == spec_summary_of(*j),
        r matches Some(s) ==> s.wf(),
{
    let total = u64_to_usize(get_u64(j, "total")?)?;
    let passed = u64_to_usize(get_u64(j, "passed")?)?;
    let failed = u64_to_usize(get_u64(j, "failed")?)?;
    let errors = u64_to_usize(get_u64(j, "errors")?)?;
    let execution_time_ms = get_u64(j, "execution_time_ms")?;
    if passed <= total && failed <= total - passed && errors == total - passed - failed {
        Some(TestSummary { total, passed, failed, errors, execution_time_ms })
    } else {
        None
    }
}

/// The metadata every result built here carries: this harness's versions,
/// no environment snapshot, no command line.
pub open spec fn fresh_metadata(m: ResultMetadata) -> bool {
    &&& m.runner_version@ == RUNNER_VERSION@
    &&& m.format_version@ == FORMAT_VERSION@
    &&& m.environment@.len() == 0
    &&& m.command_line@.len() == 0
}

/// The text conforms to the test-result handoff schema: well-formed JSON
/// carrying id, language, timestamp, execution time, timing, system info,
/// a consistent summary, metadata, and a list of conforming cases.
pub open spec fn test_result_conforms(s: Seq<char>) -> bool {
    match json_doc_of(s) {
        None => false,
        Some(doc) => {
            &&& spec_get_str(doc, "id"@) is Some
            &&& spec_get_str(doc, "language"@) is Some
            &&& spec_get_str(doc, "timestamp"@) is Some
            &&& spec_get_u64(doc, "execution_time_ms"@) is Some
            &&& (spec_get(doc, "timing"@) matches Some(t) && spec_timing_of(t) is Some)
            &&& (spec_get(doc, "system_info"@) matches Some(i) && spec_system_info_of(i)
                is Some)
            &&& (spec_get(doc, "summary"@) matches Some(m) && spec_summary_of(m) is Some)
            &&& spec_get(doc, "metadata"@) is Some
            &&& (spec_get(doc, "tests"@) matches Some(a) && spec_arr_of(a) matches Some(items)
                && spec_cases_of(items) is Some)
        },
    }
}

/// The record a conforming text yields: every field is the corresponding
/// piece of the parsed document; process statistics are absent and the
/// metadata is this harness's own.
pub open spec fn test_result_matches(s: Seq<char>, t: TestResult) -> bool
    recommends
        test_result_conforms(s),
{
    let doc = json_doc_of(s)->0;
    &&& Some(t.id) == spec_get_str(doc, "id"@)
    &&& Some(t.language) == spec_get_str(doc, "language"@)
    &&& Some(t.timestamp) == spec_get_str(doc, "timestamp"@)
    &&& Some(t.execution_time_ms) == spec_get_u64(doc, "execution_time_ms"@)
    &&& Some(t.timing) == spec_timing_of(spec_get(doc, "timing"@)->0)
    &&& Some(t.system_info) == spec_system_info_of(spec_get(doc, "system_info"@)->0)
    &&& Some(t.summary) == spec_summary_of(spec_get(doc, "summary"@)->0)
    &&& Some(t.tests@) == spec_cases_of(spec_arr_of(spec_get(doc, "tests"@)->0)->0)
    &&& t.process_stats is None
    &&& fresh_metadata(t.metadata)
    &&& t.error == (match spec_get(doc, "error"@) {
        Some(f) => spec_str_of(f),
        None => None,
    })
}

/// A whole test result out of one candidate's JSON text: `Some` exactly
/// when the text conforms to the handoff schema, and then the record read
/// out of it.
pub fn test_result_from_json(text: &str) -> (r: Option<TestResult>)
    ensures
        r is Some <==> test_result_conforms(text@),
        r matches Some(t) ==> test_result_matches(text@, t) && t.wf(),
{
    let doc = parse_json(text)?;
    let id = get_string(&doc, "id")?;
    let language = get_string(&doc, "language")?;
    let timestamp = get_string(&doc, "timestamp")?;
    let execution_time_ms = get_u64(&doc, "execution_time_ms")?;
    let timing = match json_get(&doc, "timing") {
        Some(f) => timing_from_json(f)?,
        None => {
            return None;
        },
    };
    let system_info = match json_get(&doc, "system_info") {
        Some(f) => system_info_from_json(f)?,
        None => {
            return None;
        },
    };
    let summary = match json_get(&doc, "summary") {
        Some(f) => test_summary_from_json(f)?,
        None => {
            return None;
        },
    };
    if json_get(&doc, "metadata").is_none() {
        return None;
    }
    let cases = match json_get(&doc, "tests") {
        Some(f) => json_as_array(f)?,
        None => {
            return None;
        },
    };
    let mut tests: Vec<TestCaseResult> = Vec::new();
    proof {
        assert(cases@.subrange(0, 0) =~= Seq::<Json>::empty());
    }
    #[verifier::loop_isolation(false)]
    for i in 0..cases.len()
        invariant
            spec_cases_of(cases@.subrange(0, i as int)) == Some(tests@),
    {
        proof {
            assert(cases@.subrange(0, i + 1).drop_last() =~= cases@.subrange(0, i as int));
            assert(cases@.subrange(0, i + 1).last() == cases@[i as int]);
        }
        match test_case_from_json(&cases[i]) {
            Some(case) => {
                tests.push(case);
            },
            None => {
                proof {
                    lemma_cases_none(cases@, i as int);
                }
                return None;
            },
        }
    }
    proof {
        assert(cases@.subrange(0, cases@.len() as int) =~= cases@);
    }
    let error = match json_get(&doc, "error") {
        Some(f) => json_as_str(f),
        None => None,
    };
    Some(
        TestResult {
            id,
            language,
            timestamp,
            execution_time_ms,
            timing,
            system_info,
            process_stats: None,
            tests,
            summary,
            metadata: ResultMetadata::empty(),
            error,
        },
    )
}

/// A `benchmarks` entry conforms: name, file, iterations (fitting the
/// machine), total time and the five derived-statistic members are
/// present, the raw samples are few and small enough to aggregate exactly,
/// and the optional warmup count fits.
pub open spec fn bench_case_conforms(j: Json) -> bool {
    &&& spec_get_str(j, "name"@) is Some
    &&& spec_get_str(j, "file"@) is Some
    &&& (spec_get_u64(j, "iterations"@) matches Some(n) && n <= usize::MAX)
    &&& spec_get_u64(j, "total_time_ms"@) is Some
    &&& spec_get(j, "avg_time_ms"@) is Some
    &&& spec_get(j, "median_time_ms"@) is Some
    &&& spec_get(j, "min_time_ms"@) is Some
    &&& spec_get(j, "max_time_ms"@) is Some
    &&& spec_get(j, "std_dev_ms"@) is Some
    &&& (spec_get(j, "times"@) matches Some(t) && spec_arr_of(t) matches Some(entries)
        && spec_times_of(entries) matches Some(times) && times.len() <= MAX_SAMPLES
        && all_bounded(times))
    &&& (match spec_get(j, "warmup_iterations"@) {
        Some(f) => spec_u64_of(f) matches Some(w) && w <= usize::MAX,
        None => true,
    })
}

/// The samples a `times` array holds, in order; `None` when any entry is
/// not a number the schema admits.
pub open spec fn spec_times_of(items: Seq<Json>) -> Option<Seq<u64>>
    decreases items.len(),
{
    if items.len() == 0 {
        Some(Seq::empty())
    } else {
        match spec_times_of(items.drop_last()) {
            None => None,
            Some(rest) => match spec_u64_of(items.last()) {
                None => None,
                Some(t) => Some(rest.push(t)),
            },
        }
    }
}

proof fn lemma_times_none(items: Seq<Json>, i: int)
    requires
        0 <= i < items.len(),
        spec_u64_of(items[i]) is None,
    ensures
        spec_times_of(items) is None,
    decreases items.len(),
{
    if i < items.len() - 1 {
        lemma_times_none(items.drop_last(), i);
    }
}

proof fn lemma_times_index(items: Seq<Json>, i: int)
    requires
        0 <= i < items.len(),
        spec_times_of(items) is Some,
    ensures
        spec_times_of(items)->0.len() == items.len(),
        spec_u64_of(items[i]) is Some,
        spec_times_of(items)->0[i] == spec_u64_of(items[i])->0,
    decreases items.len(),
{
    let rest = spec_times_of(items.drop_last());
    let v = spec_u64_of(items.last());
    assert(rest is Some && v is Some);
    assert(spec_times_of(items)->0 == rest->0.push(v->0));
    if items.len() > 1 {
        if i < items.len() - 1 {
            lemma_times_index(items.drop_last(), i);
        } else {
            lemma_times_index(items.drop_last(), 0);
        }
    } else {
        assert(items.drop_last().len() == 0);
        assert(rest->0.len() == 0);
    }
    assert(spec_times_of(items)->0.len() == rest->0.len() + 1);
}

/// The raw samples of a conforming `benchmarks` entry.
pub open spec fn spec_case_times(j: Json) -> Seq<u64>
    recommends
        bench_case_conforms(j),
{
    spec_times_of(spec_arr_of(spec_get(j, "times"@)->0)->0)->0
}

/// The case a conforming `benchmarks` entry yields. The raw samples are
/// the source of truth: every derived statistic is recomputed from them,
/// so `c.wf()` holds of what comes back.
pub open spec fn bench_case_matches(j: Json, c: BenchmarkCaseResult) -> bool
    recommends
        bench_case_conforms(j),
{
    &&& Some(c.name) == spec_get_str(j, "name"@)
    &&& Some(c.file) == spec_get_str(j, "file"@)
    &&& Some(c.iterations as u64) == spec_get_u64(j, "iterations"@)
    &&& Some(c.total_time_ms) == spec_get_u64(j, "total_time_ms"@)
    &&& c.times@ == spec_case_times(j)
    &&& c.warmup_iterations as u64 == (match spec_get(j, "warmup_iterations"@) {
        Some(f) => spec_u64_of(f)->0,
        None => 0u64,
    })
    &&& c.memory_stats is None
    &&& c.error == (match spec_get(j, "error"@) {
        Some(f) => spec_str_of(f),
        None => None,
    })
}

fn benchmark_case_from_json(j: &Json) -> (r: Option<BenchmarkCaseResult>)
    ensures
        r is Some <==> bench_case_conforms(*j),
        r matches Some(c) ==> bench_case_matches(*j, c) && c.wf(),
{
    let name = get_string(j, "name")?;
    let file = get_string(j, "file")?;
    let iterations = u64_to_usize(get_u64(j, "iterations")?)?;
    let total_time_ms = get_u64(j, "total_time_ms")?;
    // the schema's derived members must be present, though their values
    // are recomputed from the samples
    if json_get(j, "avg_time_ms").is_none() || json_get(j, "median_time_ms").is_none()
        || json_get(j, "min_time_ms").is_none() || json_get(j, "max_time_ms").is_none()
        || json_get(j, "std_dev_ms").is_none() {
        return None;
    }
    let samples = match json_get(j, "times") {
        Some(f) => json_as_array(f)?,
        None => {
            return None;
        },
    };
    let mut times: Vec<u64> = Vec::new();
    proof {
        assert(samples@.subrange(0, 0) =~= Seq::<Json>::empty());
    }
    #[verifier::loop_isolation(false)]
    for i in 0..samples.len()
        invariant
            spec_times_of(samples@.subrange(0, i as int)) == Some(times@),
            all_bounded(times@),
    {
        proof {
            assert(samples@.subrange(0, i + 1).drop_last() =~= samples@.subrange(0, i as int));
            assert(samples@.subrange(0, i + 1).last() == samples@[i as int]);
        }
        match json_as_u64(&samples[i]) {
            Some(t) => {
                if t > MAX_SAMPLE_MS {
                    proof {
                        // an over-large sample puts the whole sample list
                        // out of bounds
                        if spec_times_of(samples@) is Some {
                            lemma_times_index(samples@, i as int);
                        }
                    }
                    return None;
                }
                times.push(t);
            },
            None => {
                proof {
                    lemma_times_none(samples@, i as int);
                }
                return None;
            },
        }
    }
    proof {
        assert(samples@.subrange(0, samples@.len() as int) =~= samples@);
    }
    if times.len() > MAX_SAMPLES {
        return None;
    }
    let warmup_iterations = match json_get(j, "warmup_iterations") {
        Some(f) => u64_to_usize(json_as_u64(f)?)?,
        None => 0,
    };
    let error = match json_get(j, "error") {
        Some(f) => json_as_str(f),
        None => None,
    };
    Some(
        BenchmarkCaseResult::from_times(
            name,
            file,
            iterations,
            total_time_ms,
            times,
            warmup_iterations,
            error,
        ),
    )
}

/// Every `benchmarks` entry conforms.
pub open spec fn bench_cases_conform(items: Seq<Json>) -> bool {
    forall|i: int| 0 <= i < items.len() ==> bench_case_conforms(#[trigger] items[i])
}

/// Sum of the iteration counts of conforming entries.
pub open spec fn sum_case_iterations(items: Seq<Json>) -> int
    decreases items.len(),
{
    if items.len() == 0 {
        0
    } else {
        sum_case_iterations(items.drop_last()) + spec_get_u64(items.last(), "iterations"@)->0
    }
}

/// Sum of the total times of conforming entries.
pub open spec fn sum_case_times(items: Seq<Json>) -> int
    decreases items.len(),
{
    if items.len() == 0 {
        0
    } else {
        sum_case_times(items.drop_last()) + spec_get_u64(items.last(), "total_time_ms"@)->0
    }
}

proof fn lemma_case_sums_prefix(items: Seq<Json>, i: int)
    requires
        0 <= i <= items.len(),
        bench_cases_conform(items),
    ensures
        0 <= sum_case_iterations(items.subrange(0, i)) <= sum_case_iterations(items),
        0 <= sum_case_times(items.subrange(0, i)) <= sum_case_times(items),
    decreases items.len(),
{
    if items.len() == 0 {
        assert(items.subrange(0, i) =~= items);
    } else if i == items.len() {
        assert(items.subrange(0, i) =~= items);
        lemma_case_sums_prefix(items.drop_last(), items.len() - 1);
        assert(items.drop_last().subrange(0, items.len() - 1) =~= items.drop_last());
    } else {
        lemma_case_sums_prefix(items.drop_last(), i);
        assert(items.drop_last().subrange(0, i) =~= items.subrange(0, i));
    }
}

/// The text conforms to the benchmark-result handoff schema: well-formed
/// JSON carrying the header fields, summary and metadata members, and a
/// list of conforming cases whose iteration and time totals fit the
/// machine.
pub open spec fn benchmark_result_conforms(s: Seq<char>) -> bool {
    match json_doc_of(s) {
        None => false,
        Some(doc) => {
            &&& spec_get_str(doc, "id"@) is Some
            &&& spec_get_str(doc, "language"@) is Some
            &&& spec_get_str(doc, "timestamp"@) is Some
            &&& (spec_get(doc, "timing"@) matches Some(t) && spec_timing_of(t) is Some)
            &&& (spec_get(doc, "system_info"@) matches Some(i) && spec_system_info_of(i)
                is Some)
            &&& spec_get(doc, "summary"@) is Some
            &&& spec_get(doc, "metadata"@) is Some
            &&& (spec_get(doc, "benchmarks"@) matches Some(a) && spec_arr_of(a) matches Some(
                items,
            ) && bench_cases_conform(items) && sum_case_iterations(items) <= usize::MAX
                && sum_case_times(items) <= MAX_TOTAL_TIME_MS)
        },
    }
}

/// The record a conforming text yields: header fields from the document,
/// one case per entry, and the roll-up summary recomputed from the cases,
/// so it agrees with them by construction.
pub open spec fn benchmark_result_matches(s: Seq<char>, b: BenchmarkResult) -> bool
    recommends
        benchmark_result_conforms(s),
{
    let doc = json_doc_of(s)->0;
    let items = spec_arr_of(spec_get(doc, "benchmarks"@)->0)->0;
    &&& Some(b.id) == spec_get_str(doc, "id"@)
    &&& Some(b.language) == spec_get_str(doc, "language"@)
    &&& Some(b.timestamp) == spec_get_str(doc, "timestamp"@)
    &&& Some(b.timing) == spec_timing_of(spec_get(doc, "timing"@)->0)
    &&& Some(b.system_info) == spec_system_info_of(spec_get(doc, "system_info"@)->0)
    &&& b.benchmarks@.len() == items.len()
    &&& (forall|i: int|
        0 <= i < items.len() ==> bench_case_matches(items[i], #[trigger] b.benchmarks@[i]))
    &&& b.summary.total_cases == items.len()
    &&& b.summary.total_iterations == sum_case_iterations(items)
    &&& b.summary.total_time_ms == sum_case_times(items)
    &&& b.process_stats is None
    &&& fresh_metadata(b.metadata)
    &&& b.error == (match spec_get(doc, "error"@) {
        Some(f) => spec_str_of(f),
        None => None,
    })
}

/// A whole benchmark result out of one candidate's JSON text: `Some`
/// exactly when the text conforms to the handoff schema, and then the
/// record read out of it with its summary recomputed from the cases.
pub fn benchmark_result_from_json(text: &str) -> (r: Option<BenchmarkResult>)
    ensures
        r is Some <==> benchmark_result_conforms(text@),
        r matches Some(b) ==> benchmark_result_matches(text@, b) && b.wf(),
{
    let doc = parse_json(text)?;
    let id = get_string(&doc, "id")?;
    let language = get_string(&doc, "language")?;
    let timestamp = get_string(&doc, "timestamp")?;
    let timing = match json_get(&doc, "timing") {
        Some(f) => timing_from_json(f)?,
        None => {
            return None;
        },
    };
    let system_info = match json_get(&doc, "system_info") {
        Some(f) => system_info_from_json(f)?,
        None => {
            return None;
        },
    };
    if json_get(&doc, "summary").is_none() || json_get(&doc, "metadata").is_none() {
        return None;
    }
    let cases = match json_get(&doc, "benchmarks") {
        Some(f) => json_as_array(f)?,
        None => {
            return None;
        },
    };
    let error = match json_get(&doc, "error") {
        Some(f) => json_as_str(f),
        None => None,
    };
    let mut result = BenchmarkResult {
        id,
        language,
        timestamp,
        timing,
        system_info,
        process_stats: None,
        benchmarks: Vec::new(),
        summary: crate::results::BenchmarkSummary::zero(),
        metadata: ResultMetadata::empty(),
        error,
    };
    proof {
        assert(cases@.subrange(0, 0) =~= Seq::<Json>::empty());
    }
    #[verifier::loop_isolation(false)]
    for i in 0..cases.len()
        invariant
            result.wf(),
            forall|k: int| 0 <= k < i ==> bench_case_conforms(#[trigger] cases@[k]),
            result.benchmarks@.len() == i,
            forall|k: int|
                0 <= k < i ==> bench_case_matches(cases@[k], #[trigger] result.benchmarks@[k])
                    && result.benchmarks@[k].wf(),
            result.summary.total_cases == i,
            result.summary.total_iterations == sum_case_iterations(cases@.subrange(0, i as int)),
            result.summary.total_time_ms == sum_case_times(cases@.subrange(0, i as int)),
            result.summary.total_time_ms <= MAX_TOTAL_TIME_MS,
            result.id == id && result.language == language && result.timestamp == timestamp,
            result.timing == timing && result.system_info == system_info,
            result.process_stats is None,
            fresh_metadata(result.metadata),
            result.error == error,
    {
        proof {
            assert(cases@.subrange(0, i + 1).drop_last() =~= cases@.subrange(0, i as int));
            assert(cases@.subrange(0, i + 1).last() == cases@[i as int]);
        }
        let case = match benchmark_case_from_json(&cases[i]) {
            Some(case) => case,
            None => {
                return None;
            },
        };
        if case.iterations > usize::MAX - result.summary.total_iterations
            || case.total_time_ms > MAX_TOTAL_TIME_MS - result.summary.total_time_ms {
            proof {
                // a prefix already over a limit puts the whole list over it
                if bench_cases_conform(cases@) {
                    lemma_case_sums_prefix(cases@, i + 1);
                    assert(sum_case_iterations(cases@.subrange(0, i + 1))
                        == sum_case_iterations(cases@.subrange(0, i as int)) + spec_get_u64(
                        cases@[i as int],
                        "iterations"@,
                    )->0);
                    assert(sum_case_times(cases@.subrange(0, i + 1)) == sum_case_times(
                        cases@.subrange(0, i as int),
                    ) + spec_get_u64(cases@[i as int], "total_time_ms"@)->0);
                    assert(sum_case_iterations(cases@) > usize::MAX || sum_case_times(cases@)
                        > MAX_TOTAL_TIME_MS);
                }
            }
            return None;
        }
        result.add_benchmark_case(case);
    }
    proof {
        assert(cases@.subrange(0, cases@.len() as int) =~= cases@);
    }
    Some(result)
}

/// The first candidate text that conforms to the test-result schema;
/// "not found" comes back exactly when none conforms, and the caller then
/// falls back to the console scan.
pub fn resolve_test_result(candidates: &Vec<String>) -> (r: Option<TestResult>)
    ensures
        r is None ==> forall|i: int|
            0 <= i < candidates@.len() ==> !test_result_conforms(#[trigger] candidates@[i]@),
        r matches Some(t) ==> t.wf() && exists|i: int|
            0 <= i < candidates@.len() && #[trigger] test_result_conforms(candidates@[i]@)
                && test_result_matches(candidates@[i]@, t) && (forall|j: int|
                0 <= j < i ==> !test_result_conforms(#[trigger] candidates@[j]@)),
{
    for i in 0..candidates.len()
        invariant
            forall|j: int|
                0 <= j < i ==> !test_result_conforms(#[trigger] candidates@[j]@),
    {
        match test_result_from_json(candidates[i].as_str()) {
            Some(result) => {
                return Some(result);
            },
            None => {},
        }
    }
    None
}

/// The first candidate text that conforms to the benchmark-result schema;
/// "not found" comes back exactly when none conforms.
pub fn resolve_benchmark_result(candidates: &Vec<String>) -> (r: Option<BenchmarkResult>)
    ensures
        r is None ==> forall|i: int|
            0 <= i < candidates@.len() ==> !benchmark_result_conforms(#[trigger] candidates@[i]@),
        r matches Some(b) ==> b.wf() && exists|i: int|
            0 <= i < candidates@.len() && #[trigger] benchmark_result_conforms(candidates@[i]@)
                && benchmark_result_matches(candidates@[i]@, b) && (forall|j: int|
                0 <= j < i ==> !benchmark_result_conforms(#[trigger] candidates@[j]@)),
{
    for i in 0..candidates.len()
        invariant
            forall|j: int|
                0 <= j < i ==> !benchmark_result_conforms(#[trigger] candidates@[j]@),
    {
        match benchmark_result_from_json(candidates[i].as_str()) {
            Some(result) => {
                return Some(result);
            },
            None => {},
        }
    }
    None
}

/// Whether a file name belongs to one implementation and one result kind:
/// the current name `{language}_{type}.json`, or a legacy timestamped name
/// `{language}_{type}_{suffix}.json`.
pub open spec fn is_result_file(name: Seq<u8>, language: Seq<u8>, ty: Seq<u8>) -> bool {
    let stem = language + "_".spec_bytes() + ty;
    ||| name == stem + ".json".spec_bytes()
    ||| (spec_starts_with(name, stem + "_".spec_bytes()) && spec_ends_with(
        name,
        ".json".spec_bytes(),
    ))
}

/// The file names that belong to the implementation and result kind, in
/// their given order.
pub open spec fn result_files_of(names: Seq<Seq<u8>>, language: Seq<u8>, ty: Seq<u8>) -> Seq<
    Seq<u8>,
>
    decreases names.len(),
{
    if names.len() == 0 {
        Seq::empty()
    } else {
        let rest = result_files_of(names.drop_last(), language, ty);
        if is_result_file(names.last(), language, ty) {
            rest.push(names.last())
        } else {
            rest
        }
    }
}

/// Selects, from a directory listing, the result files of one
/// implementation and one result kind, current or legacy-timestamped, in
/// the listing's order. By this convention two implementations never share
/// a file.
pub fn match_result_files(filenames: &Vec<String>, language: &str, result_type: &str) -> (r: Vec<
    String,
>)
    ensures
        r@.map_values(|s: String| vstd::utf8::encode_utf8(s@)) == result_files_of(
            filenames@.map_values(|s: String| vstd::utf8::encode_utf8(s@)),
            language.spec_bytes(),
            result_type.spec_bytes(),
        ),
{
    let ghost nviews = filenames@.map_values(|s: String| vstd::utf8::encode_utf8(s@));
    let ghost lang = language.spec_bytes();
    let ghost ty = result_type.spec_bytes();

    let simple = crate::utils::result_filename(language, result_type);
    let mut r: Vec<String> = Vec::new();
    proof {
        assert(nviews.subrange(0, 0) =~= Seq::<Seq<u8>>::empty());
        assert(r@.map_values(|s: String| vstd::utf8::encode_utf8(s@)) =~= Seq::<Seq<u8>>::empty());
    }
    for i in 0..filenames.len()
        invariant
            nviews == filenames@.map_values(|s: String| vstd::utf8::encode_utf8(s@)),
            lang == language.spec_bytes() && ty == result_type.spec_bytes(),
            simple@ == language@ + "_"@ + result_type@ + ".json"@,
            r@.map_values(|s: String| vstd::utf8::encode_utf8(s@)) == result_files_of(
                nviews.subrange(0, i as int),
                lang,
                ty,
            ),
    {
        let name = &filenames[i];
        let ghost pre = r@.map_values(|s: String| vstd::utf8::encode_utf8(s@));
        proof {
            assert(nviews.subrange(0, i + 1).drop_last() =~= nviews.subrange(0, i as int));
            assert(nviews.subrange(0, i + 1).last() == nviews[i as int]);
            lemma_encode_utf8_concat4(language@, "_"@, result_type@, ".json"@);
            lemma_encode_utf8_concat4(language@, "_"@, result_type@, "_"@);
        }
        let mut stem_pat = language.to_owned();
        stem_pat.append("_");
        stem_pat.append(result_type);
        stem_pat.append("_");
        let exact = str_eq(name.as_str(), simple.as_str());
        let legacy = starts_with_bytes(name.as_str().as_bytes(), stem_pat.as_str().as_bytes())
            && ends_with_bytes(name.as_str().as_bytes(), ".json".as_bytes());
        let keep = exact || legacy;
        proof {
            let stem = lang + "_".spec_bytes() + ty;
            assert(vstd::utf8::encode_utf8(simple@) =~= stem + ".json".spec_bytes());
            assert(vstd::utf8::encode_utf8(stem_pat@) =~= stem + "_".spec_bytes());
            assert(keep == is_result_file(nviews[i as int], lang, ty));
        }
        if keep {
            r.push(name.clone());
            proof {
                assert(r@.map_values(|s: String| vstd::utf8::encode_utf8(s@)) =~= pre.push(
                    nviews[i as int],
                ));
            }
        }
    }
    proof {
        assert(nviews.subrange(0, nviews.len() as int) =~= nviews);
    }
    r
}

/// UTF-8 encoding distributes over concatenation, so the byte form of a
/// built-up file name is the concatenation of its parts' byte forms.
pub proof fn lemma_encode_utf8_concat(a: Seq<char>, b: Seq<char>)
    ensures
        vstd::utf8::encode_utf8(a + b) == vstd::utf8::encode_utf8(a) + vstd::utf8::encode_utf8(b),
    decreases a.len(),
{
    if a.len() == 0 {
        assert(a + b =~= b);
        assert(vstd::utf8::encode_utf8(a) =~= Seq::<u8>::empty());
        assert(vstd::utf8::encode_utf8(a) + vstd::utf8::encode_utf8(b) =~= vstd::utf8::encode_utf8(
            b,
        ));
    } else {
        lemma_encode_utf8_concat(a.drop_first(), b);
        assert((a + b).drop_first() =~= a.drop_first() + b);
        assert((a + b)[0] == a[0]);
        assert(vstd::utf8::encode_utf8(a + b) =~= vstd::utf8::encode_scalar((a + b)[0] as u32)
            + vstd::utf8::encode_utf8((a + b).drop_first()));
        assert(vstd::utf8::encode_utf8(a) + vstd::utf8::encode_utf8(b) =~= vstd::utf8::encode_scalar(
            a[0] as u32,
        ) + (vstd::utf8::encode_utf8(a.drop_first()) + vstd::utf8::encode_utf8(b)));
    }
}

proof fn lemma_encode_utf8_concat4(a: Seq<char>, b: Seq<char>, c: Seq<char>, d: Seq<char>)
    ensures
        vstd::utf8::encode_utf8(a + b + c + d) == vstd::utf8::encode_utf8(a)
            + vstd::utf8::encode_utf8(b) + vstd::utf8::encode_utf8(c) + vstd::utf8::encode_utf8(d),
{
    lemma_encode_utf8_concat(a + b + c, d);
    lemma_encode_utf8_concat(a + b, c);
    lemma_encode_utf8_concat(a, b);
}

} // verus!
