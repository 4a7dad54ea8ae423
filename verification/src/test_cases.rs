//! Shared test cases: the suites the specification provides, their input
//! documents, filtering, and validation. Reading the suite files off disk
//! is the caller's outside work; their JSON text arrives here and is
//! decoded behind the same trusted parser the resolver uses.

use vstd::prelude::*;
use vstd::string::{StringExecFns, StringSliceAdditionalSpecFns};
use crate::strutil::{spec_contains, str_contains, str_eq};

verus! {

/// One shared test case. `input` and `expected` carry JSON text that the
/// harness records without interpreting. An absent tag list and an empty
/// one behave alike everywhere, so tags are plain a list.
#[derive(Debug)]
pub struct TestCase {
    pub name: String,
    pub expression: String,
    pub input: Option<String>,
    pub inputfile: Option<String>,
    pub expected: String,
    pub tags: Vec<String>,
    pub description: Option<String>,
    pub disable: Option<bool>,
    pub error: Option<String>,
}

/// Two cases hold the same data (tag lists compared by contents).
pub open spec fn tc_eqv(a: TestCase, b: TestCase) -> bool {
    &&& a.name == b.name
    &&& a.expression == b.expression
    &&& a.input == b.input
    &&& a.inputfile == b.inputfile
    &&& a.expected == b.expected
    &&& a.tags@ == b.tags@
    &&& a.description == b.description
    &&& a.disable == b.disable
    &&& a.error == b.error
}

fn clone_opt_string(s: &Option<String>) -> (r: Option<String>)
    ensures
        r == *s,
{
    match s {
        Some(x) => Some(x.clone()),
        None => None,
    }
}

fn clone_strings(v: &Vec<String>) -> (r: Vec<String>)
    ensures
        r@ == v@,
{
    let mut r: Vec<String> = Vec::new();
    for i in 0..v.len()
        invariant
            r@.len() == i,
            forall|j: int| 0 <= j < i ==> r@[j] == v@[j],
    {
        r.push(v[i].clone());
    }
    proof {
        assert(r@ =~= v@);
    }
    r
}

impl Clone for TestCase {
    fn clone(&self) -> (r: Self)
        ensures
            tc_eqv(r, *self),
    {
        TestCase {
            name: self.name.clone(),
            expression: self.expression.clone(),
            input: clone_opt_string(&self.input),
            inputfile: clone_opt_string(&self.inputfile),
            expected: self.expected.clone(),
            tags: clone_strings(&self.tags),
            description: clone_opt_string(&self.description),
            disable: match self.disable {
                Some(b) => Some(b),
                None => None,
            },
            error: clone_opt_string(&self.error),
        }
    }
}

/// One suite of shared test cases.
#[derive(Debug)]
pub struct TestSuite {
    pub name: String,
    pub description: Option<String>,
    pub source: Option<String>,
    pub tests: Vec<TestCase>,
}

/// What a filter keeps: no disabled cases unless asked, and only cases
/// whose name and expression carry the given fragments and that share a
/// tag with the filter.
#[derive(Debug)]
pub struct TestCaseFilter {
    pub name_pattern: Option<String>,
    pub tags: Vec<String>,
    pub expression_pattern: Option<String>,
    pub include_disabled: bool,
}

impl Default for TestCaseFilter {
    /// Keeps everything except disabled cases.
    fn default() -> (r: Self)
        ensures
            r.name_pattern is None,
            r.tags@.len() == 0,
            r.expression_pattern is None,
            !r.include_disabled,
    {
        TestCaseFilter {
            name_pattern: None,
            tags: Vec::new(),
            expression_pattern: None,
            include_disabled: false,
        }
    }
}

/// One selected case together with the suite it came from and its resolved
/// input document.
#[derive(Debug)]
pub struct FilteredTestCase {
    pub suite_name: String,
    pub test_case: TestCase,
    pub input_data: Option<String>,
}

/// Two selections hold the same data.
pub open spec fn fc_eqv(a: FilteredTestCase, b: FilteredTestCase) -> bool {
    &&& a.suite_name == b.suite_name
    &&& tc_eqv(a.test_case, b.test_case)
    &&& a.input_data == b.input_data
}

/// The lists share an element, judged on UTF-8 bytes.
pub open spec fn tags_intersect(a: Seq<String>, b: Seq<String>) -> bool {
    exists|i: int, j: int|
        0 <= i < a.len() && 0 <= j < b.len() && vstd::utf8::encode_utf8(#[trigger] a[i]@)
            == vstd::utf8::encode_utf8(#[trigger] b[j]@)
}

/// Whether the filter keeps this case: it is not a disabled case being
/// skipped, its name and expression carry the asked-for fragments, and,
/// when the filter names tags, it shares one.
pub open spec fn spec_matches_filter(tc: TestCase, f: TestCaseFilter) -> bool {
    &&& !(tc.disable == Some(true) && !f.include_disabled)
    &&& match f.name_pattern {
        Some(p) => spec_contains(
            vstd::utf8::encode_utf8(tc.name@),
            vstd::utf8::encode_utf8(p@),
        ),
        None => true,
    }
    &&& (f.tags@.len() > 0 ==> tags_intersect(f.tags@, tc.tags@))
    &&& match f.expression_pattern {
        Some(p) => spec_contains(
            vstd::utf8::encode_utf8(tc.expression@),
            vstd::utf8::encode_utf8(p@),
        ),
        None => true,
    }
}

/// Whether the two tag lists share a tag.
fn tags_intersect_exec(a: &Vec<String>, b: &Vec<String>) -> (r: bool)
    ensures
        r == tags_intersect(a@, b@),
{
    for i in 0..a.len()
        invariant
            forall|p: int, q: int|
                0 <= p < i && 0 <= q < b@.len() ==> vstd::utf8::encode_utf8(#[trigger] a@[p]@)
                    != vstd::utf8::encode_utf8(#[trigger] b@[q]@),
    {
        for j in 0..b.len()
            invariant
                i < a@.len(),
                forall|p: int, q: int|
                    0 <= p < i && 0 <= q < b@.len() ==> vstd::utf8::encode_utf8(
                        #[trigger] a@[p]@,
                    ) != vstd::utf8::encode_utf8(#[trigger] b@[q]@),
                forall|q: int|
                    0 <= q < j ==> vstd::utf8::encode_utf8(a@[i as int]@) != vstd::utf8::encode_utf8(
                        #[trigger] b@[q]@,
                    ),
        {
            if str_eq(a[i].as_str(), b[j].as_str()) {
                return true;
            }
        }
    }
    false
}

/// The first input document stored under this file name.
pub open spec fn find_input(inputs: Seq<(String, String)>, name: Seq<u8>) -> Option<String>
    decreases inputs.len(),
{
    if inputs.len() == 0 {
        None
    } else if vstd::utf8::encode_utf8(inputs[0].0@) == name {
        Some(inputs[0].1)
    } else {
        find_input(inputs.drop_first(), name)
    }
}

/// The input document a case runs against: the referenced input file when
/// it is loaded, else the case's inline input.
pub open spec fn input_for(tc: TestCase, inputs: Seq<(String, String)>) -> Option<String> {
    match tc.inputfile {
        Some(f) => match find_input(inputs, vstd::utf8::encode_utf8(f@)) {
            Some(text) => Some(text),
            None => tc.input,
        },
        None => tc.input,
    }
}

/// The selections the filter keeps out of one suite, in case order.
pub open spec fn filtered_of_suite(
    suite_name: String,
    tests: Seq<TestCase>,
    f: TestCaseFilter,
    inputs: Seq<(String, String)>,
) -> Seq<FilteredTestCase>
    decreases tests.len(),
{
    if tests.len() == 0 {
        Seq::empty()
    } else {
        let rest = filtered_of_suite(suite_name, tests.drop_last(), f, inputs);
        let tc = tests.last();
        if spec_matches_filter(tc, f) {
            rest.push(
                FilteredTestCase {
                    suite_name,
                    test_case: tc,
                    input_data: input_for(tc, inputs),
                },
            )
        } else {
            rest
        }
    }
}

/// The selections the filter keeps, suite by suite in their stored order.
pub open spec fn filtered_of(
    suites: Seq<(String, TestSuite)>,
    f: TestCaseFilter,
    inputs: Seq<(String, String)>,
) -> Seq<FilteredTestCase>
    decreases suites.len(),
{
    if suites.len() == 0 {
        Seq::empty()
    } else {
        filtered_of(suites.drop_last(), f, inputs) + filtered_of_suite(
            suites.last().0,
            suites.last().1.tests@,
            f,
            inputs,
        )
    }
}

/// Total number of cases over all suites.
pub open spec fn total_tests_of(suites: Seq<(String, TestSuite)>) -> int
    decreases suites.len(),
{
    if suites.len() == 0 {
        0
    } else {
        total_tests_of(suites.drop_last()) + suites.last().1.tests@.len()
    }
}

/// Holds the loaded suites and input documents and answers filter queries
/// over them. Suites and inputs keep their load order; a lookup returns
/// the first entry under the asked-for name.
#[derive(Debug)]
pub struct TestCaseLoader {
    pub specs_dir: String,
    pub loaded_suites: Vec<(String, TestSuite)>,
    pub input_files: Vec<(String, String)>,
}

impl TestCaseLoader {
    /// An empty loader for the given specification directory.
    pub fn new(specs_dir: String) -> (r: Self)
        ensures
            r.specs_dir == specs_dir,
            r.loaded_suites@.len() == 0,
            r.input_files@.len() == 0,
    {
        TestCaseLoader { specs_dir, loaded_suites: Vec::new(), input_files: Vec::new() }
    }

    pub fn get_test_suites(&self) -> (r: &Vec<(String, TestSuite)>)
        ensures
            r == &self.loaded_suites,
    {
        &self.loaded_suites
    }

    pub fn get_input_files(&self) -> (r: &Vec<(String, String)>)
        ensures
            r == &self.input_files,
    {
        &self.input_files
    }

    /// The first suite stored under this name.
    pub fn get_test_suite(&self, name: &str) -> (r: Option<&TestSuite>)
        ensures
            match r {
                Some(s) => exists|i: int|
                    0 <= i < self.loaded_suites@.len() && vstd::utf8::encode_utf8(
                        #[trigger] self.loaded_suites@[i].0@,
                    ) == name.spec_bytes() && s == &self.loaded_suites@[i].1,
                None => forall|i: int|
                    0 <= i < self.loaded_suites@.len() ==> vstd::utf8::encode_utf8(
                        #[trigger] self.loaded_suites@[i].0@,
                    ) != name.spec_bytes(),
            },
    {
        for i in 0..self.loaded_suites.len()
            invariant
                forall|j: int|
                    0 <= j < i ==> vstd::utf8::encode_utf8(
                        #[trigger] self.loaded_suites@[j].0@,
                    ) != name.spec_bytes(),
        {
            if str_eq(self.loaded_suites[i].0.as_str(), name) {
                return Some(&self.loaded_suites[i].1);
            }
        }
        None
    }

    /// The first input document stored under this file name.
    pub fn get_input_data(&self, filename: &str) -> (r: Option<&String>)
        ensures
            match r {
                Some(s) => find_input(self.input_files@, filename.spec_bytes()) == Some(*s),
                None => find_input(self.input_files@, filename.spec_bytes()) is None,
            },
    {
        proof {
            assert(self.input_files@.skip(0) =~= self.input_files@);
        }
        let n = self.input_files.len();
        for i in 0..n
            invariant
                n == self.input_files@.len(),
                find_input(self.input_files@, filename.spec_bytes()) == find_input(
                    self.input_files@.skip(i as int),
                    filename.spec_bytes(),
                ),
        {
            proof {
                assert(self.input_files@.skip(i as int)[0] == self.input_files@[i as int]);
                assert(self.input_files@.skip(i as int).drop_first() =~= self.input_files@.skip(
                    i + 1,
                ));
            }
            if str_eq(self.input_files[i].0.as_str(), filename) {
                return Some(&self.input_files[i].1);
            }
        }
        proof {
            assert(self.input_files@.skip(n as int) =~= Seq::<(String, String)>::empty());
        }
        None
    }

    /// Total number of cases over all loaded suites.
    pub fn get_total_test_count(&self) -> (r: usize)
        requires
            total_tests_of(self.loaded_suites@) <= usize::MAX,
        ensures
            r == total_tests_of(self.loaded_suites@),
    {
        let mut count: usize = 0;
        let n = self.loaded_suites.len();
        proof {
            assert(self.loaded_suites@.subrange(0, 0) =~= Seq::<(String, TestSuite)>::empty());
        }
        for i in 0..n
            invariant
                n == self.loaded_suites@.len(),
                total_tests_of(self.loaded_suites@) <= usize::MAX,
                count == total_tests_of(self.loaded_suites@.subrange(0, i as int)),
        {
            proof {
                lemma_total_tests_prefix(self.loaded_suites@, i + 1);
                assert(self.loaded_suites@.subrange(0, i + 1).drop_last()
                    =~= self.loaded_suites@.subrange(0, i as int));
                assert(self.loaded_suites@.subrange(0, i + 1).last()
                    == self.loaded_suites@[i as int]);
            }
            count = count + self.loaded_suites[i].1.tests.len();
        }
        proof {
            assert(self.loaded_suites@.subrange(0, n as int) =~= self.loaded_suites@);
        }
        count
    }

    /// Whether the filter keeps this case.
    pub fn matches_filter(&self, test_case: &TestCase, filter: &TestCaseFilter) -> (r: bool)
        ensures
            r == spec_matches_filter(*test_case, *filter),
    {
        let disabled = match test_case.disable {
            Some(b) => b,
            None => false,
        };
        if disabled && !filter.include_disabled {
            return false;
        }
        match &filter.name_pattern {
            Some(p) => {
                if !str_contains(test_case.name.as_str(), p.as_str()) {
                    return false;
                }
            },
            None => {},
        }
        if filter.tags.len() > 0 {
            if !tags_intersect_exec(&filter.tags, &test_case.tags) {
                return false;
            }
        }
        match &filter.expression_pattern {
            Some(p) => {
                if !str_contains(test_case.expression.as_str(), p.as_str()) {
                    return false;
                }
            },
            None => {},
        }
        true
    }

    /// The selections the filter keeps, suite by suite in their stored
    /// order, each with its resolved input document.
    pub fn filter_test_cases(&self, filter: &TestCaseFilter) -> (r: Vec<FilteredTestCase>)
        ensures
            r@.len() == filtered_of(self.loaded_suites@, *filter, self.input_files@).len(),
            forall|k: int|
                0 <= k < r@.len() ==> fc_eqv(
                    #[trigger] r@[k],
                    filtered_of(self.loaded_suites@, *filter, self.input_files@)[k],
                ),
    {
        let ghost suites = self.loaded_suites@;
        let ghost inputs = self.input_files@;
        let mut r: Vec<FilteredTestCase> = Vec::new();
        let n = self.loaded_suites.len();
        proof {
            assert(suites.subrange(0, 0) =~= Seq::<(String, TestSuite)>::empty());
        }
        for s in 0..n
            invariant
                n == suites.len(),
                suites == self.loaded_suites@ && inputs == self.input_files@,
                r@.len() == filtered_of(suites.subrange(0, s as int), *filter, inputs).len(),
                forall|k: int|
                    0 <= k < r@.len() ==> fc_eqv(
                        #[trigger] r@[k],
                        filtered_of(suites.subrange(0, s as int), *filter, inputs)[k],
                    ),
        {
            let suite_name = &self.loaded_suites[s].0;
            let tests = &self.loaded_suites[s].1.tests;
            let ghost done = filtered_of(suites.subrange(0, s as int), *filter, inputs);
            let m = tests.len();
            proof {
                assert(tests@.subrange(0, 0) =~= Seq::<TestCase>::empty());
            }
            for i in 0..m
                invariant
                    n == suites.len() && s < n && m == tests@.len(),
                    suites == self.loaded_suites@ && inputs == self.input_files@,
                    suite_name == &self.loaded_suites@[s as int].0,
                    tests == &self.loaded_suites@[s as int].1.tests,
                    done == filtered_of(suites.subrange(0, s as int), *filter, inputs),
                    r@.len() == done.len() + filtered_of_suite(
                        *suite_name,
                        tests@.subrange(0, i as int),
                        *filter,
                        inputs,
                    ).len(),
                    forall|k: int|
                        0 <= k < r@.len() ==> fc_eqv(
                            #[trigger] r@[k],
                            (done + filtered_of_suite(
                                *suite_name,
                                tests@.subrange(0, i as int),
                                *filter,
                                inputs,
                            ))[k],
                        ),
            {
                proof {
                    assert(tests@.subrange(0, i + 1).drop_last() =~= tests@.subrange(0, i as int));
                    assert(tests@.subrange(0, i + 1).last() == tests@[i as int]);
                }
                let tc = &tests[i];
                if self.matches_filter(tc, filter) {
                    let input_data: Option<String> = match &tc.inputfile {
                        Some(f) => {
                            match self.get_input_data(f.as_str()) {
                                Some(text) => Some(text.clone()),
                                None => clone_opt_string(&tc.input),
                            }
                        },
                        None => clone_opt_string(&tc.input),
                    };
                    r.push(
                        FilteredTestCase {
                            suite_name: suite_name.clone(),
                            test_case: tc.clone(),
                            input_data,
                        },
                    );
                }
            }
            proof {
                assert(tests@.subrange(0, m as int) =~= tests@);
                assert(suites.subrange(0, s + 1).drop_last() =~= suites.subrange(0, s as int));
                assert(suites.subrange(0, s + 1).last() == suites[s as int]);
            }
        }
        proof {
            assert(suites.subrange(0, n as int) =~= suites);
        }
        r
    }
}

/// What a validation finding is about.
#[derive(Debug, Clone, Copy, PartialEq, Eq, Structural)]
pub enum ValidationErrorType {
    MissingName,
    MissingExpression,
    MissingInputFile,
    ConflictingInput,
    InvalidJson,
}

/// The fixed wording of each finding kind.
pub open spec fn kind_text(t: ValidationErrorType) -> Seq<char> {
    match t {
        ValidationErrorType::MissingName => "Missing Name"@,
        ValidationErrorType::MissingExpression => "Missing Expression"@,
        ValidationErrorType::MissingInputFile => "Missing Input File"@,
        ValidationErrorType::ConflictingInput => "Conflicting Input"@,
        ValidationErrorType::InvalidJson => "Invalid JSON"@,
    }
}

/// One validation finding about one test case.
#[derive(Debug)]
pub struct ValidationError {
    pub suite_name: String,
    pub test_name: String,
    pub test_index: usize,
    pub error_type: ValidationErrorType,
    pub message: String,
}

impl ValidationError {
    /// The finding in one line: `[{suite}:{test}] {kind}: {message}`.
    pub fn to_text(&self) -> (r: String)
        ensures
            r@ == "["@ + self.suite_name@ + ":"@ + self.test_name@ + "] "@ + kind_text(
                self.error_type,
            ) + ": "@ + self.message@,
    {
        let mut s = "[".to_owned();
        s.append(self.suite_name.as_str());
        s.append(":");
        s.append(self.test_name.as_str());
        s.append("] ");
        match self.error_type {
            ValidationErrorType::MissingName => s.append("Missing Name"),
            ValidationErrorType::MissingExpression => s.append("Missing Expression"),
            ValidationErrorType::MissingInputFile => s.append("Missing Input File"),
            ValidationErrorType::ConflictingInput => s.append("Conflicting Input"),
            ValidationErrorType::InvalidJson => s.append("Invalid JSON"),
        }
        s.append(": ");
        s.append(self.message.as_str());
        s
    }
}

/// The findings one case yields, in check order: an empty name, an empty
/// expression, a referenced input file that is not loaded, and a case that
/// carries both an inline input and an input-file reference. Each finding
/// is the suite name, the case name, the case index and the kind.
pub open spec fn case_errs(
    suite: String,
    idx: int,
    tc: TestCase,
    inputs: Seq<(String, String)>,
) -> Seq<(String, String, int, ValidationErrorType)> {
    (if tc.name@.len() == 0 {
        seq![(suite, tc.name, idx, ValidationErrorType::MissingName)]
    } else {
        Seq::empty()
    }) + (if tc.expression@.len() == 0 {
        seq![(suite, tc.name, idx, ValidationErrorType::MissingExpression)]
    } else {
        Seq::empty()
    }) + (if tc.inputfile matches Some(f) && find_input(
        inputs,
        vstd::utf8::encode_utf8(f@),
    ) is None {
        seq![(suite, tc.name, idx, ValidationErrorType::MissingInputFile)]
    } else {
        Seq::empty()
    }) + (if tc.input is Some && tc.inputfile is Some {
        seq![(suite, tc.name, idx, ValidationErrorType::ConflictingInput)]
    } else {
        Seq::empty()
    })
}

/// The findings of one suite, case by case.
pub open spec fn suite_errs(
    suite: String,
    tests: Seq<TestCase>,
    inputs: Seq<(String, String)>,
) -> Seq<(String, String, int, ValidationErrorType)>
    decreases tests.len(),
{
    if tests.len() == 0 {
        Seq::empty()
    } else {
        suite_errs(suite, tests.drop_last(), inputs) + case_errs(
            suite,
            tests.len() - 1,
            tests.last(),
            inputs,
        )
    }
}

/// The findings over all suites, in their stored order.
pub open spec fn errors_of(
    suites: Seq<(String, TestSuite)>,
    inputs: Seq<(String, String)>,
) -> Seq<(String, String, int, ValidationErrorType)>
    decreases suites.len(),
{
    if suites.len() == 0 {
        Seq::empty()
    } else {
        errors_of(suites.drop_last(), inputs) + suite_errs(
            suites.last().0,
            suites.last().1.tests@,
            inputs,
        )
    }
}

/// A finding record carries the data its spec-level counterpart names,
/// with the fixed wording of its kind (the missing-input-file message also
/// names the file, which only the record itself carries).
pub open spec fn err_matches(
    e: ValidationError,
    t: (String, String, int, ValidationErrorType),
) -> bool {
    &&& e.suite_name == t.0
    &&& e.test_name == t.1
    &&& e.test_index == t.2
    &&& e.error_type == t.3
    &&& match t.3 {
        ValidationErrorType::MissingName => e.message@ == "Test case name is empty"@,
        ValidationErrorType::MissingExpression => e.message@
            == "Test case expression is empty"@,
        ValidationErrorType::ConflictingInput => e.message@
            == "Test case has both 'input' and 'inputfile' specified"@,
        _ => true,
    }
}

impl TestCaseLoader {
    /// The findings one case yields, in check order.
    fn validate_case(&self, suite_name: &String, test_index: usize, tc: &TestCase) -> (r: Vec<
        ValidationError,
    >)
        ensures
            r@.len() == case_errs(*suite_name, test_index as int, *tc, self.input_files@).len(),
            forall|k: int|
                0 <= k < r@.len() ==> err_matches(
                    #[trigger] r@[k],
                    case_errs(*suite_name, test_index as int, *tc, self.input_files@)[k],
                ),
    {
        let ghost spec_errs = case_errs(*suite_name, test_index as int, *tc, self.input_files@);
        let mut r: Vec<ValidationError> = Vec::new();
        if tc.name.as_str().is_empty() {
            r.push(
                ValidationError {
                    suite_name: suite_name.clone(),
                    test_name: tc.name.clone(),
                    test_index,
                    error_type: ValidationErrorType::MissingName,
                    message: "Test case name is empty".to_owned(),
                },
            );
        }
        if tc.expression.as_str().is_empty() {
            r.push(
                ValidationError {
                    suite_name: suite_name.clone(),
                    test_name: tc.name.clone(),
                    test_index,
                    error_type: ValidationErrorType::MissingExpression,
                    message: "Test case expression is empty".to_owned(),
                },
            );
        }
        let missing_input = match &tc.inputfile {
            Some(f) => self.get_input_data(f.as_str()).is_none(),
            None => false,
        };
        if missing_input {
            let mut message = "Referenced input file not found: ".to_owned();
            match &tc.inputfile {
                Some(f) => message.append(f.as_str()),
                None => {},
            }
            r.push(
                ValidationError {
                    suite_name: suite_name.clone(),
                    test_name: tc.name.clone(),
                    test_index,
                    error_type: ValidationErrorType::MissingInputFile,
                    message,
                },
            );
        }
        if tc.input.is_some() && tc.inputfile.is_some() {
            r.push(
                ValidationError {
                    suite_name: suite_name.clone(),
                    test_name: tc.name.clone(),
                    test_index,
                    error_type: ValidationErrorType::ConflictingInput,
                    message: "Test case has both 'input' and 'inputfile' specified".to_owned(),
                },
            );
        }
        r
    }

    /// Checks every loaded case and reports each finding, suite by suite
    /// and case by case, in check order.
    pub fn validate_test_cases(&self) -> (r: Vec<ValidationError>)
        ensures
            r@.len() == errors_of(self.loaded_suites@, self.input_files@).len(),
            forall|k: int|
                0 <= k < r@.len() ==> err_matches(
                    #[trigger] r@[k],
                    errors_of(self.loaded_suites@, self.input_files@)[k],
                ),
    {
        let ghost suites = self.loaded_suites@;
        let ghost inputs = self.input_files@;
        let mut r: Vec<ValidationError> = Vec::new();
        let n = self.loaded_suites.len();
        proof {
            assert(suites.subrange(0, 0) =~= Seq::<(String, TestSuite)>::empty());
        }
        for s in 0..n
            invariant
                n == suites.len(),
                suites == self.loaded_suites@ && inputs == self.input_files@,
                r@.len() == errors_of(suites.subrange(0, s as int), inputs).len(),
                forall|k: int|
                    0 <= k < r@.len() ==> err_matches(
                        #[trigger] r@[k],
                        errors_of(suites.subrange(0, s as int), inputs)[k],
                    ),
        {
            let suite_name = &self.loaded_suites[s].0;
            let tests = &self.loaded_suites[s].1.tests;
            let ghost done = errors_of(suites.subrange(0, s as int), inputs);
            let m = tests.len();
            proof {
                assert(tests@.subrange(0, 0) =~= Seq::<TestCase>::empty());
            }
            for i in 0..m
                invariant
                    n == suites.len() && s < n && m == tests@.len(),
                    suites == self.loaded_suites@ && inputs == self.input_files@,
                    suite_name == &self.loaded_suites@[s as int].0,
                    tests == &self.loaded_suites@[s as int].1.tests,
                    done == errors_of(suites.subrange(0, s as int), inputs),
                    r@.len() == done.len() + suite_errs(
                        *suite_name,
                        tests@.subrange(0, i as int),
                        inputs,
                    ).len(),
                    forall|k: int|
                        0 <= k < r@.len() ==> err_matches(
                            #[trigger] r@[k],
                            (done + suite_errs(
                                *suite_name,
                                tests@.subrange(0, i as int),
                                inputs,
                            ))[k],
                        ),
            {
                proof {
                    assert(tests@.subrange(0, i + 1).drop_last() =~= tests@.subrange(0, i as int));
                    assert(tests@.subrange(0, i + 1).last() == tests@[i as int]);
                }
                let mut found = self.validate_case(suite_name, i, &tests[i]);
                let ghost found_view = found@;
                r.append(&mut found);
                proof {
                    let prev = done + suite_errs(*suite_name, tests@.subrange(0, i as int), inputs);
                    let next = done + suite_errs(*suite_name, tests@.subrange(0, i + 1), inputs);
                    let case = case_errs(*suite_name, i as int, tests@[i as int], inputs);
                    assert(next =~= prev + case);
                    assert forall|k: int| 0 <= k < r@.len() implies err_matches(
                        #[trigger] r@[k],
                        next[k],
                    ) by {
                        if k < prev.len() {
                            assert(r@[k] == r@.subrange(0, prev.len() as int)[k]);
                        } else {
                            assert(r@[k] == found_view[k - prev.len()]);
                            assert(next[k] == case[k - prev.len()]);
                        }
                    }
                }
            }
            proof {
                assert(tests@.subrange(0, m as int) =~= tests@);
                assert(suites.subrange(0, s + 1).drop_last() =~= suites.subrange(0, s as int));
                assert(suites.subrange(0, s + 1).last() == suites[s as int]);
            }
        }
        proof {
            assert(suites.subrange(0, n as int) =~= suites);
        }
        r
    }

    /// Stores the suites that conform to the suite schema, under their
    /// file stems in their given order, skipping malformed files; inputs
    /// and the directory are untouched. Exactly one suite is stored per
    /// conforming file, and the suites already stored stay as they are.
    pub fn load_all_test_suites(&mut self, suite_files: &Vec<(String, String)>)
        ensures
            final(self).specs_dir == old(self).specs_dir,
            final(self).input_files == old(self).input_files,
            final(self).loaded_suites@.len() == old(self).loaded_suites@.len()
                + conforming_suite_count(suite_files@),
            final(self).loaded_suites@.subrange(0, old(self).loaded_suites@.len() as int) == old(
                self,
            ).loaded_suites@,
    {
        proof {
            assert(self.loaded_suites@.subrange(0, self.loaded_suites@.len() as int)
                =~= self.loaded_suites@);
            assert(suite_files@.subrange(0, 0) =~= Seq::<(String, String)>::empty());
        }
        let n = suite_files.len();
        for i in 0..n
            invariant
                n == suite_files@.len(),
                self.specs_dir == old(self).specs_dir,
                self.input_files == old(self).input_files,
                conforming_suite_count(suite_files@.subrange(0, i as int)) >= 0,
                self.loaded_suites@.len() == old(self).loaded_suites@.len()
                    + conforming_suite_count(suite_files@.subrange(0, i as int)),
                self.loaded_suites@.subrange(0, old(self).loaded_suites@.len() as int) == old(
                    self,
                ).loaded_suites@,
        {
            proof {
                assert(suite_files@.subrange(0, i + 1).drop_last() =~= suite_files@.subrange(
                    0,
                    i as int,
                ));
                assert(suite_files@.subrange(0, i + 1).last() == suite_files@[i as int]);
            }
            match suite_from_json(suite_files[i].1.as_str()) {
                Some(suite) => {
                    let stem = suite_files[i].0.clone();
                    let ghost pre = self.loaded_suites@;
                    self.loaded_suites.push((stem, suite));
                    proof {
                        assert(self.loaded_suites@.subrange(
                            0,
                            old(self).loaded_suites@.len() as int,
                        ) =~= pre.subrange(0, old(self).loaded_suites@.len() as int));
                    }
                },
                None => {},
            }
        }
        proof {
            assert(suite_files@.subrange(0, n as int) =~= suite_files@);
        }
    }

    /// Stores the input documents whose text is well-formed JSON, under
    /// their file names: exactly the well-formed ones, in their given
    /// order, appended to what was already stored.
    pub fn load_input_files(&mut self, input_files: &Vec<(String, String)>)
        ensures
            final(self).specs_dir == old(self).specs_dir,
            final(self).loaded_suites == old(self).loaded_suites,
            final(self).input_files@ == old(self).input_files@ + kept_inputs(input_files@),
    {
        proof {
            assert(self.input_files@ =~= old(self).input_files@ + kept_inputs(
                input_files@.subrange(0, 0),
            ));
        }
        let n = input_files.len();
        for i in 0..n
            invariant
                n == input_files@.len(),
                self.specs_dir == old(self).specs_dir,
                self.loaded_suites == old(self).loaded_suites,
                self.input_files@ == old(self).input_files@ + kept_inputs(
                    input_files@.subrange(0, i as int),
                ),
        {
            proof {
                assert(input_files@.subrange(0, i + 1).drop_last() =~= input_files@.subrange(
                    0,
                    i as int,
                ));
                assert(input_files@.subrange(0, i + 1).last() == input_files@[i as int]);
            }
            if crate::resolver::parse_json(input_files[i].1.as_str()).is_some() {
                self.input_files.push((input_files[i].0.clone(), input_files[i].1.clone()));
                proof {
                    assert(self.input_files@ =~= old(self).input_files@ + kept_inputs(
                        input_files@.subrange(0, i + 1),
                    ));
                }
            }
        }
        proof {
            assert(input_files@.subrange(0, n as int) =~= input_files@);
        }
    }
}

/// How many of the files conform to the suite schema.
pub open spec fn conforming_suite_count(files: Seq<(String, String)>) -> int
    decreases files.len(),
{
    if files.len() == 0 {
        0
    } else {
        conforming_suite_count(files.drop_last()) + (if suite_conforms(files.last().1@) {
            1int
        } else {
            0int
        })
    }
}

/// The input files whose text is well-formed JSON, in their given order.
pub open spec fn kept_inputs(files: Seq<(String, String)>) -> Seq<(String, String)>
    decreases files.len(),
{
    if files.len() == 0 {
        Seq::empty()
    } else {
        let rest = kept_inputs(files.drop_last());
        if crate::resolver::json_doc_of(files.last().1@) is Some {
            rest.push(files.last())
        } else {
            rest
        }
    }
}

/// A `tags` array holds only strings.
pub open spec fn tags_conform(items: Seq<crate::resolver::Json>) -> bool {
    forall|i: int| 0 <= i < items.len() ==> crate::resolver::spec_str_of(#[trigger] items[i])
        is Some
}

/// The tags a `tags` array holds, in order.
pub open spec fn spec_tags_of(items: Seq<crate::resolver::Json>) -> Seq<String>
    recommends
        tags_conform(items),
{
    Seq::new(items.len(), |i: int| crate::resolver::spec_str_of(items[i])->0)
}

/// A `tests` entry of a suite conforms: a name, an expression and an
/// expected value are present, and the tag list, when present, is an
/// array of strings.
pub open spec fn suite_case_conforms(j: crate::resolver::Json) -> bool {
    &&& crate::resolver::spec_get_str(j, "name"@) is Some
    &&& crate::resolver::spec_get_str(j, "expression"@) is Some
    &&& crate::resolver::spec_get(j, "expected"@) is Some
    &&& (match crate::resolver::spec_get(j, "tags"@) {
        Some(f) => crate::resolver::spec_arr_of(f) matches Some(items) && tags_conform(items),
        None => true,
    })
}

/// The case a conforming `tests` entry yields: the inline input and the
/// expected value are kept as verbatim JSON text, an absent tag list reads
/// as empty, and a present non-string optional member reads as absent.
pub open spec fn suite_case_matches(j: crate::resolver::Json, tc: TestCase) -> bool
    recommends
        suite_case_conforms(j),
{
    &&& Some(tc.name) == crate::resolver::spec_get_str(j, "name"@)
    &&& Some(tc.expression) == crate::resolver::spec_get_str(j, "expression"@)
    &&& tc.input == (match crate::resolver::spec_get(j, "input"@) {
        Some(f) => Some(f.text),
        None => None,
    })
    &&& tc.inputfile == crate::resolver::spec_opt_str(j, "inputfile"@)
    &&& tc.expected == crate::resolver::spec_get(j, "expected"@)->0.text
    &&& tc.tags@ == (match crate::resolver::spec_get(j, "tags"@) {
        Some(f) => spec_tags_of(crate::resolver::spec_arr_of(f)->0),
        None => Seq::<String>::empty(),
    })
    &&& tc.description == crate::resolver::spec_opt_str(j, "description"@)
    &&& tc.disable == (match crate::resolver::spec_get(j, "disable"@) {
        Some(f) => crate::resolver::spec_bool_of(f),
        None => None,
    })
    &&& tc.error == crate::resolver::spec_opt_str(j, "error"@)
}

/// The text conforms to the suite schema: well-formed JSON with a name
/// and a `tests` array whose entries all conform.
pub open spec fn suite_conforms(s: Seq<char>) -> bool {
    match crate::resolver::json_doc_of(s) {
        None => false,
        Some(doc) => {
            &&& crate::resolver::spec_get_str(doc, "name"@) is Some
            &&& (crate::resolver::spec_get(doc, "tests"@) matches Some(a)
                && crate::resolver::spec_arr_of(a) matches Some(items) && (forall|i: int|
                0 <= i < items.len() ==> suite_case_conforms(#[trigger] items[i])))
        },
    }
}

/// The suite a conforming text yields: its name and optional description
/// and source, and one case per `tests` entry, in order.
pub open spec fn suite_matches(s: Seq<char>, suite: TestSuite) -> bool
    recommends
        suite_conforms(s),
{
    let doc = crate::resolver::json_doc_of(s)->0;
    let items = crate::resolver::spec_arr_of(crate::resolver::spec_get(doc, "tests"@)->0)->0;
    &&& Some(suite.name) == crate::resolver::spec_get_str(doc, "name"@)
    &&& suite.description == crate::resolver::spec_opt_str(doc, "description"@)
    &&& suite.source == crate::resolver::spec_opt_str(doc, "source"@)
    &&& suite.tests@.len() == items.len()
    &&& (forall|i: int|
        0 <= i < items.len() ==> suite_case_matches(items[i], #[trigger] suite.tests@[i]))
}

/// One test case out of its document: a name, an expression and an
/// expected value are required; everything else is optional. The inline
/// input and the expected value are kept as JSON text.
fn test_case_def_from_json(j: &crate::resolver::Json) -> (r: Option<TestCase>)
    ensures
        r is Some <==> suite_case_conforms(*j),
        r matches Some(tc) ==> suite_case_matches(*j, tc),
{
    let name = crate::resolver::get_string(j, "name")?;
    let expression = crate::resolver::get_string(j, "expression")?;
    let input = match crate::resolver::json_get(j, "input") {
        Some(f) => Some(crate::resolver::json_text(f)),
        None => None,
    };
    let inputfile = match crate::resolver::json_get(j, "inputfile") {
        Some(f) => crate::resolver::json_as_str(f),
        None => None,
    };
    let expected = match crate::resolver::json_get(j, "expected") {
        Some(f) => crate::resolver::json_text(f),
        None => {
            return None;
        },
    };
    let mut tags: Vec<String> = Vec::new();
    match crate::resolver::json_get(j, "tags") {
        Some(f) => {
            let entries = match crate::resolver::json_as_array(f) {
                Some(entries) => entries,
                None => {
                    return None;
                },
            };
            let n = entries.len();
            #[verifier::loop_isolation(false)]
            for i in 0..n
                invariant
                    n == entries@.len(),
                    tags@.len() == i,
                    forall|k: int|
                        0 <= k < i ==> Some(#[trigger] tags@[k])
                            == crate::resolver::spec_str_of(entries@[k]),
            {
                match crate::resolver::json_as_str(&entries[i]) {
                    Some(tag) => {
                        tags.push(tag);
                    },
                    None => {
                        return None;
                    },
                }
            }
            proof {
                assert(tags@ =~= spec_tags_of(entries@));
                assert forall|k: int|
                    0 <= k < entries@.len() implies crate::resolver::spec_str_of(
                    #[trigger] entries@[k],
                ) is Some by {
                    assert(Some(tags@[k]) == crate::resolver::spec_str_of(entries@[k]));
                }
            }
        },
        None => {
            proof {
                assert(tags@ =~= Seq::<String>::empty());
            }
        },
    }
    let description = match crate::resolver::json_get(j, "description") {
        Some(f) => crate::resolver::json_as_str(f),
        None => None,
    };
    let disable = match crate::resolver::json_get(j, "disable") {
        Some(f) => crate::resolver::json_as_bool(f),
        None => None,
    };
    let error = match crate::resolver::json_get(j, "error") {
        Some(f) => crate::resolver::json_as_str(f),
        None => None,
    };
    Some(
        TestCase {
            name,
            expression,
            input,
            inputfile,
            expected,
            tags,
            description,
            disable,
            error,
        },
    )
}

/// A whole suite out of one file's JSON text: `Some` exactly when the
/// text conforms to the suite schema, and then the suite read out of it.
pub fn suite_from_json(text: &str) -> (r: Option<TestSuite>)
    ensures
        r is Some <==> suite_conforms(text@),
        r matches Some(s) ==> suite_matches(text@, s),
{
    let doc = crate::resolver::parse_json(text)?;
    let name = crate::resolver::get_string(&doc, "name")?;
    let description = match crate::resolver::json_get(&doc, "description") {
        Some(f) => crate::resolver::json_as_str(f),
        None => None,
    };
    let source = match crate::resolver::json_get(&doc, "source") {
        Some(f) => crate::resolver::json_as_str(f),
        None => None,
    };
    let entries = match crate::resolver::json_get(&doc, "tests") {
        Some(f) => {
            match crate::resolver::json_as_array(f) {
                Some(entries) => entries,
                None => {
                    return None;
                },
            }
        },
        None => {
            return None;
        },
    };
    let mut tests: Vec<TestCase> = Vec::new();
    let n = entries.len();
    #[verifier::loop_isolation(false)]
    for i in 0..n
        invariant
            n == entries@.len(),
            tests@.len() == i,
            forall|k: int|
                0 <= k < i ==> suite_case_conforms(#[trigger] entries@[k]) && suite_case_matches(
                    entries@[k],
                    tests@[k],
                ),
    {
        match test_case_def_from_json(&entries[i]) {
            Some(tc) => {
                tests.push(tc);
            },
            None => {
                proof {
                    // the failing entry is a witness against the whole list
                    let doc_s = crate::resolver::json_doc_of(text@)->0;
                    let a = crate::resolver::spec_get(doc_s, "tests"@)->0;
                    let items = crate::resolver::spec_arr_of(a)->0;
                    assert(items == entries@);
                    assert(!suite_case_conforms(items[i as int]));
                }
                return None;
            },
        }
    }
    Some(TestSuite { name, description, source, tests })
}

proof fn lemma_total_tests_prefix(suites: Seq<(String, TestSuite)>, i: int)
    requires
        0 <= i <= suites.len(),
    ensures
        0 <= total_tests_of(suites.subrange(0, i)) <= total_tests_of(suites),
    decreases suites.len(),
{
    if suites.len() == 0 {
        assert(suites.subrange(0, i) =~= suites);
    } else if i == suites.len() {
        assert(suites.subrange(0, i) =~= suites);
        lemma_total_tests_prefix(suites.drop_last(), suites.len() - 1);
        assert(suites.drop_last().subrange(0, suites.len() - 1) =~= suites.drop_last());
    } else {
        lemma_total_tests_prefix(suites.drop_last(), i);
        assert(suites.drop_last().subrange(0, i) =~= suites.subrange(0, i));
    }
}

} // verus!
