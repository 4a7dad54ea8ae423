use fhirpath_runner::test_cases::{
    TestCaseLoader, TestCaseFilter, ValidationErrorType, suite_from_json,
};

fn suite_text() -> String {
    let mut s = String::new();
    s.push_str("{\"name\":\"basics\",\"description\":\"simple cases\",\"tests\":[");
    s.push_str("{\"name\":\"one\",\"expression\":\"1 + 1\",\"expected\":2,\"tags\":[\"math\"]},");
    s.push_str(
        "{\"name\":\"two\",\"expression\":\"true and false\",\"expected\":false,\"disable\":true},",
    );
    s.push_str(
        "{\"name\":\"three\",\"expression\":\"count()\",\"expected\":0,\"inputfile\":\"patient.json\"}",
    );
    s.push_str("]}");
    s
}

fn loaded() -> TestCaseLoader {
    let mut loader = TestCaseLoader::new("../specs".to_string());
    loader.load_input_files(&vec![(
        "patient.json".to_string(),
        "{\"resourceType\":\"Patient\"}".to_string(),
    )]);
    loader.load_all_test_suites(&vec![("basics".to_string(), suite_text())]);
    loader
}

#[test]
fn suites_decode_from_their_files() {
    let suite = suite_from_json(&suite_text()).expect("well-formed suite");
    assert_eq!(suite.name, "basics");
    assert_eq!(suite.tests.len(), 3);
    assert_eq!(suite.tests[0].expression, "1 + 1");
    assert_eq!(suite.tests[0].expected, "2");
    assert_eq!(suite.tests[0].tags, vec!["math".to_string()]);
    assert_eq!(suite.tests[1].disable, Some(true));
    assert_eq!(suite.tests[2].inputfile.as_deref(), Some("patient.json"));
}

#[test]
fn malformed_suites_are_skipped() {
    assert!(suite_from_json("{ nope").is_none());
    assert!(suite_from_json("{\"name\":\"x\"}").is_none());
    let mut loader = TestCaseLoader::new("s".to_string());
    loader.load_all_test_suites(&vec![
        ("bad".to_string(), "{ nope".to_string()),
        ("good".to_string(), suite_text()),
    ]);
    assert_eq!(loader.get_test_suites().len(), 1);
    assert_eq!(loader.get_total_test_count(), 3);
}

#[test]
fn lookups_find_suites_and_inputs() {
    let loader = loaded();
    assert!(loader.get_test_suite("basics").is_some());
    assert!(loader.get_test_suite("missing").is_none());
    assert_eq!(
        loader.get_input_data("patient.json").map(|s| s.as_str()),
        Some("{\"resourceType\":\"Patient\"}")
    );
    assert!(loader.get_input_data("other.json").is_none());
}

#[test]
fn default_filter_skips_disabled_cases() {
    let loader = loaded();
    let picked = loader.filter_test_cases(&TestCaseFilter::default());
    let names: Vec<&str> = picked.iter().map(|c| c.test_case.name.as_str()).collect();
    assert_eq!(names, vec!["one", "three"]);
    // the referenced input file resolves to its loaded document
    assert_eq!(picked[1].input_data.as_deref(), Some("{\"resourceType\":\"Patient\"}"));
    assert_eq!(picked[0].suite_name, "basics");
}

#[test]
fn include_disabled_keeps_every_case() {
    let loader = loaded();
    let mut filter = TestCaseFilter::default();
    filter.include_disabled = true;
    assert_eq!(loader.filter_test_cases(&filter).len(), 3);
}

#[test]
fn name_and_expression_fragments_narrow_the_selection() {
    let loader = loaded();
    let mut by_name = TestCaseFilter::default();
    by_name.name_pattern = Some("thr".to_string());
    let picked = loader.filter_test_cases(&by_name);
    assert_eq!(picked.len(), 1);
    assert_eq!(picked[0].test_case.name, "three");

    let mut by_expression = TestCaseFilter::default();
    by_expression.expression_pattern = Some("count".to_string());
    assert_eq!(loader.filter_test_cases(&by_expression).len(), 1);

    let mut by_tag = TestCaseFilter::default();
    by_tag.tags = vec!["math".to_string()];
    let tagged = loader.filter_test_cases(&by_tag);
    assert_eq!(tagged.len(), 1);
    assert_eq!(tagged[0].test_case.name, "one");

    let mut by_missing_tag = TestCaseFilter::default();
    by_missing_tag.tags = vec!["slow".to_string()];
    assert!(loader.filter_test_cases(&by_missing_tag).is_empty());
}

#[test]
fn validation_reports_each_fault_in_order() {
    let mut text = String::new();
    text.push_str("{\"name\":\"faulty\",\"tests\":[");
    text.push_str("{\"name\":\"\",\"expression\":\"1\",\"expected\":1},");
    text.push_str("{\"name\":\"b\",\"expression\":\"\",\"expected\":1},");
    text.push_str(
        "{\"name\":\"c\",\"expression\":\"x\",\"expected\":1,\"inputfile\":\"gone.json\"},",
    );
    text.push_str(
        "{\"name\":\"d\",\"expression\":\"x\",\"expected\":1,\"input\":{},\"inputfile\":\"patient.json\"},",
    );
    text.push_str("{\"name\":\"e\",\"expression\":\"x\",\"expected\":1}");
    text.push_str("]}");
    let mut loader = TestCaseLoader::new("s".to_string());
    loader.load_input_files(&vec![("patient.json".to_string(), "{}".to_string())]);
    loader.load_all_test_suites(&vec![("faulty".to_string(), text)]);

    let errors = loader.validate_test_cases();
    let kinds: Vec<ValidationErrorType> = errors.iter().map(|e| e.error_type).collect();
    assert_eq!(
        kinds,
        vec![
            ValidationErrorType::MissingName,
            ValidationErrorType::MissingExpression,
            ValidationErrorType::MissingInputFile,
            ValidationErrorType::ConflictingInput,
        ]
    );
    assert_eq!(errors[1].test_index, 1);
    assert_eq!(errors[1].test_name, "b");
    assert_eq!(errors[2].message, "Referenced input file not found: gone.json");
    assert_eq!(errors[0].suite_name, "faulty");
}

#[test]
fn valid_suites_yield_no_findings() {
    let loader = loaded();
    assert!(loader.validate_test_cases().is_empty());
}

#[test]
fn findings_render_in_one_line() {
    let mut text = String::new();
    text.push_str("{\"name\":\"faulty\",\"tests\":[");
    text.push_str("{\"name\":\"\",\"expression\":\"1\",\"expected\":1}");
    text.push_str("]}");
    let mut loader = TestCaseLoader::new("s".to_string());
    loader.load_all_test_suites(&vec![("faulty".to_string(), text)]);
    let errors = loader.validate_test_cases();
    assert_eq!(errors.len(), 1);
    assert_eq!(errors[0].to_text(), "[faulty:] Missing Name: Test case name is empty");
}

#[test]
fn suite_with_non_string_tag_is_rejected() {
    let mut text = String::new();
    text.push_str("{\"name\":\"x\",\"tests\":[");
    text.push_str("{\"name\":\"a\",\"expression\":\"1\",\"expected\":1,\"tags\":[1]}");
    text.push_str("]}");
    assert!(suite_from_json(&text).is_none());
}

#[test]
fn malformed_input_files_are_skipped() {
    let mut loader = TestCaseLoader::new("s".to_string());
    loader.load_input_files(&vec![
        ("ok.json".to_string(), "{}".to_string()),
        ("broken.json".to_string(), "{ nope".to_string()),
    ]);
    assert_eq!(loader.get_input_files().len(), 1);
}
