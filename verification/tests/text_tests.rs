use fhirpath_runner::strutil::{
    str_contains, str_eq, str_le, sort_strings, contains_bytes, starts_with_bytes,
    ends_with_bytes, to_lower_bytes, split_lines,
};

#[test]
fn substring_search_finds_runs() {
    assert!(str_contains("all tests passed today", "passed"));
    assert!(!str_contains("all good", "passed"));
    assert!(str_contains("abc", ""));
    assert!(!str_contains("ab", "abc"));
    assert!(contains_bytes(b"xxabcxx", b"abc"));
    assert!(!contains_bytes(b"xxabxcx", b"abc"));
}

#[test]
fn equality_and_order_are_judged_on_bytes() {
    assert!(str_eq("go", "go"));
    assert!(!str_eq("go", "Go"));
    assert!(str_le("go", "gopher"));
    assert!(!str_le("gopher", "go"));
    assert!(str_le("abc", "abd"));
    assert!(str_le("x", "x"));
}

#[test]
fn sorting_orders_lexicographically() {
    let sorted = sort_strings(vec![
        "python".to_string(),
        "go".to_string(),
        "clojure".to_string(),
        "java".to_string(),
    ]);
    assert_eq!(
        sorted,
        vec![
            "clojure".to_string(),
            "go".to_string(),
            "java".to_string(),
            "python".to_string(),
        ]
    );
}

#[test]
fn prefix_and_suffix_checks() {
    assert!(starts_with_bytes(b"python_test_results_17.json", b"python_test_results_"));
    assert!(!starts_with_bytes(b"java_test_results.json", b"python_"));
    assert!(ends_with_bytes(b"a.json", b".json"));
    assert!(!ends_with_bytes(b"a.jsonx", b".json"));
}

#[test]
fn ascii_lowering_leaves_other_bytes_alone() {
    assert_eq!(to_lower_bytes(b"PASSED ok 42!"), b"passed ok 42!".to_vec());
}

#[test]
fn line_splitting_keeps_every_segment() {
    let lines = split_lines(b"one\ntwo\n\nthree");
    assert_eq!(lines, vec![b"one".to_vec(), b"two".to_vec(), b"".to_vec(), b"three".to_vec()]);
    assert_eq!(split_lines(b""), vec![b"".to_vec()]);
    assert_eq!(split_lines(b"a\n"), vec![b"a".to_vec(), b"".to_vec()]);
}
