use rytest::benchmark::shorten_command;
use rytest::collection::collect_file;
use rytest::discovery::{accepts_file, glob_pattern, select_files, FileCandidate};
use rytest::execution::{fixture_not_found, is_dispatched, record_outcome, refuse};
use rytest::fixtures::{
    file_contains_fixture, first_dir, matching_entry, next_dir, resolves_at_start, DirEntryInfo,
};
use rytest::reporting::{
    collect_line, collect_lines, collect_summary, result_line, result_lines, results_summary,
    CollectTally, ResultTally,
};
use rytest::syntax::Stmt;
use rytest::{uv, TestCase};

fn function(n: &str) -> Stmt {
    Stmt::FunctionDef { name: n.to_string(), decorators: vec![] }
}

fn strings(v: &[&str]) -> Vec<String> {
    v.iter().map(|s| s.to_string()).collect()
}

/// Collection-mode output for files given with their parse outcome.
fn collection_output(files: Vec<(&str, Result<Vec<Stmt>, String>)>) -> Vec<String> {
    let mut lines = Vec::new();
    let mut tally = CollectTally::new();
    for (file, parsed) in files {
        for test in collect_file(file, &parsed, "test_") {
            lines.extend(collect_lines(&test, false));
            tally.record(&test);
        }
    }
    lines.push(collect_summary(tally.collected, tally.errors, "<TIME>"));
    lines
}

#[test]
fn collect() {
    let output = collection_output(vec![(
        "tests/input/good/test_success.py",
        Ok(vec![function("test_success"), function("test_more_success")]),
    )]);
    assert_eq!(
        output,
        vec![
            "tests/input/good/test_success.py::test_success",
            "tests/input/good/test_success.py::test_more_success",
            "2 tests collected in <TIME>s",
        ]
    );
}

#[test]
fn collect_error() {
    let output = collection_output(vec![
        ("tests/input/bad/test_other_error.py", Err("unexpected token".to_string())),
        (
            "tests/input/bad/test_other_file.py",
            Ok(vec![function("test_function_passes"), function("test_function_fails")]),
        ),
    ]);
    assert_eq!(
        output,
        vec![
            "ERROR tests/input/bad/test_other_error.py",
            "tests/input/bad/test_other_file.py::test_function_passes",
            "tests/input/bad/test_other_file.py::test_function_fails",
            "2 tests collected, 1 error in <TIME>s",
        ]
    );
}

#[test]
fn end_to_end_good_and_bad_file() {
    let output = collection_output(vec![
        ("a/test_bad.py", Err("invalid syntax".to_string())),
        ("a/test_good.py", Ok(vec![function("test_one")])),
    ]);
    assert_eq!(output, vec!["ERROR a/test_bad.py", "a/test_good.py::test_one", "1 tests collected, 1 error in <TIME>s"]);
}

#[test]
fn summary_wording() {
    assert_eq!(collect_summary(0, 0, "0.00"), "0 tests collected in 0.00s");
    assert_eq!(collect_summary(3, 1, "1.25"), "3 tests collected, 1 error in 1.25s");
    assert_eq!(collect_summary(28, 2, "0.05"), "28 tests collected, 2 errors in 0.05s");
    assert_eq!(results_summary(10, 0, "2.5"), "10 passed, 0 failed in 2.5s");
}

#[test]
fn tally_counts_errors_and_collected() {
    let mut tests = collect_file("a.py", &Err("bad".to_string()), "test_");
    tests.extend(collect_file("b.py", &Ok(vec![function("test_a"), function("test_b")]), "test_"));
    tests.extend(collect_file("c.py", &Err("bad".to_string()), "test_"));
    tests.extend(collect_file("d.py", &Ok(vec![]), "test_"));
    let tally = CollectTally::of_tests(&tests);
    assert_eq!(tally.errors, 2);
    assert_eq!(tally.collected, 2);
}

#[test]
fn verbose_collection_shows_error_detail() {
    let tests = collect_file("a.py", &Err("oops".to_string()), "test_");
    assert_eq!(collect_lines(&tests[0], true), vec!["ERROR a.py", "Error parsing oops"]);
    assert_eq!(collect_lines(&tests[0], false), vec!["ERROR a.py"]);
}

#[test]
fn error_line_of_named_test() {
    let mut t = TestCase::new("a.py", "test_x".to_string(), false);
    t.error = Some("boom".to_string());
    assert_eq!(collect_line(&t), "ERROR a.py::test_x");
}

#[test]
fn result_lines_and_tally() {
    let ok = record_outcome(TestCase::new("a.py", "test_a".to_string(), false), Ok(()));
    let bad = record_outcome(TestCase::new("a.py", "test_b".to_string(), false), Err("AssertionError".to_string()));
    assert_eq!(result_line(&ok), "a.py::test_a - PASSED");
    assert_eq!(result_lines(&bad), vec!["a.py::test_b - FAILED", "AssertionError"]);
    let mut tally = ResultTally::new();
    tally.record(&ok);
    tally.record(&bad);
    assert_eq!((tally.passed, tally.failed), (1, 1));
}

#[test]
fn parametrized_tests_are_refused() {
    let t = TestCase::new("a.py", "test_p[a0]".to_string(), true);
    assert!(!is_dispatched(&t));
    let r = refuse(t);
    assert!(!r.passed);
    assert_eq!(r.error.as_deref(), Some("Parametrized tests are not supported yet"));
    assert!(is_dispatched(&TestCase::new("a.py", "test_p".to_string(), false)));
}

#[test]
fn missing_fixture_detail() {
    assert_eq!(fixture_not_found("db"), "No matching function found for fixture: db");
}

#[test]
fn file_filter_rules() {
    let none: Vec<String> = vec![];
    assert!(accepts_file("a/test_x.py", true, "test_", &none));
    assert!(!accepts_file("a/test_x.py", false, "test_", &none));
    assert!(!accepts_file("a/x_test.py", true, "test_", &none));
    assert!(!accepts_file("a/test_x.txt", true, "test_", &none));
    assert!(!accepts_file("a/test_x", true, "test_", &none));
    assert!(!accepts_file("test_dir.d/file", true, "test_", &none));
    assert!(accepts_file("test_a.b.py", true, "test_", &none));
    assert!(!accepts_file(".venv/lib/test_x.py", true, "test_", &strings(&[".venv"])));
    assert!(accepts_file("check_x.py", true, "check_", &strings(&[".venv"])));
}

#[test]
fn discovered_stream_keeps_order_and_drops_rejects() {
    let candidates = vec![
        FileCandidate { path: "b/test_two.py".to_string(), is_file: true },
        FileCandidate { path: "b/helper.py".to_string(), is_file: true },
        FileCandidate { path: "b/test_dir.py".to_string(), is_file: false },
        FileCandidate { path: "a/test_one.py".to_string(), is_file: true },
        FileCandidate { path: "a/test_one.pyc".to_string(), is_file: true },
    ];
    assert_eq!(select_files(&candidates, "test_", &vec![]), vec!["b/test_two.py", "a/test_one.py"]);
}

#[test]
fn directory_roots_become_recursive_patterns() {
    assert_eq!(glob_pattern("tests", true), "tests/**/*");
    assert_eq!(glob_pattern("tests/", true), "tests/**/*");
    assert_eq!(glob_pattern("tests/test_a.py", false), "tests/test_a.py");
}

#[test]
fn fixture_text_detection() {
    assert!(file_contains_fixture("import pytest\n\ndef db():\n    return 1\n", "db"));
    assert!(file_contains_fixture("@pytest.fixture(name=\"db\")\ndef make():\n    pass\n", "db"));
    assert!(!file_contains_fixture("def dbx():\n    pass\n", "db"));
}

#[test]
fn fixture_search_start() {
    assert!(resolves_at_start(true, Some("def db():\n"), "db"));
    assert!(!resolves_at_start(false, Some("def db():\n"), "db"));
    assert!(!resolves_at_start(true, Some("def other():\n"), "db"));
    assert!(!resolves_at_start(true, None, "db"));
}

#[test]
fn fixture_search_steps() {
    let start = strings(&["home", "p", "tests", "test_a.py"]);
    let stop = strings(&["home", "p"]);
    let dir = first_dir(&start, true);
    assert_eq!(dir, strings(&["home", "p", "tests"]));
    assert_eq!(first_dir(&start, false), start);
    let up = next_dir(&dir, &stop).unwrap();
    assert_eq!(up, stop);
    assert!(next_dir(&up, &stop).is_none());
    assert!(next_dir(&vec![], &stop).is_none());
    let entries = vec![
        DirEntryInfo { name: "sub".to_string(), is_dir: true, content: None },
        DirEntryInfo { name: "notes.txt".to_string(), is_dir: false, content: Some("def db(".to_string()) },
        DirEntryInfo { name: "conftest.py".to_string(), is_dir: false, content: Some("def db():\n".to_string()) },
        DirEntryInfo { name: "other.py".to_string(), is_dir: false, content: Some("def db():\n".to_string()) },
    ];
    assert_eq!(matching_entry(&entries, "db"), Some(2));
    assert_eq!(matching_entry(&entries, "db"), matching_entry(&entries, "db"));
    assert_eq!(matching_entry(&entries, "cache"), None);
}

#[test]
fn package_tool_arguments() {
    assert_eq!(uv::install("req.txt"), vec!["pip", "install", "-r", "req.txt"]);
    assert_eq!(uv::develop(), vec!["pip", "install", "-e", "."]);
    assert_eq!(uv::run("rytest", Some("tests")), vec!["run", "rytest", "tests"]);
    assert_eq!(uv::run("rytest", None), vec!["run", "rytest"]);
}

#[test]
fn benchmark_command_labels() {
    assert_eq!(shorten_command("target/release/rytest tests").as_deref(), Some("rytest"));
    assert_eq!(shorten_command("pytest -q").as_deref(), Some("pytest"));
    assert_eq!(shorten_command("nose2"), None);
}
