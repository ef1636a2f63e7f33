use expect_results::expect::{expect_file, push_decimal, to_expect_string};
use expect_results::result::{compose_report, TestResult};
use expect_results::state::{classify, OnlyOpt, TestState};
use expect_results::suite::TestSuiteResult;
use std::cell::RefCell;

fn plain() {
    colored::control::set_override(false);
}

fn no_diff(_stored: &str, _generated: &str) -> String {
    String::from("unused")
}

fn marked_diff(stored: &str, generated: &str) -> String {
    format!("<{}|{}>", stored, generated)
}

fn result_with(path: &str, state: TestState) -> TestResult {
    TestResult {
        path: String::from(path),
        status: 0,
        stdout: String::new(),
        stderr: String::new(),
        state,
    }
}

fn mixed_suite() -> TestSuiteResult {
    TestSuiteResult(
        String::from("suite"),
        vec![
            result_with("a.t", TestState::Correct),
            result_with("b.t", TestState::Mismatch(String::from("new b"), String::from("old b"))),
            result_with("c.t", TestState::Missing(String::from("new c"))),
            result_with("d.t", TestState::Mismatch(String::from("new d"), String::from("old d"))),
            result_with("e.t", TestState::Correct),
        ],
        vec![],
    )
}

fn paths(suite: &TestSuiteResult) -> Vec<String> {
    suite.1.iter().map(|r| r.path.clone()).collect()
}

#[test]
fn format_of_successful_run() {
    let text = to_expect_string(&0, &String::from("ok\n"), &String::new());
    assert_eq!(text, "---CODE---\n0\n---STDOUT---\nok\n---STDERR---\n");
}

#[test]
fn format_keeps_both_streams_verbatim() {
    let text = to_expect_string(&17, &String::from("out  \r\n"), &String::from(" err\t"));
    assert_eq!(text, "---CODE---\n17\n---STDOUT---\nout  \r\n---STDERR---\n err\t");
}

#[test]
fn format_negative_status() {
    let text = to_expect_string(&-1, &String::new(), &String::new());
    assert_eq!(text, "---CODE---\n-1\n---STDOUT---\n---STDERR---\n");
}

#[test]
fn format_extreme_statuses() {
    let low = to_expect_string(&i32::MIN, &String::new(), &String::new());
    assert_eq!(low, "---CODE---\n-2147483648\n---STDOUT---\n---STDERR---\n");
    let high = to_expect_string(&i32::MAX, &String::new(), &String::new());
    assert_eq!(high, "---CODE---\n2147483647\n---STDOUT---\n---STDERR---\n");
}

#[test]
fn format_does_not_escape_markers() {
    let text = to_expect_string(&1, &String::from("---STDERR---\n"), &String::from("---CODE---\n"));
    assert_eq!(text, "---CODE---\n1\n---STDOUT---\n---STDERR---\n---STDERR---\n---CODE---\n");
}

#[test]
fn format_is_deterministic() {
    let out = String::from("line one\nline two\n");
    let err = String::from("warning\n");
    let first = to_expect_string(&3, &out, &err);
    let second = to_expect_string(&3, &out, &err);
    assert_eq!(first, second);
}

#[test]
fn push_decimal_appends_digits() {
    let mut buf = String::from("n=");
    push_decimal(&mut buf, 0);
    push_decimal(&mut buf, 907);
    push_decimal(&mut buf, u64::MAX);
    assert_eq!(buf, "n=090718446744073709551615");
}

#[test]
fn expect_file_replaces_extension() {
    assert_eq!(expect_file(&String::from("tests/a.txt")), "tests/a.expect");
    assert_eq!(expect_file(&String::from("tests/a.tar.gz")), "tests/a.tar.expect");
}

#[test]
fn expect_file_adds_extension_where_none_is() {
    assert_eq!(expect_file(&String::from("tests/run")), "tests/run.expect");
    assert_eq!(expect_file(&String::from("dir.d/run")), "dir.d/run.expect");
}

#[test]
fn classify_without_stored_text_is_missing() {
    let state = classify(String::from("generated"), None);
    assert_eq!(state, TestState::Missing(String::from("generated")));
}

#[test]
fn classify_equal_texts_is_correct() {
    let state = classify(String::from("same\n"), Some(String::from("same\n")));
    assert_eq!(state, TestState::Correct);
}

#[test]
fn classify_is_exact_about_whitespace() {
    let state = classify(String::from("same\n"), Some(String::from("same")));
    assert_eq!(state, TestState::Mismatch(String::from("same\n"), String::from("same")));
}

#[test]
fn classify_round_trip_is_correct() {
    let generated = to_expect_string(&2, &String::from("out"), &String::from("err"));
    let read_back = generated.clone();
    assert_eq!(classify(generated, Some(read_back)), TestState::Correct);
}

#[test]
fn mismatch_diffs_stored_against_generated() {
    plain();
    let stored = String::from("---CODE---\n1\n---STDOUT---\n---STDERR---\n");
    let result = TestResult::new(
        String::from("t/x.sh"),
        0,
        String::new(),
        String::new(),
        Some(stored.clone()),
    );
    let generated = String::from("---CODE---\n0\n---STDOUT---\n---STDERR---\n");
    assert_eq!(result.state, TestState::Mismatch(generated.clone(), stored.clone()));
    let calls: RefCell<Vec<(String, String)>> = RefCell::new(Vec::new());
    let recording = |a: &str, b: &str| {
        calls.borrow_mut().push((String::from(a), String::from(b)));
        String::from("DIFF")
    };
    let line = result.report_str(true, &recording);
    assert_eq!(line, "⚬ fail - t/x.sh\nDIFF");
    assert_eq!(calls.into_inner(), vec![(stored, generated)]);
}

#[test]
fn new_keeps_the_captured_values() {
    let result = TestResult::new(
        String::from("t/y.sh"),
        4,
        String::from("o"),
        String::from("e"),
        None,
    );
    assert_eq!(result.path, "t/y.sh");
    assert_eq!(result.status, 4);
    assert_eq!(result.stdout, "o");
    assert_eq!(result.stderr, "e");
    assert_eq!(
        result.state,
        TestState::Missing(String::from("---CODE---\n4\n---STDOUT---\no---STDERR---\ne"))
    );
}

#[test]
fn missing_then_saved_is_correct() {
    let result = TestResult::new(String::from("t/z.sh"), 0, String::from("hi\n"), String::new(), None);
    let generated = to_expect_string(&0, &String::from("hi\n"), &String::new());
    assert_eq!(result.state, TestState::Missing(generated.clone()));
    let disk: RefCell<Vec<(String, String)>> = RefCell::new(Vec::new());
    let saved: Result<(), String> = result.save_results(|file: &str, content: &str| {
        disk.borrow_mut().push((String::from(file), String::from(content)));
        Ok(())
    });
    assert_eq!(saved, Ok(()));
    let written = disk.into_inner();
    assert_eq!(written, vec![(String::from("t/z.expect"), generated.clone())]);
    let again = TestResult::new(
        String::from("t/z.sh"),
        0,
        String::from("hi\n"),
        String::new(),
        Some(written[0].1.clone()),
    );
    assert_eq!(again.state, TestState::Correct);
}

#[test]
fn save_correct_writes_nothing() {
    let result = result_with("t/ok.sh", TestState::Correct);
    assert_eq!(result.pending_write(), None);
    let writes: RefCell<u32> = RefCell::new(0);
    let saved: Result<(), String> = result.save_results(|_file: &str, _content: &str| {
        *writes.borrow_mut() += 1;
        Err(String::from("must not be called"))
    });
    assert_eq!(saved, Ok(()));
    assert_eq!(writes.into_inner(), 0);
}

#[test]
fn save_mismatch_writes_generated_text() {
    let result = result_with(
        "t/bad.sh",
        TestState::Mismatch(String::from("new"), String::from("old")),
    );
    assert_eq!(
        result.pending_write(),
        Some((String::from("t/bad.expect"), String::from("new")))
    );
}

#[test]
fn save_reports_a_failed_write() {
    let result = result_with("t/new.sh", TestState::Missing(String::from("new")));
    let saved: Result<(), String> =
        result.save_results(|_file: &str, _content: &str| Err(String::from("read-only")));
    assert_eq!(saved, Err(String::from("read-only")));
}

#[test]
fn report_pass_has_no_detail() {
    plain();
    let result = result_with("a.t", TestState::Correct);
    assert_eq!(result.report_str(false, &no_diff), "⚬ pass - a.t");
    assert_eq!(result.report_str(true, &no_diff), "⚬ pass - a.t");
}

#[test]
fn report_missing_shows_generated_text_on_request() {
    plain();
    let result = result_with("c.t", TestState::Missing(String::from("new c")));
    assert_eq!(result.report_str(false, &no_diff), "⚬ miss - c.t");
    assert_eq!(result.report_str(true, &no_diff), "⚬ miss - c.t\nnew c");
}

#[test]
fn report_mismatch_shows_diff_on_request() {
    plain();
    let result = result_with("b.t", TestState::Mismatch(String::from("new b"), String::from("old b")));
    assert_eq!(result.report_str(false, &marked_diff), "⚬ fail - b.t");
    assert_eq!(result.report_str(true, &marked_diff), "⚬ fail - b.t\n<old b|new b>");
}

#[test]
fn compose_report_reads_diff_only_for_mismatch() {
    let missing = TestState::Missing(String::from("g"));
    assert_eq!(compose_report(&missing, true, "T ", "id", "D"), "T id\ng");
    assert_eq!(compose_report(&missing, false, "T ", "id", "D"), "T id");
    let wrong = TestState::Mismatch(String::from("g"), String::from("s"));
    assert_eq!(compose_report(&wrong, true, "T ", "id", "D"), "T id\nD");
    assert_eq!(compose_report(&wrong, false, "T ", "id", "D"), "T id");
    assert_eq!(compose_report(&TestState::Correct, true, "T ", "id", "D"), "T id");
}

#[test]
fn filter_fail_keeps_mismatches_in_order() {
    let kept = mixed_suite().only_results(&Some(OnlyOpt::Fail));
    assert_eq!(paths(&kept), vec!["b.t", "d.t"]);
    assert!(kept.1.iter().all(|r| matches!(r.state, TestState::Mismatch(_, _))));
    assert_eq!(kept.0, "suite");
}

#[test]
fn filter_pass_keeps_correct_ones() {
    let kept = mixed_suite().only_results(&Some(OnlyOpt::Pass));
    assert_eq!(paths(&kept), vec!["a.t", "e.t"]);
}

#[test]
fn filter_missing_keeps_missing_ones() {
    let kept = mixed_suite().only_results(&Some(OnlyOpt::Missing));
    assert_eq!(paths(&kept), vec!["c.t"]);
}

#[test]
fn filter_none_keeps_everything() {
    let kept = mixed_suite().only_results(&None);
    assert_eq!(paths(&kept), vec!["a.t", "b.t", "c.t", "d.t", "e.t"]);
    let before = mixed_suite();
    for (a, b) in kept.1.iter().zip(before.1.iter()) {
        assert_eq!(a.state, b.state);
    }
}

#[test]
fn filter_twice_is_filter_once() {
    let once = mixed_suite().only_results(&Some(OnlyOpt::Fail));
    let twice = mixed_suite().only_results(&Some(OnlyOpt::Fail)).only_results(&Some(OnlyOpt::Fail));
    assert_eq!(paths(&once), paths(&twice));
}

#[test]
fn filter_leaves_suite_errors() {
    let mut suite = mixed_suite();
    suite.2 = vec![String::from("could not run f.t"), String::from("could not run g.t")];
    let kept = suite.only_results(&Some(OnlyOpt::Pass));
    assert_eq!(kept.2, vec!["could not run f.t", "could not run g.t"]);
}

#[test]
fn filter_on_empty_suite() {
    let suite = TestSuiteResult(String::from("empty"), vec![], vec![]);
    let kept = suite.only_results(&Some(OnlyOpt::Fail));
    assert!(kept.1.is_empty());
}

#[test]
fn report_header_counts_tests_before_filter() {
    plain();
    let lines = mixed_suite().only_results(&Some(OnlyOpt::Fail)).report_lines(false, 5, &no_diff);
    assert_eq!(lines, vec!["suite (5 tests)", "  ⚬ fail - b.t", "  ⚬ fail - d.t"]);
}

#[test]
fn report_lists_every_result_in_order() {
    plain();
    let lines = mixed_suite().report_lines(true, 5, &marked_diff);
    assert_eq!(
        lines,
        vec![
            "suite (5 tests)",
            "  ⚬ pass - a.t",
            "  ⚬ fail - b.t\n<old b|new b>",
            "  ⚬ miss - c.t\nnew c",
            "  ⚬ fail - d.t\n<old d|new d>",
            "  ⚬ pass - e.t",
        ]
    );
}

#[test]
fn report_lists_suite_errors_apart() {
    plain();
    let suite = TestSuiteResult(
        String::from("s"),
        vec![result_with("a.t", TestState::Correct)],
        vec![String::from("first"), String::from("second")],
    );
    let lines = suite.report_lines(false, 12, &no_diff);
    assert_eq!(
        lines,
        vec!["s (12 tests)", "  ⚬ pass - a.t", "  runt errors", "    first", "    second"]
    );
}

#[test]
fn report_of_empty_suite_is_header_only() {
    plain();
    let suite = TestSuiteResult(String::from("none"), vec![], vec![]);
    assert_eq!(suite.report_lines(true, 0, &no_diff), vec!["none (0 tests)"]);
}

#[test]
fn selection_follows_the_outcome() {
    let correct = TestState::Correct;
    let missing = TestState::Missing(String::from("g"));
    let wrong = TestState::Mismatch(String::from("g"), String::from("s"));
    for state in [&correct, &missing, &wrong] {
        assert!(state.is_selected(&None));
    }
    assert!(correct.is_selected(&Some(OnlyOpt::Pass)));
    assert!(!correct.is_selected(&Some(OnlyOpt::Fail)));
    assert!(!correct.is_selected(&Some(OnlyOpt::Missing)));
    assert!(missing.is_selected(&Some(OnlyOpt::Missing)));
    assert!(!missing.is_selected(&Some(OnlyOpt::Pass)));
    assert!(!missing.is_selected(&Some(OnlyOpt::Fail)));
    assert!(wrong.is_selected(&Some(OnlyOpt::Fail)));
    assert!(!wrong.is_selected(&Some(OnlyOpt::Pass)));
    assert!(!wrong.is_selected(&Some(OnlyOpt::Missing)));
}

#[test]
fn expect_file_leaves_a_path_without_file_name() {
    assert_eq!(expect_file(&String::new()), "");
    assert_eq!(expect_file(&String::from("..")), "..");
}
