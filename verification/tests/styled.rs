use expect_results::paint::{paint, Tint};
use expect_results::result::TestResult;
use expect_results::state::TestState;
use expect_results::suite::TestSuiteResult;

fn styles_on() {
    colored::control::set_override(true);
}

fn no_diff_styled(_stored: &str, _generated: &str) -> String {
    String::new()
}

#[test]
fn paint_wraps_text_in_escape_sequences() {
    styles_on();
    assert_eq!(paint("x", Tint::Red), "\x1B[31mx\x1B[0m");
    assert_eq!(paint("x", Tint::Green), "\x1B[32mx\x1B[0m");
    assert_eq!(paint("x", Tint::Yellow), "\x1B[33mx\x1B[0m");
    assert_eq!(paint("x", Tint::Bold), "\x1B[1mx\x1B[0m");
}

#[test]
fn report_styles_tag_and_identity_apart() {
    styles_on();
    let result = TestResult {
        path: String::from("c.t"),
        status: 0,
        stdout: String::new(),
        stderr: String::new(),
        state: TestState::Missing(String::from("new c")),
    };
    assert_eq!(
        result.report_str(true, &no_diff_styled),
        "\x1B[33m⚬ miss - \x1B[0m\x1B[33mc.t\x1B[0m\nnew c"
    );
}

#[test]
fn report_styles_header_and_errors() {
    styles_on();
    let suite = TestSuiteResult(String::from("s"), vec![], vec![String::from("boom")]);
    assert_eq!(
        suite.report_lines(false, 3, &no_diff_styled),
        vec![
            "\x1B[1ms\x1B[0m (3 tests)",
            "  \x1B[31mrunt errors\x1B[0m",
            "    \x1B[31mboom\x1B[0m",
        ]
    );
}
