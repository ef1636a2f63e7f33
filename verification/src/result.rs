//! One test's captured output and outcome, and its report line.

use crate::expect::{expect_file, expect_path, expect_text, to_expect_string};
use crate::paint::{is_rendering, paint, Tint};
use crate::state::{classification, classify, stored_view, StateView, TestState};
use vstd::prelude::*;
use vstd::string::*;

verus! {

/// What is known of one test after it ran.
#[derive(Debug, Clone)]
pub struct TestResult {
    /// The test's identity: the text of its path.
    pub path: String,
    /// Exit status of the test.
    pub status: i32,
    /// Standard output captured from the test.
    pub stdout: String,
    /// Standard error captured from the test.
    pub stderr: String,
    /// Outcome of the comparison.
    pub state: TestState,
}

/// The mathematical value of a `TestResult`.
pub struct TestResultView {
    pub path: Seq<char>,
    pub status: int,
    pub stdout: Seq<char>,
    pub stderr: Seq<char>,
    pub state: StateView,
}

impl View for TestResult {
    type V = TestResultView;

    open spec fn view(&self) -> TestResultView {
        TestResultView {
            path: self.path@,
            status: self.status as int,
            stdout: self.stdout@,
            stderr: self.stderr@,
            state: self.state@,
        }
    }
}

impl TestResultView {
    /// The canonical text of what the test gave.
    pub open spec fn generated(self) -> Seq<char> {
        expect_text(self.status, self.stdout, self.stderr)
    }

    /// Whether the outcome fits the captured values: the generated text
    /// that it holds is their canonical text, and a mismatch holds a stored
    /// text that differs from it.
    pub open spec fn well_formed(self) -> bool {
        match self.state {
            StateView::Correct => true,
            StateView::Missing(generated) => generated == self.generated(),
            StateView::Mismatch(generated, stored) => generated == self.generated() && stored
                != generated,
        }
    }
}

/// The tag that opens the report line of a test with the given outcome.
pub open spec fn tag_text(state: StateView) -> Seq<char> {
    match state {
        StateView::Missing(_) => "⚬ miss - "@,
        StateView::Correct => "⚬ pass - "@,
        StateView::Mismatch(_, _) => "⚬ fail - "@,
    }
}

/// The style in which the outcome is reported.
pub open spec fn tag_tint(state: StateView) -> Tint {
    match state {
        StateView::Missing(_) => Tint::Yellow,
        StateView::Correct => Tint::Green,
        StateView::Mismatch(_, _) => Tint::Red,
    }
}

/// What follows the tag and the identity in a report: with `show_diff`, a
/// line break and then the generated text of a missing expectation or the
/// rendered difference of a mismatch; else nothing.
pub open spec fn report_detail(state: StateView, show_diff: bool, diff: Seq<char>) -> Seq<char> {
    match state {
        StateView::Missing(generated) => if show_diff {
            "\n"@ + generated
        } else {
            Seq::empty()
        },
        StateView::Correct => Seq::empty(),
        StateView::Mismatch(_, _) => if show_diff {
            "\n"@ + diff
        } else {
            Seq::empty()
        },
    }
}

/// Whether `diff` is what `gen_diff` can return for the stored text and the
/// generated text, in that order.
pub open spec fn is_diff_of<F: Fn(&str, &str) -> String>(
    gen_diff: F,
    stored: Seq<char>,
    generated: Seq<char>,
    diff: Seq<char>,
) -> bool {
    exists|a: &str, b: &str, d: String|
        a@ == stored && b@ == generated && d@ == diff && #[trigger] call_ensures(gen_diff, (a, b), d)
}

/// Whether `gen_diff` may be called where the report of a test with the
/// given outcome needs it: on the stored and the generated text of a
/// mismatch, when `show_diff` is set.
pub open spec fn can_report<F: Fn(&str, &str) -> String>(
    gen_diff: F,
    state: StateView,
    show_diff: bool,
) -> bool {
    state matches StateView::Mismatch(generated, stored) ==> (show_diff ==> forall|
        a: &str,
        b: &str,
    |
        a@ == stored && b@ == generated ==> call_requires(gen_diff, (a, b)))
}

/// Whether `line` is a report of the test `result`: the styled tag, the
/// styled identity, and the detail, whose rendered difference came from
/// `gen_diff` on the stored and the generated text.
pub open spec fn is_report<F: Fn(&str, &str) -> String>(
    line: Seq<char>,
    result: TestResultView,
    show_diff: bool,
    gen_diff: F,
) -> bool {
    exists|tag: Seq<char>, identity: Seq<char>, diff: Seq<char>|
        {
            &&& is_rendering(tag, tag_text(result.state), tag_tint(result.state))
            &&& is_rendering(identity, result.path, tag_tint(result.state))
            &&& result.state matches StateView::Mismatch(generated, stored) ==> (show_diff
                ==> is_diff_of(gen_diff, stored, generated, diff))
            &&& line == #[trigger] report_line(tag, identity, result.state, show_diff, diff)
        }
}

/// A report line: tag, identity, detail.
pub open spec fn report_line(
    tag: Seq<char>,
    identity: Seq<char>,
    state: StateView,
    show_diff: bool,
    diff: Seq<char>,
) -> Seq<char> {
    tag + identity + report_detail(state, show_diff, diff)
}

/// Puts a report line together from its styled tag, its styled identity and
/// the rendered difference. `diff` is read only for a mismatch with
/// `show_diff` set.
pub fn compose_report(
    state: &TestState,
    show_diff: bool,
    tag: &str,
    identity: &str,
    diff: &str,
) -> (line: String)
    ensures
        line@ == report_line(tag@, identity@, state@, show_diff, diff@),
{
    let mut buf = String::new();
    buf.append(tag);
    buf.append(identity);
    assert(buf@ =~= tag@ + identity@);
    match state {
        TestState::Missing(generated) => {
            if show_diff {
                buf.append("\n");
                buf.append(generated.as_str());
                assert(buf@ =~= tag@ + identity@ + ("\n"@ + generated@));
            } else {
                assert(buf@ =~= tag@ + identity@ + Seq::<char>::empty());
            }
        },
        TestState::Correct => {
            assert(buf@ =~= tag@ + identity@ + Seq::<char>::empty());
        },
        TestState::Mismatch(_, _) => {
            if show_diff {
                buf.append("\n");
                buf.append(diff);
                assert(buf@ =~= tag@ + identity@ + ("\n"@ + diff@));
            } else {
                assert(buf@ =~= tag@ + identity@ + Seq::<char>::empty());
            }
        },
    }
    buf
}

/// What saving a result writes, as the path of the file and its new
/// content: nothing for a correct test, else the generated text at the
/// place of the test's expectation.
pub open spec fn write_needed(result: TestResultView) -> Option<(Seq<char>, Seq<char>)> {
    match result.state {
        StateView::Correct => None,
        StateView::Missing(generated) => Some((expect_path(result.path), generated)),
        StateView::Mismatch(generated, _) => Some((expect_path(result.path), generated)),
    }
}

impl TestResult {
    /// The result of a test that ran: its output is rendered as the
    /// canonical text and compared with `stored`, what the expectation file
    /// holds, if there is one.
    pub fn new(
        path: String,
        status: i32,
        stdout: String,
        stderr: String,
        stored: Option<String>,
    ) -> (result: TestResult)
        ensures
            result@.path == path@,
            result@.status == status,
            result@.stdout == stdout@,
            result@.stderr == stderr@,
            result@.state == classification(
                expect_text(status as int, stdout@, stderr@),
                stored_view(stored),
            ),
            result@.well_formed(),
    {
        let generated = to_expect_string(&status, &stdout, &stderr);
        let state = classify(generated, stored);
        TestResult { path, status, stdout, stderr, state }
    }

    /// What has to be written to bring the stored expectation up to date:
    /// the path of the expectation file and its new content. `None` for a
    /// correct test, whose expectation is left untouched.
    pub fn pending_write(&self) -> (write: Option<(String, String)>)
        ensures
            match write_needed(self@) {
                None => write is None,
                Some((file, content)) => write matches Some(w) && w.0@ == file && w.1@ == content,
            },
    {
        match &self.state {
            TestState::Correct => None,
            TestState::Missing(generated) => Some((expect_file(&self.path), generated.clone())),
            TestState::Mismatch(generated, _) => Some((expect_file(&self.path), generated.clone())),
        }
    }

    /// Saves the generated text as the new expectation. `write` stores a
    /// content under a path, replacing what was there; it is called for a
    /// missing or a differing expectation and its answer is handed back. A
    /// correct test needs no write and succeeds.
    pub fn save_results<E, W: FnOnce(&str, &str) -> Result<(), E>>(&self, write: W) -> (saved:
        Result<(), E>)
        requires
            write_needed(self@) matches Some((file, content)) ==> forall|f: &str, c: &str|
                f@ == file && c@ == content ==> call_requires(write, (f, c)),
        ensures
            match write_needed(self@) {
                None => saved is Ok,
                Some((file, content)) => exists|f: &str, c: &str|
                    f@ == file && c@ == content && #[trigger] call_ensures(write, (f, c), saved),
            },
    {
        match self.pending_write() {
            None => Ok(()),
            Some((file, content)) => write(file.as_str(), content.as_str()),
        }
    }

    /// The report line of this test. `gen_diff` renders the difference of
    /// two texts; it is called for a mismatch when `show_diff` is set, with
    /// the stored text first and the generated text second.
    pub fn report_str<F: Fn(&str, &str) -> String>(&self, show_diff: bool, gen_diff: &F) -> (line:
        String)
        requires
            can_report(*gen_diff, self@.state, show_diff),
        ensures
            is_report(line@, self@, show_diff, *gen_diff),
    {
        let (tag, tint) = match &self.state {
            TestState::Missing(_) => ("⚬ miss - ", Tint::Yellow),
            TestState::Correct => ("⚬ pass - ", Tint::Green),
            TestState::Mismatch(_, _) => ("⚬ fail - ", Tint::Red),
        };
        let styled_tag = paint(tag, tint);
        let styled_path = paint(self.path.as_str(), tint);
        let diff = match &self.state {
            TestState::Mismatch(generated, stored) => {
                if show_diff {
                    let d = gen_diff(stored.as_str(), generated.as_str());
                    assert(is_diff_of(*gen_diff, stored@, generated@, d@));
                    d
                } else {
                    String::new()
                }
            },
            _ => String::new(),
        };
        let line = compose_report(
            &self.state,
            show_diff,
            styled_tag.as_str(),
            styled_path.as_str(),
            diff.as_str(),
        );
        assert(line@ == report_line(styled_tag@, styled_path@, self@.state, show_diff, diff@));
        line
    }
}

/// A generated text that is stored and read back unchanged compares as
/// correct with the text generated again from the same captured values.
pub proof fn lemma_round_trip(status: int, stdout: Seq<char>, stderr: Seq<char>)
    ensures
        classification(
            expect_text(status, stdout, stderr),
            Some(expect_text(status, stdout, stderr)),
        ) == StateView::Correct,
{
}

/// Saving writes nothing exactly for a correct test. For any other
/// well-formed result it writes the generated text to the test's expectation
/// file, and a run that gives the same output then compares as correct with
/// what was written.
pub proof fn lemma_saved_then_correct(result: TestResultView)
    requires
        result.well_formed(),
    ensures
        write_needed(result) is None <==> result.state is Correct,
        write_needed(result) matches Some((file, content)) ==> file == expect_path(result.path)
            && content == result.generated() && classification(result.generated(), Some(content))
            == StateView::Correct,
{
}

} // verus!
