//! The results of one suite: filtering by outcome and the lines of its
//! report.

use crate::expect::{decimal_nat, push_decimal};
use crate::paint::{is_rendering, paint, Tint};
use crate::result::{can_report, is_report, TestResult, TestResultView};
use crate::state::{selects, OnlyOpt};
use vstd::prelude::*;
use vstd::string::*;

verus! {

/// The results of running a suite: its name, the results of its tests in
/// the order in which the tests were found, and the messages of the errors
/// that kept a test from running at all.
#[derive(Debug, Clone)]
pub struct TestSuiteResult(pub String, pub Vec<TestResult>, pub Vec<String>);

/// The mathematical value of a `TestSuiteResult`.
pub struct SuiteView {
    pub name: Seq<char>,
    pub results: Seq<TestResultView>,
    pub errors: Seq<Seq<char>>,
}

/// The views of a sequence of results.
pub open spec fn result_views(results: Seq<TestResult>) -> Seq<TestResultView> {
    results.map_values(|result: TestResult| result@)
}

impl View for TestSuiteResult {
    type V = SuiteView;

    open spec fn view(&self) -> SuiteView {
        SuiteView {
            name: self.0@,
            results: result_views(self.1@),
            errors: self.2@.map_values(|message: String| message@),
        }
    }
}

/// The test of a filter, as a predicate on the values of results.
pub open spec fn selected(only: Option<OnlyOpt>) -> spec_fn(TestResultView) -> bool {
    |result: TestResultView| selects(only, result.state)
}

impl SuiteView {
    /// The suite narrowed to the results that the filter selects, in their
    /// order, with its name and its errors as they are.
    pub open spec fn filtered(self, only: Option<OnlyOpt>) -> SuiteView {
        SuiteView {
            name: self.name,
            results: self.results.filter(selected(only)),
            errors: self.errors,
        }
    }
}

/// The test of a filter, as a predicate on results.
pub open spec fn keeps(only: Option<OnlyOpt>) -> spec_fn(TestResult) -> bool {
    |result: TestResult| selects(only, result.state@)
}

/// The results that a filter keeps, in their order.
pub open spec fn retained(results: Seq<TestResult>, only: Option<OnlyOpt>) -> Seq<TestResult> {
    results.filter(keeps(only))
}

/// Filtering a sequence that ends in `last` filters what stands before it
/// and keeps `last` where the filter selects it.
pub proof fn lemma_retained_push(results: Seq<TestResult>, last: TestResult, only: Option<OnlyOpt>)
    ensures
        retained(results.push(last), only) == if selects(only, last.state@) {
            retained(results, only).push(last)
        } else {
            retained(results, only)
        },
{
    reveal(Seq::filter);
    assert(results.push(last).drop_last() =~= results);
}

/// The values of the results that a filter keeps are the values that it
/// selects among the values of all results.
pub proof fn lemma_views_of_retained(results: Seq<TestResult>, only: Option<OnlyOpt>)
    ensures
        result_views(retained(results, only)) == result_views(results).filter(selected(only)),
    decreases results.len(),
{
    reveal(Seq::filter);
    if results.len() == 0 {
        assert(result_views(retained(results, only)) =~= result_views(results).filter(
            selected(only),
        ));
    } else {
        let front = results.drop_last();
        let last = results.last();
        lemma_views_of_retained(front, only);
        assert(front.push(last) =~= results);
        lemma_retained_push(front, last, only);
        assert(result_views(results).drop_last() =~= result_views(front));
        assert(result_views(results).last() == last@);
        if selects(only, last.state@) {
            assert(result_views(retained(front, only).push(last)) =~= result_views(
                retained(front, only),
            ).push(last@));
        }
    }
}

/// `body` behind the indentation `indent`.
pub open spec fn indented(indent: Seq<char>, body: Seq<char>) -> Seq<char> {
    indent + body
}

/// The header of a report: the suite's name in bold, then the number of
/// tests in brackets.
pub open spec fn header_line(styled_name: Seq<char>, num_tests: nat) -> Seq<char> {
    styled_name + " ("@ + decimal_nat(num_tests) + " tests)"@
}

/// Whether `line` is the header for a suite called `name` and `num_tests`
/// tests.
pub open spec fn is_header(line: Seq<char>, name: Seq<char>, num_tests: nat) -> bool {
    exists|styled_name: Seq<char>|
        is_rendering(styled_name, name, Tint::Bold) && line == #[trigger] header_line(
            styled_name,
            num_tests,
        )
}

/// Whether `line` is the report of the test `result`, indented by two
/// spaces.
pub open spec fn is_result_line<F: Fn(&str, &str) -> String>(
    line: Seq<char>,
    result: TestResultView,
    show_diff: bool,
    gen_diff: F,
) -> bool {
    exists|report: Seq<char>|
        is_report(report, result, show_diff, gen_diff) && line == #[trigger] indented(
            "  "@,
            report,
        )
}

/// Whether `line` is `text` rendered in red behind the indentation
/// `indent`.
pub open spec fn is_error_line(line: Seq<char>, indent: Seq<char>, text: Seq<char>) -> bool {
    exists|body: Seq<char>|
        is_rendering(body, text, Tint::Red) && line == #[trigger] indented(indent, body)
}

/// Whether `lines` is the report of `suite`: the header with `num_tests`,
/// one line for each result in the suite's order, and, where the suite has
/// errors, a line that announces them and one line for each message.
pub open spec fn is_suite_report<F: Fn(&str, &str) -> String>(
    lines: Seq<String>,
    suite: SuiteView,
    show_diff: bool,
    num_tests: nat,
    gen_diff: F,
) -> bool {
    let n = suite.results.len() as int;
    let e = suite.errors.len() as int;
    &&& lines.len() == 1 + n + if e > 0 {
        1 + e
    } else {
        0
    }
    &&& is_header(lines[0]@, suite.name, num_tests)
    &&& forall|k: int|
        1 <= k <= n ==> is_result_line(
            (#[trigger] lines[k])@,
            suite.results[k - 1],
            show_diff,
            gen_diff,
        )
    &&& e > 0 ==> is_error_line(lines[n + 1]@, "  "@, "runt errors"@)
    &&& forall|k: int|
        n + 2 <= k < n + 2 + e ==> is_error_line(
            (#[trigger] lines[k])@,
            "    "@,
            suite.errors[k - n - 2],
        )
}

/// Whether `gen_diff` may be called for every result of the suite whose
/// report needs a rendered difference.
pub open spec fn can_report_all<F: Fn(&str, &str) -> String>(
    gen_diff: F,
    suite: SuiteView,
    show_diff: bool,
) -> bool {
    forall|i: int|
        0 <= i < suite.results.len() ==> can_report(
            gen_diff,
            (#[trigger] suite.results[i]).state,
            show_diff,
        )
}

impl TestSuiteResult {
    /// The lines of the suite's report, in the order in which they are
    /// printed. `num_tests` is the number of tests of the suite before any
    /// filter, and stands in the header whatever the suite still holds.
    /// `gen_diff` renders the difference of a stored and a generated text.
    pub fn report_lines<F: Fn(&str, &str) -> String>(
        self,
        show_diff: bool,
        num_tests: usize,
        gen_diff: &F,
    ) -> (lines: Vec<String>)
        requires
            can_report_all(*gen_diff, self@, show_diff),
        ensures
            is_suite_report(lines@, self@, show_diff, num_tests as nat, *gen_diff),
    {
        let mut lines: Vec<String> = Vec::new();
        let mut header = paint(self.0.as_str(), Tint::Bold);
        let ghost styled_name = header@;
        header.append(" (");
        push_decimal(&mut header, num_tests as u64);
        header.append(" tests)");
        assert(header@ == header_line(styled_name, num_tests as nat));
        lines.push(header);
        let n = self.1.len();
        let mut i: usize = 0;
        while i < n
            invariant
                n == self.1@.len(),
                i <= n,
                lines@.len() == 1 + i,
                is_header(lines@[0]@, self.0@, num_tests as nat),
                can_report_all(*gen_diff, self@, show_diff),
                forall|k: int|
                    1 <= k <= i ==> is_result_line(
                        (#[trigger] lines@[k])@,
                        self@.results[k - 1],
                        show_diff,
                        *gen_diff,
                    ),
            decreases n - i,
        {
            assert(self@.results[i as int] == self.1@[i as int]@);
            let report = self.1[i].report_str(show_diff, gen_diff);
            let mut line = String::new();
            line.append("  ");
            line.append(report.as_str());
            assert(line@ =~= indented("  "@, report@));
            lines.push(line);
            i += 1;
        }
        let e = self.2.len();
        if e > 0 {
            let label = paint("runt errors", Tint::Red);
            let mut line = String::new();
            line.append("  ");
            line.append(label.as_str());
            assert(line@ =~= indented("  "@, label@));
            lines.push(line);
            let mut j: usize = 0;
            while j < e
                invariant
                    n == self.1@.len(),
                    e == self.2@.len(),
                    j <= e,
                    lines@.len() == 2 + n + j,
                    is_header(lines@[0]@, self.0@, num_tests as nat),
                    forall|k: int|
                        1 <= k <= n ==> is_result_line(
                            (#[trigger] lines@[k])@,
                            self@.results[k - 1],
                            show_diff,
                            *gen_diff,
                        ),
                    is_error_line(lines@[n + 1]@, "  "@, "runt errors"@),
                    forall|k: int|
                        n + 2 <= k < n + 2 + j ==> is_error_line(
                            (#[trigger] lines@[k])@,
                            "    "@,
                            self@.errors[k - n - 2],
                        ),
                decreases e - j,
            {
                assert(self@.errors[j as int] == self.2@[j as int]@);
                let message = paint(self.2[j].as_str(), Tint::Red);
                let mut line = String::new();
                line.append("    ");
                line.append(message.as_str());
                assert(line@ =~= indented("    "@, message@));
                lines.push(line);
                j += 1;
            }
        }
        lines
    }

    /// Narrows the suite to the tests whose outcome the filter asks for.
    /// Their order stays; without a filter all tests stay. The name and the
    /// suite's errors are handed on as they are.
    pub fn only_results(self, only: &Option<OnlyOpt>) -> (kept: Self)
        ensures
            kept@ == self@.filtered(*only),
            kept.0 == self.0,
            kept.1@ == retained(self.1@, *only),
            kept.2 == self.2,
    {
        let TestSuiteResult(name, results, errors) = self;
        let ghost all = results@;
        proof {
            lemma_views_of_retained(all, *only);
        }
        let mut results = results;
        let mut reversed: Vec<TestResult> = Vec::new();
        while results.len() > 0
            invariant
                results@.len() + reversed@.len() == all.len(),
                results@ == all.take(results@.len() as int),
                forall|j: int|
                    0 <= j < reversed@.len() ==> reversed@[j] == all[all.len() - 1 - j],
            decreases results@.len(),
        {
            let last = results.pop();
            match last {
                Some(result) => {
                    reversed.push(result);
                },
                None => {},
            }
        }
        let mut kept: Vec<TestResult> = Vec::new();
        proof {
            reveal(Seq::filter);
            assert(all.take(0) =~= Seq::<TestResult>::empty());
        }
        while reversed.len() > 0
            invariant
                reversed@.len() <= all.len(),
                forall|j: int|
                    0 <= j < reversed@.len() ==> reversed@[j] == all[all.len() - 1 - j],
                kept@ == retained(all.take(all.len() - reversed@.len()), *only),
            decreases reversed@.len(),
        {
            let ghost done = all.len() - reversed@.len();
            let next = reversed.pop();
            match next {
                Some(result) => {
                    proof {
                        assert(result == all[done]);
                        assert(all.take(done + 1) =~= all.take(done).push(result));
                        lemma_retained_push(all.take(done), result, *only);
                    }
                    if result.state.is_selected(only) {
                        kept.push(result);
                    }
                },
                None => {},
            }
        }
        proof {
            assert(all.take(all.len() as int) =~= all);
        }
        TestSuiteResult(name, kept, errors)
    }
}

/// Filtering a sequence of values that ends in `last` filters what stands
/// before it and keeps `last` where the filter selects it.
proof fn lemma_filter_push(results: Seq<TestResultView>, last: TestResultView, only: Option<OnlyOpt>)
    ensures
        results.push(last).filter(selected(only)) == if selects(only, last.state) {
            results.filter(selected(only)).push(last)
        } else {
            results.filter(selected(only))
        },
{
    reveal(Seq::filter);
    assert(results.push(last).drop_last() =~= results);
}

/// A filter keeps only results of the outcome it asks for: mismatches for
/// `Fail`, correct ones for `Pass`, missing ones for `Missing`. Each result
/// it keeps is one of the suite, and the suite's name and errors stay.
pub proof fn lemma_filtered_selected(suite: SuiteView, only: Option<OnlyOpt>)
    ensures
        suite.filtered(only).name == suite.name,
        suite.filtered(only).errors == suite.errors,
        suite.filtered(only).results.len() <= suite.results.len(),
        forall|i: int|
            0 <= i < suite.filtered(only).results.len() ==> selects(
                only,
                (#[trigger] suite.filtered(only).results[i]).state,
            ) && suite.results.contains(suite.filtered(only).results[i]),
        only == Some(OnlyOpt::Fail) ==> forall|i: int|
            0 <= i < suite.filtered(only).results.len() ==> (#[trigger] suite.filtered(
                only,
            ).results[i]).state is Mismatch,
        only == Some(OnlyOpt::Pass) ==> forall|i: int|
            0 <= i < suite.filtered(only).results.len() ==> (#[trigger] suite.filtered(
                only,
            ).results[i]).state is Correct,
        only == Some(OnlyOpt::Missing) ==> forall|i: int|
            0 <= i < suite.filtered(only).results.len() ==> (#[trigger] suite.filtered(
                only,
            ).results[i]).state is Missing,
    decreases suite.results.len(),
{
    reveal(Seq::filter);
    let results = suite.results;
    if results.len() > 0 {
        let front = results.drop_last();
        let shorter = SuiteView { name: suite.name, results: front, errors: suite.errors };
        lemma_filtered_selected(shorter, only);
        assert(front.push(results.last()) =~= results);
        lemma_filter_push(front, results.last(), only);
        let kept = results.filter(selected(only));
        assert forall|i: int| 0 <= i < kept.len() implies selects(only, (#[trigger] kept[i]).state)
            && results.contains(kept[i]) by {
            if i < front.filter(selected(only)).len() {
                let r = shorter.filtered(only).results[i];
                assert(front.contains(r));
                let k = choose|k: int| 0 <= k < front.len() && front[k] == r;
                assert(results[k] == r);
            } else {
                assert(kept[i] == results.last());
                assert(results[results.len() - 1] == results.last());
            }
        }
    }
}

/// The results that a filter keeps stand in the order in which they stood
/// in the suite: each is found at a place of the suite, and the places rise.
pub proof fn lemma_filtered_in_order(suite: SuiteView, only: Option<OnlyOpt>) -> (places: Seq<int>)
    ensures
        places.len() == suite.filtered(only).results.len(),
        forall|i: int|
            0 <= i < places.len() ==> 0 <= #[trigger] places[i] < suite.results.len()
                && suite.results[places[i]] == suite.filtered(only).results[i],
        forall|i: int, j: int| 0 <= i < j < places.len() ==> places[i] < places[j],
    decreases suite.results.len(),
{
    reveal(Seq::filter);
    let results = suite.results;
    if results.len() == 0 {
        Seq::empty()
    } else {
        let front = results.drop_last();
        let shorter = SuiteView { name: suite.name, results: front, errors: suite.errors };
        let before = lemma_filtered_in_order(shorter, only);
        assert(front.push(results.last()) =~= results);
        lemma_filter_push(front, results.last(), only);
        if selects(only, results.last().state) {
            before.push(results.len() - 1)
        } else {
            before
        }
    }
}

/// Without a filter the suite stays as it is: the same results in the same
/// order.
pub proof fn lemma_filtered_without_filter(suite: SuiteView)
    ensures
        suite.filtered(None) == suite,
    decreases suite.results.len(),
{
    reveal(Seq::filter);
    let results = suite.results;
    if results.len() > 0 {
        let front = results.drop_last();
        let shorter = SuiteView { name: suite.name, results: front, errors: suite.errors };
        lemma_filtered_without_filter(shorter);
        assert(front.push(results.last()) =~= results);
        lemma_filter_push(front, results.last(), None);
    }
}

/// Filtering twice with the same filter gives what filtering once gives.
pub proof fn lemma_filtered_idempotent(suite: SuiteView, only: Option<OnlyOpt>)
    ensures
        suite.filtered(only).filtered(only) == suite.filtered(only),
    decreases suite.results.len(),
{
    reveal(Seq::filter);
    let results = suite.results;
    if results.len() > 0 {
        let front = results.drop_last();
        let shorter = SuiteView { name: suite.name, results: front, errors: suite.errors };
        lemma_filtered_idempotent(shorter, only);
        assert(front.push(results.last()) =~= results);
        lemma_filter_push(front, results.last(), only);
        if selects(only, results.last().state) {
            lemma_filter_push(front.filter(selected(only)), results.last(), only);
        }
    }
}

} // verus!
