//! The outcome of comparing a generated expectation text with the stored one.

use vstd::prelude::*;

verus! {

/// What the comparison of one test found.
#[derive(Debug, Clone, PartialEq, Eq)]
pub enum TestState {
    /// The stored text equals the generated one.
    Correct,
    /// No expectation is stored. Holds the generated text.
    Missing(String),
    /// Both exist and differ. Holds the generated text, then the stored one.
    Mismatch(String, String),
}

/// The mathematical value of a `TestState`: the same three cases over plain
/// sequences of characters.
pub enum StateView {
    Correct,
    Missing(Seq<char>),
    Mismatch(Seq<char>, Seq<char>),
}

impl View for TestState {
    type V = StateView;

    open spec fn view(&self) -> StateView {
        match self {
            TestState::Correct => StateView::Correct,
            TestState::Missing(generated) => StateView::Missing(generated@),
            TestState::Mismatch(generated, stored) => StateView::Mismatch(generated@, stored@),
        }
    }
}

/// The outcomes that a filter can ask for.
#[derive(Debug, Clone, Copy, PartialEq, Eq)]
pub enum OnlyOpt {
    /// Tests whose stored text differs from the generated one.
    Fail,
    /// Tests whose stored text equals the generated one.
    Pass,
    /// Tests without a stored text.
    Missing,
}

/// The outcome of comparing `generated` with what is stored, if anything is.
/// The texts are compared as they are: nothing is trimmed or normalised.
pub open spec fn classification(generated: Seq<char>, stored: Option<Seq<char>>) -> StateView {
    match stored {
        None => StateView::Missing(generated),
        Some(text) => if text == generated {
            StateView::Correct
        } else {
            StateView::Mismatch(generated, text)
        },
    }
}

/// The view of a stored text that may be absent.
pub open spec fn stored_view(stored: Option<String>) -> Option<Seq<char>> {
    match stored {
        None => None,
        Some(text) => Some(text@),
    }
}

/// Whether a filter keeps a test with the given outcome. Without a filter
/// every test is kept.
pub open spec fn selects(only: Option<OnlyOpt>, state: StateView) -> bool {
    match only {
        None => true,
        Some(OnlyOpt::Fail) => state is Mismatch,
        Some(OnlyOpt::Pass) => state is Correct,
        Some(OnlyOpt::Missing) => state is Missing,
    }
}

/// Compares the generated text with the stored one.
pub fn classify(generated: String, stored: Option<String>) -> (state: TestState)
    ensures
        state@ == classification(generated@, stored_view(stored)),
{
    match stored {
        None => TestState::Missing(generated),
        Some(text) => {
            if text == generated {
                TestState::Correct
            } else {
                TestState::Mismatch(generated, text)
            }
        },
    }
}

impl TestState {
    /// Whether the filter `only` keeps a test with this outcome.
    pub fn is_selected(&self, only: &Option<OnlyOpt>) -> (keep: bool)
        ensures
            keep == selects(*only, self@),
    {
        match only {
            None => true,
            Some(OnlyOpt::Fail) => match self {
                TestState::Mismatch(_, _) => true,
                _ => false,
            },
            Some(OnlyOpt::Pass) => match self {
                TestState::Correct => true,
                _ => false,
            },
            Some(OnlyOpt::Missing) => match self {
                TestState::Missing(_) => true,
                _ => false,
            },
        }
    }
}

/// Every comparison gives exactly one of the three outcomes, and which one
/// is decided by whether a text is stored and whether it equals the
/// generated one.
pub proof fn lemma_classification_total(generated: Seq<char>, stored: Option<Seq<char>>)
    ensures
        ({
            let state = classification(generated, stored);
            &&& (state is Correct) || (state is Missing) || (state is Mismatch)
            &&& !((state is Correct) && (state is Missing))
            &&& !((state is Correct) && (state is Mismatch))
            &&& !((state is Missing) && (state is Mismatch))
            &&& (state is Missing) <==> (stored is None)
            &&& (state is Correct) <==> (stored == Some(generated))
            &&& (state is Mismatch) <==> (stored is Some && stored != Some(generated))
            &&& (state is Missing) ==> state == StateView::Missing(generated)
            &&& (state is Mismatch) ==> state == StateView::Mismatch(generated, stored->Some_0)
        }),
{
}

} // verus!
