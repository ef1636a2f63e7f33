//! Result model of a golden-file test runner.
//!
//! The captured outcome of a test (exit status, standard output, standard
//! error) is rendered as one canonical text, compared with the stored
//! expectation, classified, collected per suite, filtered and reported.
//! The functions are verified against contracts over plain sequences of
//! characters. The calls into `colored` and `std::path` stand behind trusted
//! wrappers, each of which says what it takes on trust.

pub mod expect;
pub mod paint;
pub mod result;
pub mod state;
pub mod suite;

pub use expect::{expect_file, to_expect_string};
pub use result::TestResult;
pub use state::{classify, OnlyOpt, TestState};
pub use suite::TestSuiteResult;
