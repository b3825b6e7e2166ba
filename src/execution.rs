use vstd::prelude::*;
use vstd::string::*;

use crate::structs::{TestCase, TestCaseView};

verus! {

/// The detail of a parametrized test, which is refused rather than run.
pub open spec fn not_supported_text() -> Seq<char> {
    "Parametrized tests are not supported yet"@
}

/// `test` failed with the detail `detail`.
pub open spec fn failed_with(test: TestCaseView, detail: Seq<char>) -> TestCaseView {
    TestCaseView {
        file: test.file,
        name: test.name,
        passed: false,
        error: Some(detail),
        parametrized: test.parametrized,
    }
}

/// `test` passed.
pub open spec fn passed(test: TestCaseView) -> TestCaseView {
    TestCaseView {
        file: test.file,
        name: test.name,
        passed: true,
        error: test.error,
        parametrized: test.parametrized,
    }
}

/// Whether a test goes to the execution engine. Parametrized variants do not: they are
/// refused up front, by policy.
pub fn is_dispatched(test: &TestCase) -> (r: bool)
    ensures
        r == !test.parametrized,
{
    !test.parametrized
}

/// A parametrized test, refused without being run: it fails with a "not supported" detail.
pub fn refuse(test: TestCase) -> (r: TestCase)
    ensures
        r@ == failed_with(test@, not_supported_text()),
{
    TestCase {
        file: test.file,
        name: test.name,
        passed: false,
        error: Some(String::from_str("Parametrized tests are not supported yet")),
        parametrized: test.parametrized,
    }
}

/// A test with the outcome the execution engine gave: passed on success, failed with the
/// detail otherwise.
pub fn record_outcome(test: TestCase, outcome: Result<(), String>) -> (r: TestCase)
    ensures
        r@ == match outcome {
            Ok(()) => passed(test@),
            Err(detail) => failed_with(test@, detail@),
        },
{
    match outcome {
        Ok(()) => TestCase {
            file: test.file,
            name: test.name,
            passed: true,
            error: test.error,
            parametrized: test.parametrized,
        },
        Err(detail) => TestCase {
            file: test.file,
            name: test.name,
            passed: false,
            error: Some(detail),
            parametrized: test.parametrized,
        },
    }
}

/// The detail of a test whose fixture could not be found.
pub fn fixture_not_found(fixture_name: &str) -> (r: String)
    ensures
        r@ == "No matching function found for fixture: "@ + fixture_name@,
{
    let mut s = String::from_str("No matching function found for fixture: ");
    s.append(fixture_name);
    s
}

} // verus!
