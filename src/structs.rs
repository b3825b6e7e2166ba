use vstd::prelude::*;
use vstd::string::*;

verus! {

/// The options of one run, fixed before the pipeline starts.
#[derive(Debug)]
pub struct Config {
    /// Only collect tests; do not run them.
    pub collect_only: bool,
    /// Root paths or glob patterns to search.
    pub files: Vec<String>,
    /// Prefix of the base name of a file that holds tests.
    pub file_prefix: String,
    /// Prefix of the name of a test function.
    pub test_prefix: String,
    /// Path fragments; a path that holds one of them is skipped.
    pub ignores: Vec<String>,
    /// Trace skipped statements and error details.
    pub verbose: bool,
}

/// One discovered test, or the error descriptor of a file that does not parse.
#[derive(Debug)]
pub struct TestCase {
    /// Path of the file the test comes from.
    pub file: String,
    /// Qualified name; empty only in the error descriptor of a file.
    pub name: String,
    /// Whether the test ran and passed.
    pub passed: bool,
    /// The failure or parse-error detail, if any.
    pub error: Option<String>,
    /// Whether the name is one variant of a parametrized test.
    pub parametrized: bool,
}

/// The value of a [`TestCase`].
pub struct TestCaseView {
    pub file: Seq<char>,
    pub name: Seq<char>,
    pub passed: bool,
    pub error: Option<Seq<char>>,
    pub parametrized: bool,
}

impl View for TestCase {
    type V = TestCaseView;

    open spec fn view(&self) -> TestCaseView {
        TestCaseView {
            file: self.file@,
            name: self.name@,
            passed: self.passed,
            error: match self.error {
                Some(e) => Some(e@),
                None => None,
            },
            parametrized: self.parametrized,
        }
    }
}

/// The values of a sequence of test cases.
pub open spec fn tests_view(tests: Seq<TestCase>) -> Seq<TestCaseView> {
    tests.map_values(|t: TestCase| t@)
}

/// A test that has not run yet.
pub open spec fn pending(file: Seq<char>, name: Seq<char>, parametrized: bool) -> TestCaseView {
    TestCaseView { file, name, passed: false, error: None, parametrized }
}

impl TestCase {
    /// A test named `name` from `file` that has not run yet.
    pub fn new(file: &str, name: String, parametrized: bool) -> (r: TestCase)
        ensures
            r@ == pending(file@, name@, parametrized),
    {
        TestCase { file: String::from_str(file), name, passed: false, error: None, parametrized }
    }
}

} // verus!
