use vstd::prelude::*;
use vstd::string::*;

use crate::collection::{collected, file_tests, parse_error_test, stmt_tests};
use crate::structs::{tests_view, TestCase, TestCaseView};
use crate::syntax::Stmt;
use crate::text::{decimal, push_decimal};

verus! {

/// `"<file>::<name>"`
pub open spec fn qualified(t: TestCaseView) -> Seq<char> {
    t.file + "::"@ + t.name
}

/// The line that collection mode prints for a test: `ERROR <file>` for the error descriptor
/// of a file, `ERROR <file>::<name>` for another test with an error, `<file>::<name>` otherwise.
pub open spec fn collect_line_text(t: TestCaseView) -> Seq<char> {
    match t.error {
        Some(_) => if t.name.len() == 0 {
            "ERROR "@ + t.file
        } else {
            "ERROR "@ + qualified(t)
        },
        None => qualified(t),
    }
}

/// The lines that collection mode prints for a test: its line, then its error detail when
/// `verbose` is set.
pub open spec fn collect_lines_text(t: TestCaseView, verbose: bool) -> Seq<Seq<char>> {
    match t.error {
        Some(e) => if verbose {
            seq![collect_line_text(t), e]
        } else {
            seq![collect_line_text(t)]
        },
        None => seq![collect_line_text(t)],
    }
}

/// The line that execution mode prints for a test: `<file>::<name> - PASSED|FAILED`.
pub open spec fn result_line_text(t: TestCaseView) -> Seq<char> {
    qualified(t) + if t.passed {
        " - PASSED"@
    } else {
        " - FAILED"@
    }
}

/// The lines that execution mode prints for a test: its line, then the failure detail of a
/// failed test that has one.
pub open spec fn result_lines_text(t: TestCaseView) -> Seq<Seq<char>> {
    match t.error {
        Some(e) => if !t.passed {
            seq![result_line_text(t), e]
        } else {
            seq![result_line_text(t)]
        },
        None => seq![result_line_text(t)],
    }
}

/// `"<collected> tests collected[, <errors> error(s)] in <seconds>s"`
pub open spec fn collect_summary_text(collected: nat, errors: nat, seconds: Seq<char>) -> Seq<char> {
    decimal(collected) + " tests collected"@ + (if errors == 0 {
        Seq::<char>::empty()
    } else {
        ", "@ + decimal(errors) + if errors == 1 {
            " error"@
        } else {
            " errors"@
        }
    }) + " in "@ + seconds + "s"@
}

/// `"<passed> passed, <failed> failed in <seconds>s"`
pub open spec fn results_summary_text(passed: nat, failed: nat, seconds: Seq<char>) -> Seq<char> {
    decimal(passed) + " passed, "@ + decimal(failed) + " failed in "@ + seconds + "s"@
}

/// The number of tests that carry an error.
pub open spec fn error_count(ts: Seq<TestCaseView>) -> nat
    decreases ts.len(),
{
    if ts.len() == 0 {
        0
    } else {
        error_count(ts.drop_last()) + if ts.last().error is Some {
            1nat
        } else {
            0nat
        }
    }
}

/// The number of tests that carry no error.
pub open spec fn ok_count(ts: Seq<TestCaseView>) -> nat
    decreases ts.len(),
{
    if ts.len() == 0 {
        0
    } else {
        ok_count(ts.drop_last()) + if ts.last().error is None {
            1nat
        } else {
            0nat
        }
    }
}

fn qualified_name(test: &TestCase) -> (r: String)
    ensures
        r@ == qualified(test@),
{
    let mut s = test.file.clone();
    s.append("::");
    s.append(test.name.as_str());
    s
}

/// The line that collection mode prints for a test.
pub fn collect_line(test: &TestCase) -> (r: String)
    ensures
        r@ == collect_line_text(test@),
{
    match &test.error {
        Some(_) => {
            let mut s = String::from_str("ERROR ");
            if test.name.as_str().unicode_len() == 0 {
                s.append(test.file.as_str());
            } else {
                let q = qualified_name(test);
                s.append(q.as_str());
            }
            s
        },
        None => qualified_name(test),
    }
}

/// The lines that collection mode prints for a test, with its error detail when `verbose`.
pub fn collect_lines(test: &TestCase, verbose: bool) -> (r: Vec<String>)
    ensures
        r.deep_view() == collect_lines_text(test@, verbose),
{
    let mut lines: Vec<String> = Vec::new();
    lines.push(collect_line(test));
    match &test.error {
        Some(e) => {
            if verbose {
                lines.push(e.clone());
            }
        },
        None => {},
    }
    assert(lines.deep_view() =~= collect_lines_text(test@, verbose));
    lines
}

/// The line that execution mode prints for a test.
pub fn result_line(test: &TestCase) -> (r: String)
    ensures
        r@ == result_line_text(test@),
{
    let mut s = qualified_name(test);
    if test.passed {
        s.append(" - PASSED");
    } else {
        s.append(" - FAILED");
    }
    s
}

/// The lines that execution mode prints for a test, with the detail of a failure.
pub fn result_lines(test: &TestCase) -> (r: Vec<String>)
    ensures
        r.deep_view() == result_lines_text(test@),
{
    let mut lines: Vec<String> = Vec::new();
    lines.push(result_line(test));
    match &test.error {
        Some(e) => {
            if !test.passed {
                lines.push(e.clone());
            }
        },
        None => {},
    }
    assert(lines.deep_view() =~= result_lines_text(test@));
    lines
}

/// The closing line of collection mode; `seconds` is the elapsed time as printed.
pub fn collect_summary(collected: usize, errors: usize, seconds: &str) -> (r: String)
    ensures
        r@ == collect_summary_text(collected as nat, errors as nat, seconds@),
{
    let mut s = String::new();
    push_decimal(&mut s, collected);
    s.append(" tests collected");
    if errors > 0 {
        s.append(", ");
        push_decimal(&mut s, errors);
        if errors == 1 {
            s.append(" error");
        } else {
            s.append(" errors");
        }
    }
    s.append(" in ");
    s.append(seconds);
    s.append("s");
    assert(s@ =~= collect_summary_text(collected as nat, errors as nat, seconds@));
    s
}

/// The closing line of execution mode; `seconds` is the elapsed time as printed.
pub fn results_summary(passed: usize, failed: usize, seconds: &str) -> (r: String)
    ensures
        r@ == results_summary_text(passed as nat, failed as nat, seconds@),
{
    let mut s = String::new();
    push_decimal(&mut s, passed);
    s.append(" passed, ");
    push_decimal(&mut s, failed);
    s.append(" failed in ");
    s.append(seconds);
    s.append("s");
    assert(s@ =~= results_summary_text(passed as nat, failed as nat, seconds@));
    s
}

/// The counts of collection mode.
#[derive(Debug)]
pub struct CollectTally {
    /// Tests without an error.
    pub collected: usize,
    /// Tests with an error: the files that did not parse.
    pub errors: usize,
}

impl CollectTally {
    /// No tests seen yet.
    pub fn new() -> (r: CollectTally)
        ensures
            r.collected == 0,
            r.errors == 0,
    {
        CollectTally { collected: 0, errors: 0 }
    }

    /// Counts one test.
    pub fn record(&mut self, test: &TestCase)
        requires
            old(self).collected < usize::MAX,
            old(self).errors < usize::MAX,
        ensures
            test.error is Some ==> final(self).errors == old(self).errors + 1 && final(self).collected
                == old(self).collected,
            test.error is None ==> final(self).collected == old(self).collected + 1
                && final(self).errors == old(self).errors,
    {
        match &test.error {
            Some(_) => self.errors = self.errors + 1,
            None => self.collected = self.collected + 1,
        }
    }

    /// The counts of a sequence of tests.
    pub fn of_tests(tests: &Vec<TestCase>) -> (r: CollectTally)
        ensures
            r.collected == ok_count(tests_view(tests@)),
            r.errors == error_count(tests_view(tests@)),
    {
        let mut tally = CollectTally::new();
        let mut i: usize = 0;
        assert(tests_view(tests@).subrange(0, 0) =~= Seq::<TestCaseView>::empty());
        while i < tests.len()
            invariant
                i <= tests@.len(),
                tally.collected == ok_count(tests_view(tests@).subrange(0, i as int)),
                tally.errors == error_count(tests_view(tests@).subrange(0, i as int)),
                tally.collected + tally.errors == i,
            decreases tests@.len() - i,
        {
            let ghost seen = tests_view(tests@).subrange(0, i + 1);
            assert(seen.drop_last() =~= tests_view(tests@).subrange(0, i as int));
            assert(seen.last() == tests@[i as int]@);
            tally.record(&tests[i]);
            i = i + 1;
        }
        assert(tests_view(tests@).subrange(0, tests@.len() as int) =~= tests_view(tests@));
        tally
    }
}

/// The counts of execution mode.
#[derive(Debug)]
pub struct ResultTally {
    pub passed: usize,
    pub failed: usize,
}

impl ResultTally {
    /// No results seen yet.
    pub fn new() -> (r: ResultTally)
        ensures
            r.passed == 0,
            r.failed == 0,
    {
        ResultTally { passed: 0, failed: 0 }
    }

    /// Counts one result.
    pub fn record(&mut self, test: &TestCase)
        requires
            old(self).passed < usize::MAX,
            old(self).failed < usize::MAX,
        ensures
            test.passed ==> final(self).passed == old(self).passed + 1 && final(self).failed
                == old(self).failed,
            !test.passed ==> final(self).failed == old(self).failed + 1 && final(self).passed
                == old(self).passed,
    {
        if test.passed {
            self.passed = self.passed + 1;
        } else {
            self.failed = self.failed + 1;
        }
    }
}

} // verus!

verus! {

/// The tests collected from several files, each given with its parse outcome, in file order.
pub open spec fn all_collected(files: Seq<(Seq<char>, Result<Seq<Stmt>, Seq<char>>)>, prefix: Seq<char>) -> Seq<TestCaseView>
    decreases files.len(),
{
    if files.len() == 0 {
        Seq::<TestCaseView>::empty()
    } else {
        all_collected(files.drop_last(), prefix) + collected(files.last().0, files.last().1, prefix)
    }
}

/// The number of files that did not parse.
pub open spec fn parse_failures(files: Seq<(Seq<char>, Result<Seq<Stmt>, Seq<char>>)>) -> nat
    decreases files.len(),
{
    if files.len() == 0 {
        0
    } else {
        parse_failures(files.drop_last()) + if files.last().1 is Err {
            1nat
        } else {
            0nat
        }
    }
}

proof fn lemma_counts_concat(a: Seq<TestCaseView>, b: Seq<TestCaseView>)
    ensures
        error_count(a + b) == error_count(a) + error_count(b),
        ok_count(a + b) == ok_count(a) + ok_count(b),
    decreases b.len(),
{
    if b.len() == 0 {
        assert(a + b =~= a);
    } else {
        assert((a + b).drop_last() =~= a + b.drop_last());
        assert((a + b).last() == b.last());
        lemma_counts_concat(a, b.drop_last());
    }
}

proof fn lemma_counts_sum(s: Seq<TestCaseView>)
    ensures
        ok_count(s) + error_count(s) == s.len(),
    decreases s.len(),
{
    if s.len() > 0 {
        lemma_counts_sum(s.drop_last());
    }
}

proof fn lemma_counts_without_errors(s: Seq<TestCaseView>)
    requires
        forall|i: int| 0 <= i < s.len() ==> (#[trigger] s[i]).error is None,
    ensures
        error_count(s) == 0,
    decreases s.len(),
{
    if s.len() > 0 {
        assert(s.last() == s[s.len() - 1]);
        lemma_counts_without_errors(s.drop_last());
    }
}

proof fn lemma_file_tests_have_no_errors(file: Seq<char>, stmts: Seq<Stmt>, prefix: Seq<char>)
    ensures
        forall|i: int|
            0 <= i < file_tests(file, stmts, prefix).len() ==> (#[trigger] file_tests(
                file,
                stmts,
                prefix,
            )[i]).error is None,
    decreases stmts.len(),
{
    if stmts.len() > 0 {
        lemma_file_tests_have_no_errors(file, stmts.drop_last(), prefix);
        let left = file_tests(file, stmts.drop_last(), prefix);
        let right = stmt_tests(file, stmts.last(), prefix);
        assert forall|i: int| 0 <= i < right.len() implies (#[trigger] right[i]).error is None by {
        }
        assert forall|i: int| 0 <= i < (left + right).len() implies (#[trigger] (left + right)[i]).error is None by {
            if i >= left.len() {
                assert((left + right)[i] == right[i - left.len()]);
            }
        }
    }
}

/// Collection counts: the errors are exactly the files that did not parse, and every other
/// test counts as collected.
pub proof fn lemma_collection_counts(files: Seq<(Seq<char>, Result<Seq<Stmt>, Seq<char>>)>, prefix: Seq<char>)
    ensures
        error_count(all_collected(files, prefix)) == parse_failures(files),
        ok_count(all_collected(files, prefix)) + parse_failures(files) == all_collected(files, prefix).len(),
    decreases files.len(),
{
    if files.len() > 0 {
        let rest = files.drop_last();
        let (file, parsed) = files.last();
        lemma_collection_counts(rest, prefix);
        lemma_counts_concat(all_collected(rest, prefix), collected(file, parsed, prefix));
        match parsed {
            Ok(stmts) => {
                lemma_file_tests_have_no_errors(file, stmts, prefix);
                lemma_counts_without_errors(file_tests(file, stmts, prefix));
            },
            Err(msg) => {
                let one = seq![parse_error_test(file, msg)];
                assert(one.drop_last() =~= Seq::<TestCaseView>::empty());
            },
        }
        lemma_counts_sum(all_collected(files, prefix));
    }
}

} // verus!
