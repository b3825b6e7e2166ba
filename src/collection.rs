use vstd::prelude::*;
use vstd::string::*;

use crate::parametrize::{expand_variants, is_expanded, variants};
use crate::shapes::{
    find_unittest_base, is_fixture_def, is_pytest_fixture, is_unittest_base,
};
use crate::structs::{pending, tests_view, TestCase, TestCaseView};
use crate::syntax::{Expr, Stmt};
use crate::text::{has_prefix, push_char, starts_with};

verus! {

/// Whether `s` is a function definition whose name starts with `prefix` and which is not
/// a fixture definition.
pub open spec fn is_test_function(s: Stmt, prefix: Seq<char>) -> bool {
    s matches Stmt::FunctionDef { name, .. } && has_prefix(name@, prefix) && !is_fixture_def(s)
}

/// Whether `s` is a class definition with the legacy test-case base among its bases.
pub open spec fn is_unittest_class(s: Stmt) -> bool {
    s matches Stmt::ClassDef { bases, .. } && exists|i: int|
        0 <= i < bases@.len() && is_unittest_base(#[trigger] bases@[i])
}

/// The name of a function or class definition.
pub open spec fn def_name(s: Stmt) -> Seq<char> {
    match s {
        Stmt::FunctionDef { name, .. } => name@,
        Stmt::ClassDef { name, .. } => name@,
        Stmt::Other => Seq::<char>::empty(),
    }
}

/// The names of the test methods in a class body, in order.
pub open spec fn class_cases(stmts: Seq<Stmt>, prefix: Seq<char>) -> Seq<Seq<char>>
    decreases stmts.len(),
{
    if stmts.len() == 0 {
        Seq::<Seq<char>>::empty()
    } else {
        let rest = class_cases(stmts.drop_last(), prefix);
        if is_test_function(stmts.last(), prefix) {
            rest.push(def_name(stmts.last()))
        } else {
            rest
        }
    }
}

/// `"<class>::<method>"`
pub open spec fn class_qualified(class: Seq<char>, method: Seq<char>) -> Seq<char> {
    class + seq![':', ':'] + method
}

/// The tests that one top-level statement of `file` yields.
pub open spec fn stmt_tests(file: Seq<char>, s: Stmt, prefix: Seq<char>) -> Seq<TestCaseView> {
    match s {
        Stmt::FunctionDef { name, decorators } => if is_test_function(s, prefix) {
            variants(name@, decorators@).map_values(
                |v: Seq<char>| pending(file, v, is_expanded(decorators@)),
            )
        } else {
            Seq::<TestCaseView>::empty()
        },
        Stmt::ClassDef { name, body, .. } => if is_unittest_class(s) {
            class_cases(body@, prefix).map_values(
                |m: Seq<char>| pending(file, class_qualified(name@, m), false),
            )
        } else {
            Seq::<TestCaseView>::empty()
        },
        Stmt::Other => Seq::<TestCaseView>::empty(),
    }
}

/// The tests that the top-level statements of `file` yield, in statement order.
pub open spec fn file_tests(file: Seq<char>, stmts: Seq<Stmt>, prefix: Seq<char>) -> Seq<TestCaseView>
    decreases stmts.len(),
{
    if stmts.len() == 0 {
        Seq::<TestCaseView>::empty()
    } else {
        file_tests(file, stmts.drop_last(), prefix) + stmt_tests(file, stmts.last(), prefix)
    }
}

/// The detail of the error descriptor of a file that does not parse.
pub open spec fn parse_error_message(msg: Seq<char>) -> Seq<char> {
    "Error parsing "@ + msg
}

/// The error descriptor of `file`.
pub open spec fn parse_error_test(file: Seq<char>, msg: Seq<char>) -> TestCaseView {
    TestCaseView {
        file,
        name: Seq::<char>::empty(),
        passed: false,
        error: Some(parse_error_message(msg)),
        parametrized: false,
    }
}

/// The value of a parse outcome.
pub open spec fn parsed_view(parsed: Result<Vec<Stmt>, String>) -> Result<Seq<Stmt>, Seq<char>> {
    match parsed {
        Ok(stmts) => Ok(stmts@),
        Err(msg) => Err(msg@),
    }
}

/// What collection yields for `file`: its tests when it parsed, else its error descriptor alone.
pub open spec fn collected(file: Seq<char>, parsed: Result<Seq<Stmt>, Seq<char>>, prefix: Seq<char>) -> Seq<TestCaseView> {
    match parsed {
        Ok(stmts) => file_tests(file, stmts, prefix),
        Err(msg) => seq![parse_error_test(file, msg)],
    }
}

/// Whether some base-class expression is the legacy test-case base.
fn any_unittest_base(bases: &Vec<Expr>) -> (r: bool)
    ensures
        r == exists|i: int| 0 <= i < bases@.len() && is_unittest_base(#[trigger] bases@[i]),
{
    let mut i: usize = 0;
    while i < bases.len()
        invariant
            i <= bases@.len(),
            forall|k: int| 0 <= k < i ==> !is_unittest_base(#[trigger] bases@[k]),
        decreases bases@.len() - i,
    {
        if find_unittest_base(&bases[i]) {
            assert(is_unittest_base(bases@[i as int]));
            return true;
        }
        i = i + 1;
    }
    false
}

/// Whether a statement is a test function for `prefix`.
fn test_function_check(stmt: &Stmt, prefix: &str) -> (r: bool)
    ensures
        r == is_test_function(*stmt, prefix@),
{
    match stmt {
        Stmt::FunctionDef { name, .. } => starts_with(name.as_str(), prefix) && !is_pytest_fixture(stmt),
        _ => false,
    }
}

/// Whether collection reads a top-level statement: a test function, or a class with the
/// legacy test-case base. Every other statement is skipped.
pub fn is_collectable(stmt: &Stmt, test_prefix: &str) -> (r: bool)
    ensures
        r == (is_test_function(*stmt, test_prefix@) || is_unittest_class(*stmt)),
{
    if test_function_check(stmt, test_prefix) {
        return true;
    }
    match stmt {
        Stmt::ClassDef { bases, .. } => any_unittest_base(bases),
        _ => false,
    }
}

/// The names of the test methods in a legacy test class body: the function definitions
/// whose name starts with `prefix` and that are not fixtures, in order.
pub fn find_unittest_class_cases(stmts: &Vec<Stmt>, prefix: &str) -> (r: Vec<String>)
    ensures
        r.deep_view() == class_cases(stmts@, prefix@),
{
    let mut cases: Vec<String> = Vec::new();
    let mut i: usize = 0;
    assert(stmts@.subrange(0, 0) =~= Seq::<Stmt>::empty());
    while i < stmts.len()
        invariant
            i <= stmts@.len(),
            cases.deep_view() == class_cases(stmts@.subrange(0, i as int), prefix@),
        decreases stmts@.len() - i,
    {
        let ghost seen = stmts@.subrange(0, i + 1);
        assert(seen.drop_last() =~= stmts@.subrange(0, i as int));
        assert(seen.last() == stmts@[i as int]);
        if test_function_check(&stmts[i], prefix) {
            match &stmts[i] {
                Stmt::FunctionDef { name, .. } => {
                    let ghost prev = cases.deep_view();
                    cases.push(name.clone());
                    assert(cases.deep_view() =~= prev.push(name@));
                },
                _ => {},
            }
        }
        i = i + 1;
    }
    assert(stmts@.subrange(0, stmts@.len() as int) =~= stmts@);
    cases
}

/// Appends one pending test per name.
fn push_pending(out: &mut Vec<TestCase>, file: &str, names: &Vec<String>, parametrized: bool)
    ensures
        tests_view(final(out)@) == tests_view(old(out)@) + names.deep_view().map_values(
            |v: Seq<char>| pending(file@, v, parametrized),
        ),
{
    let ghost start = tests_view(out@);
    let mut k: usize = 0;
    while k < names.len()
        invariant
            k <= names@.len(),
            tests_view(out@) =~= start + names.deep_view().subrange(0, k as int).map_values(
                |v: Seq<char>| pending(file@, v, parametrized),
            ),
        decreases names@.len() - k,
    {
        let ghost prev = tests_view(out@);
        out.push(TestCase::new(file, names[k].clone(), parametrized));
        assert(tests_view(out@) =~= prev.push(pending(file@, names@[k as int]@, parametrized)));
        assert(names.deep_view().subrange(0, k + 1) =~= names.deep_view().subrange(0, k as int).push(
            names@[k as int]@,
        ));
        k = k + 1;
    }
    assert(names.deep_view().subrange(0, names@.len() as int) =~= names.deep_view());
}

/// `"<class>::<method>"` for each method name.
fn qualify_all(class: &String, methods: &Vec<String>) -> (r: Vec<String>)
    ensures
        r.deep_view() == methods.deep_view().map_values(|m: Seq<char>| class_qualified(class@, m)),
{
    let mut r: Vec<String> = Vec::new();
    let mut k: usize = 0;
    while k < methods.len()
        invariant
            k <= methods@.len(),
            r.deep_view() =~= methods.deep_view().subrange(0, k as int).map_values(
                |m: Seq<char>| class_qualified(class@, m),
            ),
        decreases methods@.len() - k,
    {
        let mut q = class.clone();
        push_char(&mut q, ':');
        push_char(&mut q, ':');
        q.append(methods[k].as_str());
        assert(q@ =~= class_qualified(class@, methods@[k as int]@));
        let ghost prev = r.deep_view();
        r.push(q);
        assert(r.deep_view() =~= prev.push(class_qualified(class@, methods@[k as int]@)));
        k = k + 1;
    }
    r
}

/// Appends the tests that one top-level statement yields.
fn push_stmt_tests(out: &mut Vec<TestCase>, file: &str, stmt: &Stmt, prefix: &str)
    ensures
        tests_view(final(out)@) == tests_view(old(out)@) + stmt_tests(file@, *stmt, prefix@),
{
    match stmt {
        Stmt::FunctionDef { name, decorators } => {
            if test_function_check(stmt, prefix) {
                let (names, parametrized) = expand_variants(name, decorators);
                push_pending(out, file, &names, parametrized);
            } else {
                assert(tests_view(out@) =~= tests_view(out@) + Seq::<TestCaseView>::empty());
            }
        },
        Stmt::ClassDef { name, bases, body } => {
            if any_unittest_base(bases) {
                let cases = find_unittest_class_cases(body, prefix);
                let qualified = qualify_all(name, &cases);
                push_pending(out, file, &qualified, false);
                assert(qualified.deep_view().map_values(|v: Seq<char>| pending(file@, v, false))
                    =~= class_cases(body@, prefix@).map_values(
                    |m: Seq<char>| pending(file@, class_qualified(name@, m), false),
                ));
            } else {
                assert(tests_view(out@) =~= tests_view(out@) + Seq::<TestCaseView>::empty());
            }
        },
        Stmt::Other => {
            assert(tests_view(out@) =~= tests_view(out@) + Seq::<TestCaseView>::empty());
        },
    }
}

/// The tests of one file, given the outcome of parsing it: on success, for each top-level
/// statement in order, the variants of each test function and `"<Class>::<method>"` for each
/// test method of a legacy test class; on a parse error, a single error descriptor with an
/// empty name and the detail `"Error parsing <message>"`.
pub fn collect_file(file_name: &str, parsed: &Result<Vec<Stmt>, String>, test_prefix: &str) -> (r: Vec<TestCase>)
    ensures
        tests_view(r@) == collected(file_name@, parsed_view(*parsed), test_prefix@),
{
    let mut out: Vec<TestCase> = Vec::new();
    match parsed {
        Ok(stmts) => {
            let mut i: usize = 0;
            assert(tests_view(out@) =~= Seq::<TestCaseView>::empty());
            assert(stmts@.subrange(0, 0) =~= Seq::<Stmt>::empty());
            while i < stmts.len()
                invariant
                    i <= stmts@.len(),
                    tests_view(out@) == file_tests(file_name@, stmts@.subrange(0, i as int), test_prefix@),
                decreases stmts@.len() - i,
            {
                let ghost seen = stmts@.subrange(0, i + 1);
                assert(seen.drop_last() =~= stmts@.subrange(0, i as int));
                assert(seen.last() == stmts@[i as int]);
                push_stmt_tests(&mut out, file_name, &stmts[i], test_prefix);
                i = i + 1;
            }
            assert(stmts@.subrange(0, stmts@.len() as int) =~= stmts@);
        },
        Err(msg) => {
            let mut detail = String::from_str("Error parsing ");
            detail.append(msg.as_str());
            out.push(TestCase {
                file: String::from_str(file_name),
                name: String::new(),
                passed: false,
                error: Some(detail),
                parametrized: false,
            });
            assert(tests_view(out@) =~= seq![parse_error_test(file_name@, msg@)]);
        },
    }
    out
}

} // verus!

verus! {

/// Whether collection reads nothing from `s`: it is neither a test function nor a class with
/// the legacy test-case base.
pub open spec fn yields_nothing(s: Stmt, prefix: Seq<char>) -> bool {
    !is_test_function(s, prefix) && !is_unittest_class(s)
}

proof fn lemma_no_collectable_statements(file: Seq<char>, stmts: Seq<Stmt>, prefix: Seq<char>)
    requires
        forall|k: int| 0 <= k < stmts.len() ==> yields_nothing(#[trigger] stmts[k], prefix),
    ensures
        file_tests(file, stmts, prefix) == Seq::<TestCaseView>::empty(),
    decreases stmts.len(),
{
    if stmts.len() > 0 {
        assert(yields_nothing(stmts[stmts.len() - 1], prefix));
        lemma_no_collectable_statements(file, stmts.drop_last(), prefix);
        assert(stmt_tests(file, stmts.last(), prefix) =~= Seq::<TestCaseView>::empty());
        assert(file_tests(file, stmts, prefix) =~= Seq::<TestCaseView>::empty());
    }
}

/// A file in which exactly one statement is collectable, a test function without a
/// parametrize decorator, yields exactly one test, under that function's own name.
pub proof fn lemma_single_plain_test(file: Seq<char>, stmts: Seq<Stmt>, j: int, prefix: Seq<char>)
    requires
        0 <= j < stmts.len(),
        is_test_function(stmts[j], prefix),
        crate::parametrize::first_parametrize(stmts[j]->FunctionDef_decorators@) is None,
        forall|k: int| 0 <= k < stmts.len() && k != j ==> yields_nothing(#[trigger] stmts[k], prefix),
    ensures
        collected(file, Ok(stmts), prefix) == seq![pending(file, def_name(stmts[j]), false)],
    decreases stmts.len(),
{
    let rest = stmts.drop_last();
    let s = stmts.last();
    if j == stmts.len() - 1 {
        assert forall|k: int| 0 <= k < rest.len() implies yields_nothing(#[trigger] rest[k], prefix) by {
            assert(rest[k] == stmts[k]);
        }
        lemma_no_collectable_statements(file, rest, prefix);
        assert(s == stmts[j]);
        assert(stmt_tests(file, s, prefix) =~= seq![pending(file, def_name(s), false)]);
        assert(file_tests(file, stmts, prefix) =~= seq![pending(file, def_name(s), false)]);
    } else {
        assert forall|k: int| 0 <= k < rest.len() && k != j implies yields_nothing(#[trigger] rest[k], prefix) by {
            assert(rest[k] == stmts[k]);
        }
        assert(rest[j] == stmts[j]);
        lemma_single_plain_test(file, rest, j, prefix);
        assert(yields_nothing(stmts[stmts.len() - 1], prefix));
        assert(stmt_tests(file, s, prefix) =~= Seq::<TestCaseView>::empty());
        assert(file_tests(file, stmts, prefix) =~= file_tests(file, rest, prefix));
    }
}

/// A file that does not parse yields exactly one test: the error descriptor, which has an
/// empty name, the file's path and a non-empty detail.
pub proof fn lemma_parse_error_single(file: Seq<char>, msg: Seq<char>, prefix: Seq<char>)
    ensures
        collected(file, Err(msg), prefix).len() == 1,
        collected(file, Err(msg), prefix)[0].file == file,
        collected(file, Err(msg), prefix)[0].name.len() == 0,
        collected(file, Err(msg), prefix)[0].error matches Some(e) && e.len() > 0,
{
    reveal_strlit("Error parsing ");
}

/// A class with the legacy test-case base yields `"<Class>::<method>"` for each of its test
/// methods, in order; a class without that base yields nothing.
pub proof fn lemma_class_tests(file: Seq<char>, s: Stmt, prefix: Seq<char>)
    requires
        s is ClassDef,
    ensures
        is_unittest_class(s) ==> {
            let cases = class_cases(s->ClassDef_body@, prefix);
            &&& stmt_tests(file, s, prefix).len() == cases.len()
            &&& forall|i: int|
                0 <= i < cases.len() ==> #[trigger] stmt_tests(file, s, prefix)[i] == pending(
                    file,
                    class_qualified(s->ClassDef_name@, cases[i]),
                    false,
                )
        },
        !is_unittest_class(s) ==> stmt_tests(file, s, prefix).len() == 0,
{
}

/// Whether `m` is the name of a test function of `stmts`.
pub open spec fn names_test_function(stmts: Seq<Stmt>, prefix: Seq<char>, m: Seq<char>) -> bool {
    exists|j: int| 0 <= j < stmts.len() && is_test_function(stmts[j], prefix) && def_name(stmts[j]) == m
}

/// Every test method found in a class body is the name of a test function of that body.
pub proof fn lemma_class_cases_are_test_functions(stmts: Seq<Stmt>, prefix: Seq<char>)
    ensures
        forall|i: int|
            0 <= i < class_cases(stmts, prefix).len() ==> names_test_function(
                stmts,
                prefix,
                #[trigger] class_cases(stmts, prefix)[i],
            ),
    decreases stmts.len(),
{
    if stmts.len() > 0 {
        let rest = stmts.drop_last();
        lemma_class_cases_are_test_functions(rest, prefix);
        assert forall|i: int| 0 <= i < class_cases(stmts, prefix).len() implies names_test_function(
            stmts,
            prefix,
            #[trigger] class_cases(stmts, prefix)[i],
        ) by {
            if i < class_cases(rest, prefix).len() {
                assert(names_test_function(rest, prefix, class_cases(rest, prefix)[i]));
                let j = choose|j: int|
                    0 <= j < rest.len() && is_test_function(rest[j], prefix) && def_name(rest[j])
                        == class_cases(rest, prefix)[i];
                assert(stmts[j] == rest[j]);
                assert(class_cases(stmts, prefix)[i] == class_cases(rest, prefix)[i]);
            } else {
                let j = stmts.len() - 1;
                assert(stmts[j] == stmts.last());
                assert(is_test_function(stmts[j], prefix));
            }
        }
    }
}

} // verus!
