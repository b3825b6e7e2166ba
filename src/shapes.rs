use vstd::prelude::*;

use crate::syntax::{framework_module, is_module_attribute, unittest_module, Expr, Stmt};
use crate::text::str_eq;

verus! {

/// Whether `e` is the legacy test-case base class `unittest.TestCase`.
pub open spec fn is_unittest_base(e: Expr) -> bool {
    is_module_attribute(e, unittest_module(), "TestCase"@)
}

/// Whether `e` registers a fixture: `pytest.fixture`, bare or called.
pub open spec fn is_fixture_decorator(e: Expr) -> bool {
    ||| is_module_attribute(e, framework_module(), "fixture"@)
    ||| (e matches Expr::Call { func, .. } && is_module_attribute(*func, framework_module(), "fixture"@))
}

/// Whether some decorator of `decs` registers a fixture.
pub open spec fn has_fixture_decorator(decs: Seq<Expr>) -> bool {
    exists|i: int| 0 <= i < decs.len() && is_fixture_decorator(#[trigger] decs[i])
}

/// Whether `s` is a function definition that registers a fixture.
pub open spec fn is_fixture_def(s: Stmt) -> bool {
    s matches Stmt::FunctionDef { decorators, .. } && has_fixture_decorator(decorators@)
}

/// Whether `e` is a call of `pytest.mark.parametrize`.
pub open spec fn is_parametrize_call(e: Expr) -> bool {
    e matches Expr::Call { func, .. } && (*func matches Expr::Attribute { value, attr }
        && attr@ == "parametrize"@ && is_module_attribute(*value, framework_module(), "mark"@))
}

/// Whether `e` is the identifier `id`.
fn name_is(e: &Expr, id: &str) -> (r: bool)
    ensures
        r == (e matches Expr::Name { id: i } && i@ == id@),
{
    match e {
        Expr::Name { id: i } => str_eq(i.as_str(), id),
        _ => false,
    }
}

/// Whether `e` is `module.attr`.
fn module_attribute_is(e: &Expr, module: &str, attr: &str) -> (r: bool)
    ensures
        r == is_module_attribute(*e, module@, attr@),
{
    match e {
        Expr::Attribute { value, attr: a } => str_eq(a.as_str(), attr) && name_is(&**value, module),
        _ => false,
    }
}

/// Whether a base-class expression names the legacy test-case base.
pub fn find_unittest_base(expr: &Expr) -> (r: bool)
    ensures
        r == is_unittest_base(*expr),
{
    module_attribute_is(expr, "unittest", "TestCase")
}

/// Whether a decorator registers a fixture.
pub fn is_fixture_registration(expr: &Expr) -> (r: bool)
    ensures
        r == is_fixture_decorator(*expr),
{
    if module_attribute_is(expr, "pytest", "fixture") {
        true
    } else {
        match expr {
            Expr::Call { func, .. } => module_attribute_is(&**func, "pytest", "fixture"),
            _ => false,
        }
    }
}

/// Whether some decorator in `decorators` registers a fixture.
fn any_fixture_registration(decorators: &Vec<Expr>) -> (r: bool)
    ensures
        r == has_fixture_decorator(decorators@),
{
    let mut i: usize = 0;
    while i < decorators.len()
        invariant
            i <= decorators@.len(),
            forall|k: int| 0 <= k < i ==> !is_fixture_decorator(#[trigger] decorators@[k]),
        decreases decorators@.len() - i,
    {
        if is_fixture_registration(&decorators[i]) {
            assert(is_fixture_decorator(decorators@[i as int]));
            return true;
        }
        i = i + 1;
    }
    false
}

/// Whether a statement is a fixture definition, which collection never treats as a test.
pub fn is_pytest_fixture(stmt: &Stmt) -> (r: bool)
    ensures
        r == is_fixture_def(*stmt),
{
    match stmt {
        Stmt::FunctionDef { decorators, .. } => any_fixture_registration(decorators),
        _ => false,
    }
}

/// Whether a decorator is a call of `pytest.mark.parametrize`.
pub fn is_parametrize_decorator(expr: &Expr) -> (r: bool)
    ensures
        r == is_parametrize_call(*expr),
{
    match expr {
        Expr::Call { func, .. } => match &**func {
            Expr::Attribute { value, attr } => str_eq(attr.as_str(), "parametrize")
                && module_attribute_is(&**value, "pytest", "mark"),
            _ => false,
        },
        _ => false,
    }
}

} // verus!
