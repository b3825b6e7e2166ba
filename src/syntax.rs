use vstd::prelude::*;

verus! {

/// An expression of the language under test, reduced to the shapes that collection reads.
#[derive(Debug)]
pub enum Expr {
    /// A bare identifier.
    Name { id: String },
    /// `value.attr`
    Attribute { value: Box<Expr>, attr: String },
    /// `func(args...)`, positional arguments only.
    Call { func: Box<Expr>, args: Vec<Expr> },
    /// A string literal.
    Str { text: String },
    /// A list display `[...]`.
    List { elts: Vec<Expr> },
    /// A tuple display `(...)`.
    Tuple { elts: Vec<Expr> },
    /// Any other expression.
    Other,
}

/// A statement of the language under test, reduced to the shapes that collection reads.
#[derive(Debug)]
pub enum Stmt {
    /// A function definition with its decorator expressions, outermost first.
    FunctionDef { name: String, decorators: Vec<Expr> },
    /// A class definition with its base-class expressions and its body.
    ClassDef { name: String, bases: Vec<Expr>, body: Vec<Stmt> },
    /// Any other statement.
    Other,
}

/// Whether `e` is the identifier `id`.
pub open spec fn is_name(e: Expr, id: Seq<char>) -> bool {
    e matches Expr::Name { id: i } && i@ == id
}

/// Whether `e` is the attribute access `module.attr` on a bare identifier.
pub open spec fn is_module_attribute(e: Expr, module: Seq<char>, attr: Seq<char>) -> bool {
    e matches Expr::Attribute { value, attr: a } && a@ == attr && is_name(*value, module)
}

/// The name of the testing framework's module.
pub open spec fn framework_module() -> Seq<char> {
    "pytest"@
}

/// The name of the legacy unit-testing module.
pub open spec fn unittest_module() -> Seq<char> {
    "unittest"@
}

} // verus!
