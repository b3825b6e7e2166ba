use vstd::prelude::*;
use vstd::string::*;

use crate::shapes::{is_parametrize_call, is_parametrize_decorator};
use crate::syntax::{Expr, Stmt};
use crate::text::{decimal, push_char, push_decimal, split_on, split_on_char, trim, trimmed};

verus! {

/// The variable names of an argument-name string: its comma-separated pieces, trimmed.
pub open spec fn arg_tokens(template: Seq<char>) -> Seq<Seq<char>> {
    split_on(template, ',').map_values(|t: Seq<char>| trimmed(t))
}

/// The id of row `i`: `"<token><i>"` for every token, joined with `-`.
pub open spec fn variant_id(tokens: Seq<Seq<char>>, i: nat) -> Seq<char>
    decreases tokens.len(),
{
    if tokens.len() == 0 {
        Seq::<char>::empty()
    } else if tokens.len() == 1 {
        tokens[0] + decimal(i)
    } else {
        variant_id(tokens.drop_last(), i) + seq!['-'] + tokens.last() + decimal(i)
    }
}

/// `"<name>[<id>]"` for row `i`.
pub open spec fn variant_name(name: Seq<char>, tokens: Seq<Seq<char>>, i: nat) -> Seq<char> {
    name + seq!['['] + variant_id(tokens, i) + seq![']']
}

/// The names of the `count` variants of `name` for the argument-name string `template`.
pub open spec fn parameter_ids(name: Seq<char>, template: Seq<char>, count: nat) -> Seq<Seq<char>> {
    Seq::new(count, |i: int| variant_name(name, arg_tokens(template), i as nat))
}

/// The first decorator of `decs` that calls `pytest.mark.parametrize`.
pub open spec fn first_parametrize(decs: Seq<Expr>) -> Option<Expr>
    decreases decs.len(),
{
    if decs.len() == 0 {
        None
    } else if is_parametrize_call(decs[0]) {
        Some(decs[0])
    } else {
        first_parametrize(decs.drop_first())
    }
}

/// The argument-name string and the row count of a parametrize call whose arguments have
/// a supported shape: a string literal, then a list or tuple display.
pub open spec fn parametrize_table(call: Expr) -> Option<(Seq<char>, nat)> {
    match call {
        Expr::Call { args, .. } => if args@.len() >= 2 {
            match (args@[0], args@[1]) {
                (Expr::Str { text }, Expr::List { elts }) => Some((text@, elts@.len())),
                (Expr::Str { text }, Expr::Tuple { elts }) => Some((text@, elts@.len())),
                _ => None,
            }
        } else {
            None
        },
        _ => None,
    }
}

/// Whether the decorators expand a function into variants: the first parametrize decorator
/// has a supported shape and at least one row. Later parametrize decorators are not read.
pub open spec fn is_expanded(decs: Seq<Expr>) -> bool {
    first_parametrize(decs) matches Some(call) && parametrize_table(call) matches Some(t) && t.1 > 0
}

/// The test names that a function named `name` with decorators `decs` stands for.
pub open spec fn variants(name: Seq<char>, decs: Seq<Expr>) -> Seq<Seq<char>> {
    if is_expanded(decs) {
        let t = parametrize_table(first_parametrize(decs)->0)->0;
        parameter_ids(name, t.0, t.1)
    } else {
        seq![name]
    }
}

/// What expansion gives for a statement: the variant names of a function definition, or
/// nothing for any other statement.
pub open spec fn expansion(stmt: Stmt) -> Option<Seq<Seq<char>>> {
    match stmt {
        Stmt::FunctionDef { name, decorators } => Some(variants(name@, decorators@)),
        _ => None,
    }
}

fn variant_name_of(test_name: &str, tokens: &Vec<String>, i: usize) -> (r: String)
    ensures
        r@ == variant_name(test_name@, tokens.deep_view(), i as nat),
{
    let mut s = String::from_str(test_name);
    push_char(&mut s, '[');
    let mut k: usize = 0;
    assert(tokens.deep_view().subrange(0, 0) =~= Seq::<Seq<char>>::empty());
    while k < tokens.len()
        invariant
            k <= tokens@.len(),
            s@ == test_name@ + seq!['['] + variant_id(tokens.deep_view().subrange(0, k as int), i as nat),
        decreases tokens@.len() - k,
    {
        let ghost prev = tokens.deep_view().subrange(0, k as int);
        let ghost next = tokens.deep_view().subrange(0, k + 1);
        assert(next.drop_last() =~= prev);
        assert(next.last() == tokens@[k as int]@);
        if k > 0 {
            push_char(&mut s, '-');
        }
        s.append(tokens[k].as_str());
        push_decimal(&mut s, i);
        if k == 0 {
            assert(prev =~= Seq::<Seq<char>>::empty());
            assert(s@ =~= test_name@ + seq!['['] + variant_id(next, i as nat));
        } else {
            assert(s@ =~= test_name@ + seq!['['] + variant_id(next, i as nat));
        }
        k = k + 1;
    }
    assert(tokens.deep_view().subrange(0, tokens@.len() as int) =~= tokens.deep_view());
    push_char(&mut s, ']');
    assert(s@ =~= variant_name(test_name@, tokens.deep_view(), i as nat));
    s
}

/// The names `"<test_name>[<id>]"` of `count` parametrized variants, where the id of row
/// `i` joins `"<var><i>"` with `-` for each comma-separated variable of `template`.
pub fn generate_parameter_ids(test_name: &str, template: &str, count: usize) -> (r: Vec<String>)
    ensures
        r.deep_view() == parameter_ids(test_name@, template@, count as nat),
{
    let pieces = split_on_char(template, ',');
    let mut tokens: Vec<String> = Vec::new();
    let mut k: usize = 0;
    while k < pieces.len()
        invariant
            k <= pieces@.len(),
            pieces.deep_view() == split_on(template@, ','),
            tokens.deep_view() =~= arg_tokens(template@).subrange(0, k as int),
        decreases pieces@.len() - k,
    {
        let ghost prev = tokens.deep_view();
        let t = trim(pieces[k].as_str());
        assert(pieces.deep_view()[k as int] == pieces@[k as int]@);
        tokens.push(t);
        assert(tokens.deep_view() =~= prev.push(t@));
        k = k + 1;
    }
    let ghost toks = tokens.deep_view();
    assert(toks =~= arg_tokens(template@));
    let mut result: Vec<String> = Vec::new();
    let mut i: usize = 0;
    while i < count
        invariant
            i <= count,
            tokens.deep_view() == toks,
            toks == arg_tokens(template@),
            result.deep_view() =~= parameter_ids(test_name@, template@, count as nat).subrange(0, i as int),
        decreases count - i,
    {
        let ghost prev = result.deep_view();
        let name = variant_name_of(test_name, &tokens, i);
        result.push(name);
        assert(result.deep_view() =~= prev.push(name@));
        i = i + 1;
    }
    result
}

/// Finds the first parametrize decorator.
fn find_parametrize(decorators: &Vec<Expr>) -> (r: Option<usize>)
    ensures
        match r {
            Some(i) => i < decorators@.len() && first_parametrize(decorators@) == Some(decorators@[i as int]),
            None => first_parametrize(decorators@) is None,
        },
{
    let mut i: usize = 0;
    assert(decorators@.subrange(0, decorators@.len() as int) =~= decorators@);
    while i < decorators.len()
        invariant
            i <= decorators@.len(),
            first_parametrize(decorators@) == first_parametrize(decorators@.subrange(i as int, decorators@.len() as int)),
        decreases decorators@.len() - i,
    {
        let ghost rest = decorators@.subrange(i as int, decorators@.len() as int);
        assert(rest[0] == decorators@[i as int]);
        if is_parametrize_decorator(&decorators[i]) {
            return Some(i);
        }
        assert(rest.drop_first() =~= decorators@.subrange(i + 1, decorators@.len() as int));
        i = i + 1;
    }
    None
}

/// The argument-name string and row count of a parametrize call, when its shape is supported.
fn table_of(call: &Expr) -> (r: Option<(&String, usize)>)
    ensures
        match r {
            Some((s, n)) => parametrize_table(*call) == Some((s@, n as nat)),
            None => parametrize_table(*call) is None,
        },
{
    match call {
        Expr::Call { args, .. } => {
            if args.len() >= 2 {
                match (&args[0], &args[1]) {
                    (Expr::Str { text }, Expr::List { elts }) => Some((text, elts.len())),
                    (Expr::Str { text }, Expr::Tuple { elts }) => Some((text, elts.len())),
                    _ => None,
                }
            } else {
                None
            }
        },
        _ => None,
    }
}

/// The variant names of a function named `name` with decorators `decorators`, and whether
/// they come from a parametrize decorator.
pub fn expand_variants(name: &String, decorators: &Vec<Expr>) -> (r: (Vec<String>, bool))
    ensures
        r.0.deep_view() == variants(name@, decorators@),
        r.1 == is_expanded(decorators@),
{
    match find_parametrize(decorators) {
        Some(i) => match table_of(&decorators[i]) {
            Some((template, count)) => {
                if count > 0 {
                    return (generate_parameter_ids(name.as_str(), template.as_str(), count), true);
                }
            },
            None => {},
        },
        None => {},
    }
    let mut single: Vec<String> = Vec::new();
    single.push(name.clone());
    assert(single.deep_view() =~= seq![name@]);
    (single, false)
}

/// The test names that a statement stands for: for a function definition, its parametrized
/// variants, or its own name alone when it carries no supported parametrize decorator;
/// `None` for any other statement.
pub fn expand_parameters(stmt: &Stmt) -> (r: Option<Vec<String>>)
    ensures
        match r {
            Some(v) => expansion(*stmt) == Some(v.deep_view()),
            None => expansion(*stmt) is None,
        },
{
    match stmt {
        Stmt::FunctionDef { name, decorators } => Some(expand_variants(name, decorators).0),
        _ => None,
    }
}

} // verus!

verus! {

/// Expansion depends only on the argument-name string and the number of rows, never on the
/// row values: two decorator lists whose first parametrize calls agree on both give the same
/// names, and with `n > 0` rows the name of row `i` is `"<name>[<id of i>]"`.
pub proof fn lemma_expansion_is_positional(name: Seq<char>, a: Seq<Expr>, b: Seq<Expr>)
    requires
        first_parametrize(a) is Some,
        first_parametrize(b) is Some,
        parametrize_table(first_parametrize(a)->0) == parametrize_table(first_parametrize(b)->0),
    ensures
        variants(name, a) == variants(name, b),
        is_expanded(a) ==> ({
            let t = parametrize_table(first_parametrize(a)->0)->0;
            &&& variants(name, a).len() == t.1
            &&& forall|i: int|
                0 <= i < t.1 ==> #[trigger] variants(name, a)[i] == name + seq!['['] + variant_id(
                    arg_tokens(t.0),
                    i as nat,
                ) + seq![']']
        }),
{
}

/// A parametrize call whose arguments have an unsupported shape (a comprehension, a name,
/// too few arguments) leaves the function's own name alone.
pub proof fn lemma_unsupported_shape_falls_back(name: Seq<char>, decs: Seq<Expr>)
    requires
        first_parametrize(decs) is Some,
        parametrize_table(first_parametrize(decs)->0) is None,
    ensures
        variants(name, decs) == seq![name],
        !is_expanded(decs),
{
}

} // verus!
