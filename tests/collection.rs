use rytest::collection::{collect_file, find_unittest_class_cases, is_collectable};
use rytest::parametrize::{expand_parameters, generate_parameter_ids};
use rytest::shapes::{find_unittest_base, is_pytest_fixture};
use rytest::syntax::{Expr, Stmt};
use rytest::TestCase;

fn name(id: &str) -> Expr {
    Expr::Name { id: id.to_string() }
}

fn attribute(value: Expr, attr: &str) -> Expr {
    Expr::Attribute { value: Box::new(value), attr: attr.to_string() }
}

fn call(func: Expr, args: Vec<Expr>) -> Expr {
    Expr::Call { func: Box::new(func), args }
}

fn text(s: &str) -> Expr {
    Expr::Str { text: s.to_string() }
}

fn function(n: &str, decorators: Vec<Expr>) -> Stmt {
    Stmt::FunctionDef { name: n.to_string(), decorators }
}

fn parametrize(args: Vec<Expr>) -> Expr {
    call(attribute(attribute(name("pytest"), "mark"), "parametrize"), args)
}

fn rows(n: usize) -> Vec<Expr> {
    (0..n).map(|_| Expr::Other).collect()
}

fn names(tests: &[TestCase]) -> Vec<String> {
    tests.iter().map(|t| t.name.clone()).collect()
}

#[test]
fn test_find_unittest_base() {
    let expr = attribute(name("unittest"), "TestCase");
    assert!(find_unittest_base(&expr));
}

#[test]
fn test_find_unittest_base_false() {
    let expr = attribute(name("unittest"), "NotTestCase");
    assert!(!find_unittest_base(&expr));
}

#[test]
fn test_find_unittest_base_false_no_attribute_expr() {
    let expr = name("unittest");
    assert!(!find_unittest_base(&expr));
}

#[test]
fn test_find_unittest_class_cases() {
    let stmts = vec![
        function("test_one", vec![]),
        function("not_a_test", vec![]),
        function("test_two", vec![]),
    ];
    let prefix = "test_";
    assert_eq!(
        find_unittest_class_cases(&stmts, prefix),
        vec!["test_one".to_string(), "test_two".to_string()]
    );
}

#[test]
fn test_find_unittest_class_cases_empty() {
    let stmts = vec![
        function("tests_one", vec![]),
        function("not_a_test", vec![]),
        function("tests_two", vec![]),
    ];
    let prefix = "test_";
    assert_eq!(find_unittest_class_cases(&stmts, prefix), Vec::<String>::new());
}

#[test]
fn it_works_with_non_parameterized_test() {
    let stmt = function("test_not_parameterized", vec![]);
    let result = expand_parameters(&stmt);
    assert!(result.is_some());
    assert_eq!(result.unwrap(), vec!["test_not_parameterized"]);
}

#[test]
fn it_works_with_single_parameterized_test() {
    let stmt = function(
        "test_parameterized",
        vec![parametrize(vec![text("a"), Expr::List { elts: rows(3) }])],
    );
    let result = expand_parameters(&stmt);
    assert!(result.is_some());
    assert_eq!(
        result.unwrap(),
        vec!["test_parameterized[a0]", "test_parameterized[a1]", "test_parameterized[a2]"]
    );
}

#[test]
fn it_works_with_single_parameterized_test_multiple_args() {
    let pairs = vec![
        Expr::Tuple { elts: rows(2) },
        Expr::Tuple { elts: rows(2) },
        Expr::Tuple { elts: rows(2) },
    ];
    let stmt = function(
        "test_parameterized",
        vec![parametrize(vec![text("a, b"), Expr::List { elts: pairs }])],
    );
    let result = expand_parameters(&stmt);
    assert!(result.is_some());
    assert_eq!(
        result.unwrap(),
        vec![
            "test_parameterized[a0-b0]",
            "test_parameterized[a1-b1]",
            "test_parameterized[a2-b2]"
        ]
    );
}

#[test]
fn it_works_with_single_parameterized_test_multiple_args_tuple() {
    let pairs = vec![
        Expr::Tuple { elts: rows(2) },
        Expr::Tuple { elts: rows(2) },
        Expr::Tuple { elts: rows(2) },
    ];
    let stmt = function(
        "test_parameterized",
        vec![parametrize(vec![text("a, b"), Expr::Tuple { elts: pairs }])],
    );
    let result = expand_parameters(&stmt);
    assert!(result.is_some());
    assert_eq!(
        result.unwrap(),
        vec![
            "test_parameterized[a0-b0]",
            "test_parameterized[a1-b1]",
            "test_parameterized[a2-b2]"
        ]
    );
}

#[test]
fn it_doesnt_blow_up_on_weird_stuff() {
    let stmt = function("test_parameterized", vec![parametrize(vec![text("a"), Expr::Other])]);
    let result = expand_parameters(&stmt);
    assert!(result.is_some());
    assert_eq!(result.unwrap(), vec!["test_parameterized",]);
}

#[test]
fn expansion_of_other_statement_is_none() {
    assert!(expand_parameters(&Stmt::Other).is_none());
}

#[test]
fn expansion_names_are_positional() {
    let numbers = function("f", vec![parametrize(vec![text("a"), Expr::List { elts: rows(3) }])]);
    let strings = function(
        "f",
        vec![parametrize(vec![
            text("a"),
            Expr::List { elts: vec![text("x"), text("y"), text("z")] },
        ])],
    );
    let expected = vec!["f[a0]", "f[a1]", "f[a2]"];
    assert_eq!(expand_parameters(&numbers).unwrap(), expected);
    assert_eq!(expand_parameters(&strings).unwrap(), expected);
}

#[test]
fn expansion_with_two_names_and_tuple_rows() {
    let stmt = function("f", vec![parametrize(vec![text("a, b"), Expr::Tuple { elts: rows(3) }])]);
    assert_eq!(expand_parameters(&stmt).unwrap(), vec!["f[a0-b0]", "f[a1-b1]", "f[a2-b2]"]);
}

#[test]
fn expansion_falls_back_on_comprehension() {
    let stmt = function("f", vec![parametrize(vec![text("a"), Expr::Other])]);
    assert_eq!(expand_parameters(&stmt).unwrap(), vec!["f"]);
}

#[test]
fn expansion_falls_back_on_name_reference_and_missing_arguments() {
    let by_name = function("f", vec![parametrize(vec![text("a"), name("CASES")])]);
    assert_eq!(expand_parameters(&by_name).unwrap(), vec!["f"]);
    let one_arg = function("f", vec![parametrize(vec![text("a")])]);
    assert_eq!(expand_parameters(&one_arg).unwrap(), vec!["f"]);
    let not_a_string = function("f", vec![parametrize(vec![name("a"), Expr::List { elts: rows(2) }])]);
    assert_eq!(expand_parameters(&not_a_string).unwrap(), vec!["f"]);
}

#[test]
fn expansion_with_no_rows_keeps_the_name() {
    let stmt = function("f", vec![parametrize(vec![text("a"), Expr::List { elts: vec![] }])]);
    assert_eq!(expand_parameters(&stmt).unwrap(), vec!["f"]);
}

#[test]
fn expansion_reads_only_the_first_parametrize_decorator() {
    let stmt = function(
        "f",
        vec![
            parametrize(vec![text("a"), Expr::List { elts: rows(2) }]),
            parametrize(vec![text("b"), Expr::List { elts: rows(3) }]),
        ],
    );
    assert_eq!(expand_parameters(&stmt).unwrap(), vec!["f[a0]", "f[a1]"]);
}

#[test]
fn expansion_ignores_other_decorators() {
    let stmt = function(
        "f",
        vec![
            attribute(name("functools"), "cache"),
            call(attribute(attribute(name("other"), "mark"), "parametrize"), vec![text("z"), Expr::List { elts: rows(1) }]),
            parametrize(vec![text("a"), Expr::List { elts: rows(1) }]),
        ],
    );
    assert_eq!(expand_parameters(&stmt).unwrap(), vec!["f[a0]"]);
}

#[test]
fn parameter_ids_trim_names_and_count_past_nine() {
    let ids = generate_parameter_ids("t", " x ,\ty", 12);
    assert_eq!(ids.len(), 12);
    assert_eq!(ids[0], "t[x0-y0]");
    assert_eq!(ids[10], "t[x10-y10]");
    assert_eq!(ids[11], "t[x11-y11]");
}

#[test]
fn parameter_ids_trim_unicode_white_space() {
    assert_eq!(generate_parameter_ids("t", "\u{a0}a\u{3000}, b\u{2009}", 1), vec!["t[a0-b0]"]);
}

#[test]
fn parameter_ids_with_zero_count_are_empty() {
    assert!(generate_parameter_ids("t", "a", 0).is_empty());
}

#[test]
fn parameter_ids_keep_empty_names() {
    assert_eq!(generate_parameter_ids("t", "a,", 1), vec!["t[a0-0]"]);
}

#[test]
fn fixture_decorators_are_recognized() {
    let bare = function("test_thing", vec![attribute(name("pytest"), "fixture")]);
    let called = function("test_thing", vec![call(attribute(name("pytest"), "fixture"), vec![])]);
    let other = function("test_thing", vec![attribute(name("other"), "fixture")]);
    assert!(is_pytest_fixture(&bare));
    assert!(is_pytest_fixture(&called));
    assert!(!is_pytest_fixture(&other));
    assert!(!is_pytest_fixture(&Stmt::Other));
}

#[test]
fn single_plain_test_function_yields_one_test() {
    let parsed = Ok(vec![function("test_x", vec![])]);
    let tests = collect_file("a/test_file.py", &parsed, "test_");
    assert_eq!(tests.len(), 1);
    assert_eq!(tests[0].name, "test_x");
    assert_eq!(tests[0].file, "a/test_file.py");
    assert!(!tests[0].passed);
    assert!(tests[0].error.is_none());
    assert!(!tests[0].parametrized);
}

#[test]
fn fixtures_and_unprefixed_functions_are_not_tests() {
    let parsed = Ok(vec![
        function("test_fixture_value", vec![call(attribute(name("pytest"), "fixture"), vec![])]),
        function("helper", vec![]),
        Stmt::Other,
        function("test_real", vec![]),
    ]);
    let tests = collect_file("t.py", &parsed, "test_");
    assert_eq!(names(&tests), vec!["test_real"]);
}

#[test]
fn parametrized_functions_yield_flagged_variants() {
    let parsed = Ok(vec![function(
        "test_p",
        vec![parametrize(vec![text("a"), Expr::List { elts: rows(2) }])],
    )]);
    let tests = collect_file("t.py", &parsed, "test_");
    assert_eq!(names(&tests), vec!["test_p[a0]", "test_p[a1]"]);
    assert!(tests.iter().all(|t| t.parametrized));
}

#[test]
fn parse_failure_yields_one_error_descriptor() {
    let parsed: Result<Vec<Stmt>, String> = Err("invalid syntax at line 1".to_string());
    let tests = collect_file("a/test_bad.py", &parsed, "test_");
    assert_eq!(tests.len(), 1);
    assert_eq!(tests[0].name, "");
    assert_eq!(tests[0].file, "a/test_bad.py");
    assert_eq!(tests[0].error.as_deref(), Some("Error parsing invalid syntax at line 1"));
    assert!(!tests[0].passed);
}

#[test]
fn legacy_test_class_yields_qualified_methods() {
    let parsed = Ok(vec![Stmt::ClassDef {
        name: "SomeTest".to_string(),
        bases: vec![name("object"), attribute(name("unittest"), "TestCase")],
        body: vec![
            function("test_something", vec![]),
            function("setUp", vec![]),
            Stmt::Other,
            function("test_something_else", vec![]),
        ],
    }]);
    let tests = collect_file("c.py", &parsed, "test_");
    assert_eq!(names(&tests), vec!["SomeTest::test_something", "SomeTest::test_something_else"]);
    assert!(tests.iter().all(|t| !t.parametrized));
}

#[test]
fn class_without_test_case_base_yields_nothing() {
    let parsed = Ok(vec![Stmt::ClassDef {
        name: "Plain".to_string(),
        bases: vec![attribute(name("unittest"), "Mock")],
        body: vec![function("test_something", vec![])],
    }]);
    assert!(collect_file("c.py", &parsed, "test_").is_empty());
}

#[test]
fn class_methods_are_not_parametrized() {
    let parsed = Ok(vec![Stmt::ClassDef {
        name: "K".to_string(),
        bases: vec![attribute(name("unittest"), "TestCase")],
        body: vec![function("test_m", vec![parametrize(vec![text("a"), Expr::List { elts: rows(2) }])])],
    }]);
    assert_eq!(names(&collect_file("c.py", &parsed, "test_")), vec!["K::test_m"]);
}

#[test]
fn collectable_statements() {
    let class = Stmt::ClassDef {
        name: "K".to_string(),
        bases: vec![attribute(name("unittest"), "TestCase")],
        body: vec![],
    };
    assert!(is_collectable(&class, "test_"));
    assert!(is_collectable(&function("test_a", vec![]), "test_"));
    assert!(!is_collectable(&function("a", vec![]), "test_"));
    assert!(!is_collectable(&Stmt::Other, "test_"));
}
