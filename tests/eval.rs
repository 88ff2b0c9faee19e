use jml_eval::ast::{
    BinaryOp, Expression, ExpressionKind, Jml, Key, Located, Statement, StatementKind, UnaryOp,
};
use jml_eval::context::Context;
use jml_eval::errors::{EvalError, RuntimeErrorKind, Span, TypeErrorKind};
use jml_eval::eval;
use jml_eval::eval_with_ctx;
use jml_eval::float::FloatArith;
use jml_eval::jml_type::JmlType;
use jml_eval::value::{JmlObject, JmlValue};

struct HostFloats;

impl FloatArith for HostFloats {
    fn from_int(&self, i: i64) -> u64 {
        (i as f64).to_bits()
    }
    fn add(&self, a: u64, b: u64) -> u64 {
        (f64::from_bits(a) + f64::from_bits(b)).to_bits()
    }
    fn sub(&self, a: u64, b: u64) -> u64 {
        (f64::from_bits(a) - f64::from_bits(b)).to_bits()
    }
    fn mul(&self, a: u64, b: u64) -> u64 {
        (f64::from_bits(a) * f64::from_bits(b)).to_bits()
    }
    fn div(&self, a: u64, b: u64) -> u64 {
        (f64::from_bits(a) / f64::from_bits(b)).to_bits()
    }
    fn rem(&self, a: u64, b: u64) -> u64 {
        (f64::from_bits(a) % f64::from_bits(b)).to_bits()
    }
    fn pow(&self, a: u64, b: u64) -> u64 {
        f64::from_bits(a).powf(f64::from_bits(b)).to_bits()
    }
    fn to_text(&self, a: u64) -> String {
        f64::from_bits(a).to_string()
    }
}

fn at(l: usize, r: usize, node: ExpressionKind) -> Expression {
    Located { l, r, node }
}

fn e(node: ExpressionKind) -> Expression {
    at(0, 0, node)
}

fn lit_int(v: i64) -> Expression {
    e(ExpressionKind::Int(v))
}

fn float(v: f64) -> Expression {
    e(ExpressionKind::Float(v.to_bits()))
}

fn boolean(v: bool) -> Expression {
    e(ExpressionKind::Bool(v))
}

fn string(s: &str) -> Expression {
    e(ExpressionKind::String(s.to_string()))
}

fn var(name: &str) -> Expression {
    e(ExpressionKind::Variable(name.to_string()))
}

fn bin(op: BinaryOp, lhs: Expression, rhs: Expression) -> Expression {
    e(ExpressionKind::BinaryOp { op, lhs: Box::new(lhs), rhs: Box::new(rhs) })
}

fn un(op: UnaryOp, operand: Expression) -> Expression {
    e(ExpressionKind::UnaryOp { op, expr: Box::new(operand) })
}

fn list(items: Vec<Expression>) -> Expression {
    e(ExpressionKind::List(items))
}

fn ident(name: &str) -> Located<String> {
    Located { l: 0, r: 0, node: name.to_string() }
}

fn object(entries: Vec<(&str, Expression)>) -> Expression {
    e(ExpressionKind::Object(
        entries.into_iter().map(|(k, v)| (Key::Ident(ident(k)), v)).collect(),
    ))
}

fn if_expr(c: Expression, t: Expression, f: Expression) -> Expression {
    e(ExpressionKind::IfExpr {
        condition: Box::new(c),
        then_branch: Box::new(t),
        else_branch: Box::new(f),
    })
}

fn lambda(params: &[&str], body: Expression) -> Expression {
    e(ExpressionKind::Lambda {
        params: params.iter().map(|p| ident(p)).collect(),
        body: Box::new(body),
    })
}

fn call(f: Expression, args: Vec<Expression>) -> Expression {
    e(ExpressionKind::Apply { lambda: Box::new(f), args })
}

fn index(target: Expression, i: Expression) -> Expression {
    e(ExpressionKind::IndexAccess { target: Box::new(target), index: Box::new(i) })
}

fn select(target: Expression, key: &str) -> Expression {
    e(ExpressionKind::Selector { target: Box::new(target), key: key.to_string() })
}

fn program(binds: Vec<(&str, Expression)>, body: Expression) -> Jml {
    let header: Vec<Statement> = binds
        .into_iter()
        .map(|(name, expression)| Located {
            l: 0,
            r: 0,
            node: StatementKind::Bind { identifier: ident(name), expression },
        })
        .collect();
    Jml { header, body }
}

fn run(jml: &Jml) -> Result<JmlValue<'_>, EvalError> {
    eval(jml, &HostFloats)
}

fn runtime_kind(r: Result<JmlValue<'_>, EvalError>) -> RuntimeErrorKind {
    match r {
        Err(EvalError::RuntimeError(e)) => e.kind,
        other => panic!("expected a runtime error, got {:?}", other),
    }
}

fn type_kind(r: Result<JmlValue<'_>, EvalError>) -> TypeErrorKind {
    match r {
        Err(EvalError::TypeError(e)) => e.kind,
        other => panic!("expected a type error, got {:?}", other),
    }
}

fn sample(range: std::ops::Range<i64>, step: usize) -> Vec<i64> {
    let mut v: Vec<i64> = range.clone().step_by(step).collect();
    v.push(range.end - 1);
    v
}

#[test]
fn test_subtraction_operations() {
    for a in sample(-1000..1000, 37) {
        for b in sample(-1000..1000, 41) {
            let jml = program(vec![], bin(BinaryOp::Sub, lit_int(a), lit_int(b)));
            let result = run(&jml).expect("should successfully eval");
            assert_eq!(result, JmlValue::integer(a - b));
        }
    }
}

#[test]
fn test_multiplication_operations() {
    for a in sample(-100..100, 7) {
        for b in sample(-100..100, 9) {
            let jml = program(vec![], bin(BinaryOp::Mul, lit_int(a), lit_int(b)));
            let result = run(&jml).expect("should successfully eval");
            assert_eq!(result, JmlValue::integer(a * b));
        }
    }
}

#[test]
fn test_division_operations() {
    for a in sample(-1000..1000, 37) {
        for b in sample(-1000..1000, 41) {
            if b == 0 {
                continue;
            }
            let jml = program(vec![], bin(BinaryOp::Div, lit_int(a), lit_int(b)));
            let result = run(&jml).expect("should successfully eval");
            assert_eq!(result, JmlValue::integer(a / b));
        }
    }
}

#[test]
fn test_modulo_operations() {
    for a in sample(-1000..1000, 37) {
        for b in sample(1..1000, 41) {
            let jml = program(vec![], bin(BinaryOp::Mod, lit_int(a), lit_int(b)));
            let result = run(&jml).expect("should successfully eval");
            assert_eq!(result, JmlValue::integer(a % b));
        }
    }
}

#[test]
fn test_exponentiation_operations() {
    for a in -10i64..10 {
        for b in 0u32..5 {
            let jml = program(vec![], bin(BinaryOp::Pow, lit_int(a), lit_int(b as i64)));
            let result = run(&jml).expect("should successfully eval");
            assert_eq!(result, JmlValue::integer(a.pow(b)));
        }
    }
}

#[test]
fn test_combined_arithmetic_operations() {
    for a in sample(-100..100, 13) {
        for b in sample(-100..100, 11) {
            for c in sample(-100..100, 17) {
                if b == 0 || c == 0 {
                    continue;
                }
                let sum = bin(BinaryOp::Sum, lit_int(a), lit_int(b));
                let product = bin(BinaryOp::Mul, sum, lit_int(c));
                let jml = program(vec![], bin(BinaryOp::Div, product, lit_int(b)));
                let result = run(&jml).expect("should successfully eval");
                assert_eq!(result, JmlValue::integer(((a + b) * c) / b));
            }
        }
    }
}

#[test]
fn test_addition_operations() {
    for a in sample(-1000..1000, 37) {
        for b in sample(-1000..1000, 41) {
            let jml = program(vec![], bin(BinaryOp::Sum, lit_int(a), lit_int(b)));
            let result = run(&jml).expect("should successfully eval");
            assert_eq!(result, JmlValue::integer(a + b));
        }
    }
}

#[test]
fn test_simple_if_expression() {
    let jml = program(
        vec![],
        if_expr(bin(BinaryOp::LT, lit_int(1), lit_int(2)), string("Yes"), string("No")),
    );
    let result = run(&jml).expect("should successfully eval");
    assert_eq!(result, JmlValue::string("Yes".to_string()));
}

#[test]
fn test_nested_if_expression() {
    let inner = if_expr(
        bin(BinaryOp::LT, var("x"), lit_int(15)),
        string("Between 5 and 15"),
        string("Greater than or equal to 15"),
    );
    let jml = program(
        vec![("x", lit_int(10))],
        if_expr(bin(BinaryOp::GT, var("x"), lit_int(5)), inner, string("5 or less")),
    );
    let result = run(&jml).expect("should successfully eval");
    assert_eq!(result, JmlValue::string("Between 5 and 15".to_string()));
}

#[test]
fn test_list_concatenation() {
    let lists = [(vec![1i64, 2], vec![3i64, 4]), (vec![], vec![5]), (vec![], vec![])];
    for (first, second) in lists.iter() {
        let l1 = list(first.iter().map(|v| lit_int(*v)).collect());
        let l2 = list(second.iter().map(|v| lit_int(*v)).collect());
        let jml = program(vec![], bin(BinaryOp::Concat, l1, l2));
        match runtime_kind(run(&jml)) {
            RuntimeErrorKind::GenericError { message } => {
                assert_eq!(message, "concatenation (++) is not implemented")
            }
            other => panic!("unexpected error {:?}", other),
        }
    }
}

#[test]
fn test_list_indexing() {
    let values: Vec<i64> = (0..37).map(|i| i * 7919 - 100_000).collect();
    for len in [1usize, 5, 37] {
        let items = &values[..len];
        for idx in 0i64..100 {
            let l = list(items.iter().map(|v| lit_int(*v)).collect());
            let jml = program(vec![], index(l, lit_int(idx)));
            let result = run(&jml).expect("should successfully eval");
            if (idx as usize) < items.len() {
                assert_eq!(result, JmlValue::integer(items[idx as usize]));
            } else {
                assert_eq!(result, JmlValue::null());
            }
        }
    }
}

#[test]
fn test_list_creation() {
    let jml = program(
        vec![("myList", list(vec![lit_int(1), lit_int(2), lit_int(3), lit_int(4), lit_int(5)]))],
        var("myList"),
    );
    let expected_list = JmlValue::list(vec![
        JmlValue::integer(1),
        JmlValue::integer(2),
        JmlValue::integer(3),
        JmlValue::integer(4),
        JmlValue::integer(5),
    ]);
    let result = run(&jml).expect("should successfully eval");
    assert_eq!(result, expected_list);
}

#[test]
fn test_list_operations() {
    let total = bin(
        BinaryOp::Sum,
        bin(BinaryOp::Sum, index(var("numbers"), lit_int(0)), index(var("numbers"), lit_int(1))),
        index(var("numbers"), lit_int(2)),
    );
    let jml = program(
        vec![("numbers", list(vec![lit_int(1), lit_int(2), lit_int(3)])), ("total", total)],
        var("total"),
    );
    let result = run(&jml).expect("should successfully eval");
    assert_eq!(result, JmlValue::integer(6));
}

#[test]
fn test_list_of_objects() {
    let users = list(vec![
        object(vec![("id", lit_int(1)), ("name", string("Alice"))]),
        object(vec![("id", lit_int(2)), ("name", string("Bob"))]),
    ]);
    let jml = program(vec![("users", users)], select(index(var("users"), lit_int(1)), "name"));
    let result = run(&jml).expect("should successfully eval");
    assert_eq!(result, JmlValue::string("Bob".to_string()));
}

#[test]
fn test_unary_negation() {
    let jml = program(vec![], un(UnaryOp::Minus, lit_int(5)));
    let result = run(&jml).expect("should successfully eval");
    assert_eq!(result, JmlValue::integer(-5));
}

#[test]
fn test_logical_not() {
    let jml = program(vec![], un(UnaryOp::Not, boolean(true)));
    let result = run(&jml).expect("should successfully eval");
    assert_eq!(result, JmlValue::bool(false));
}

#[test]
fn integer_division_by_zero() {
    let jml = program(vec![], bin(BinaryOp::Div, lit_int(5), lit_int(0)));
    assert!(matches!(runtime_kind(run(&jml)), RuntimeErrorKind::DivisionByZero));
}

#[test]
fn float_division_by_zero() {
    let jml = program(vec![], bin(BinaryOp::Div, float(5.0), float(0.0)));
    assert!(matches!(runtime_kind(run(&jml)), RuntimeErrorKind::DivisionByZero));
    let jml = program(vec![], bin(BinaryOp::Div, lit_int(5), float(-0.0)));
    assert!(matches!(runtime_kind(run(&jml)), RuntimeErrorKind::DivisionByZero));
}

#[test]
fn integer_modulo_by_zero() {
    let jml = program(vec![], bin(BinaryOp::Mod, lit_int(5), lit_int(0)));
    assert!(matches!(runtime_kind(run(&jml)), RuntimeErrorKind::DivisionByZero));
}

#[test]
fn equality_does_not_promote() {
    let jml = program(vec![], bin(BinaryOp::EQ, lit_int(1), float(1.0)));
    assert_eq!(run(&jml).unwrap(), JmlValue::bool(false));
    let jml = program(vec![], bin(BinaryOp::NE, lit_int(1), float(1.0)));
    assert_eq!(run(&jml).unwrap(), JmlValue::bool(true));
    let jml = program(vec![], bin(BinaryOp::EQ, float(0.0), float(-0.0)));
    assert_eq!(run(&jml).unwrap(), JmlValue::bool(true));
}

#[test]
fn ordering_promotes_integers() {
    let jml = program(vec![], bin(BinaryOp::LT, lit_int(1), float(1.0)));
    assert_eq!(run(&jml).unwrap(), JmlValue::bool(false));
    let jml = program(vec![], bin(BinaryOp::LE, lit_int(1), float(1.0)));
    assert_eq!(run(&jml).unwrap(), JmlValue::bool(true));
    let jml = program(vec![], bin(BinaryOp::GT, float(2.5), lit_int(2)));
    assert_eq!(run(&jml).unwrap(), JmlValue::bool(true));
    let jml = program(vec![], bin(BinaryOp::LT, float(-3.5), float(-1.0)));
    assert_eq!(run(&jml).unwrap(), JmlValue::bool(true));
}

#[test]
fn float_arithmetic_uses_the_host() {
    let jml = program(vec![], bin(BinaryOp::Sum, lit_int(1), float(0.5)));
    assert_eq!(run(&jml).unwrap(), JmlValue::float(1.5f64.to_bits()));
    let jml = program(vec![], bin(BinaryOp::Pow, float(2.0), lit_int(3)));
    assert_eq!(run(&jml).unwrap(), JmlValue::float(8.0f64.to_bits()));
    let jml = program(vec![], un(UnaryOp::Minus, float(2.0)));
    assert_eq!(run(&jml).unwrap(), JmlValue::float((-2.0f64).to_bits()));
}

#[test]
fn strings_and_booleans_are_ordered() {
    let jml = program(vec![], bin(BinaryOp::LT, string("apple"), string("banana")));
    assert_eq!(run(&jml).unwrap(), JmlValue::bool(true));
    let jml = program(vec![], bin(BinaryOp::GE, string("ab"), string("abc")));
    assert_eq!(run(&jml).unwrap(), JmlValue::bool(false));
    let jml = program(vec![], bin(BinaryOp::GT, boolean(true), boolean(false)));
    assert_eq!(run(&jml).unwrap(), JmlValue::bool(true));
}

#[test]
fn untaken_branch_is_not_evaluated() {
    let jml = program(
        vec![],
        if_expr(bin(BinaryOp::LT, lit_int(1), lit_int(2)), string("Yes"), var("undefined_name")),
    );
    assert_eq!(run(&jml).unwrap(), JmlValue::string("Yes".to_string()));
}

#[test]
fn condition_must_be_boolean() {
    let jml = program(vec![], if_expr(at(3, 4, ExpressionKind::Int(1)), lit_int(1), lit_int(2)));
    match run(&jml) {
        Err(EvalError::TypeError(err)) => {
            assert_eq!(err.span, Span { offset: 3, length: 1 });
            match err.kind {
                TypeErrorKind::MismatchedTypes { expected, found } => {
                    assert_eq!(expected, vec![JmlType::Bool]);
                    assert_eq!(found, JmlType::Int);
                }
                other => panic!("unexpected {:?}", other),
            }
        }
        other => panic!("unexpected {:?}", other),
    }
}

#[test]
fn list_index_out_of_range_and_negative() {
    let jml = program(vec![], index(list(vec![lit_int(1)]), lit_int(-1)));
    assert_eq!(run(&jml).unwrap(), JmlValue::null());
    let jml = program(vec![], index(list(vec![]), lit_int(0)));
    assert_eq!(run(&jml).unwrap(), JmlValue::null());
}

#[test]
fn index_must_be_an_integer() {
    let jml = program(vec![], index(list(vec![lit_int(1)]), string("0")));
    match type_kind(run(&jml)) {
        TypeErrorKind::MismatchedTypes { expected, found } => {
            assert_eq!(expected, vec![JmlType::Int]);
            assert_eq!(found, JmlType::String);
        }
        other => panic!("unexpected {:?}", other),
    }
}

#[test]
fn string_indexing_by_code_point() {
    let jml = program(vec![], index(string("héllo"), lit_int(1)));
    assert_eq!(run(&jml).unwrap(), JmlValue::string("é".to_string()));
    let jml = program(vec![], index(string("abc"), lit_int(3)));
    assert_eq!(run(&jml).unwrap(), JmlValue::null());
}

#[test]
fn selector_requires_an_object() {
    let jml = program(vec![], select(lit_int(1), "name"));
    match type_kind(run(&jml)) {
        TypeErrorKind::MismatchedTypes { expected, found } => {
            assert_eq!(expected, vec![JmlType::List, JmlType::String]);
            assert_eq!(found, JmlType::Int);
        }
        other => panic!("unexpected {:?}", other),
    }
    let jml = program(vec![], select(object(vec![("a", lit_int(1))]), "b"));
    assert_eq!(run(&jml).unwrap(), JmlValue::null());
}

#[test]
fn reduce_sums_numbers() {
    let f = lambda(&["elem", "acc"], bin(BinaryOp::Sum, var("acc"), var("elem")));
    let jml = program(
        vec![("numbers", list(vec![lit_int(1), lit_int(2), lit_int(3)]))],
        call(var("reduce"), vec![var("numbers"), lit_int(0), f]),
    );
    assert_eq!(run(&jml).unwrap(), JmlValue::integer(6));
}

#[test]
fn reduce_passes_element_then_accumulator() {
    let f = lambda(&["elem", "acc"], bin(BinaryOp::Sub, var("elem"), var("acc")));
    let jml = program(
        vec![("numbers", list(vec![lit_int(1), lit_int(2), lit_int(3)]))],
        call(var("reduce"), vec![var("numbers"), lit_int(0), f]),
    );
    // 1 - 0 = 1, 2 - 1 = 1, 3 - 1 = 2
    assert_eq!(run(&jml).unwrap(), JmlValue::integer(2));
    let empty = program(
        vec![],
        call(var("reduce"), vec![list(vec![]), lit_int(7), lambda(&["e", "a"], var("e"))]),
    );
    assert_eq!(run(&empty).unwrap(), JmlValue::integer(7));
}

#[test]
fn map_and_filter() {
    let double = lambda(&["x"], bin(BinaryOp::Mul, var("x"), lit_int(2)));
    let jml = program(vec![], call(var("map"), vec![list(vec![lit_int(1), lit_int(2), lit_int(3)]), double]));
    let expected = JmlValue::list(vec![
        JmlValue::integer(2),
        JmlValue::integer(4),
        JmlValue::integer(6),
    ]);
    assert_eq!(run(&jml).unwrap(), expected);

    let big = lambda(&["x"], bin(BinaryOp::GT, var("x"), lit_int(1)));
    let jml = program(vec![], call(var("filter"), vec![list(vec![lit_int(1), lit_int(2), lit_int(3)]), big]));
    let expected = JmlValue::list(vec![JmlValue::integer(2), JmlValue::integer(3)]);
    assert_eq!(run(&jml).unwrap(), expected);

    let not_bool = lambda(&["x"], lit_int(1));
    let jml = program(vec![], call(var("filter"), vec![list(vec![lit_int(1)]), not_bool]));
    assert_eq!(run(&jml).unwrap(), JmlValue::list(vec![]));
}

#[test]
fn map_requires_a_list() {
    let jml = program(vec![], call(var("map"), vec![lit_int(1), lambda(&["x"], var("x"))]));
    match type_kind(run(&jml)) {
        TypeErrorKind::MismatchedTypes { expected, found } => {
            assert_eq!(expected, vec![JmlType::List]);
            assert_eq!(found, JmlType::Int);
        }
        other => panic!("unexpected {:?}", other),
    }
}

#[test]
fn pluck_keeps_insertion_order() {
    let jml = program(
        vec![],
        call(var("pluck"), vec![object(vec![("id", lit_int(1)), ("name", string("Alice"))])]),
    );
    let mut first = JmlObject::new();
    first.insert("key".to_string(), JmlValue::string("id".to_string()));
    first.insert("value".to_string(), JmlValue::integer(1));
    let mut second = JmlObject::new();
    second.insert("key".to_string(), JmlValue::string("name".to_string()));
    second.insert("value".to_string(), JmlValue::string("Alice".to_string()));
    let expected = JmlValue::list(vec![JmlValue::object(first), JmlValue::object(second)]);
    assert_eq!(run(&jml).unwrap(), expected);
}

#[test]
fn pluck_requires_an_object() {
    let jml = program(vec![], call(var("pluck"), vec![lit_int(1)]));
    match type_kind(run(&jml)) {
        TypeErrorKind::MismatchedTypes { expected, found } => {
            assert_eq!(expected, vec![JmlType::Object]);
            assert_eq!(found, JmlType::Int);
        }
        other => panic!("unexpected {:?}", other),
    }
}

#[test]
fn undefined_variable_span() {
    let body = bin(BinaryOp::Sum, lit_int(1), at(4, 9, ExpressionKind::Variable("ghost".to_string())));
    let jml = program(vec![], body);
    match run(&jml) {
        Err(EvalError::RuntimeError(err)) => {
            assert_eq!(err.span, Span { offset: 4, length: 5 });
            match err.kind {
                RuntimeErrorKind::UndefinedVariable { name } => assert_eq!(name, "ghost"),
                other => panic!("unexpected {:?}", other),
            }
        }
        other => panic!("unexpected {:?}", other),
    }
}

#[test]
fn wrong_argument_count() {
    let f = lambda(&["a", "b"], var("a"));
    let jml = program(
        vec![],
        Located {
            l: 2,
            r: 12,
            node: ExpressionKind::Apply { lambda: Box::new(f), args: vec![var("undefined_arg")] },
        },
    );
    match run(&jml) {
        Err(EvalError::TypeError(err)) => {
            assert_eq!(err.span, Span { offset: 2, length: 10 });
            match err.kind {
                TypeErrorKind::ArgumentCountMismatch { expected_count, actual_count } => {
                    assert_eq!(expected_count, 2);
                    assert_eq!(actual_count, 1);
                }
                other => panic!("unexpected {:?}", other),
            }
        }
        other => panic!("unexpected {:?}", other),
    }
}

#[test]
fn calling_a_non_lambda() {
    let jml = program(vec![], call(lit_int(3), vec![lit_int(1)]));
    match type_kind(run(&jml)) {
        TypeErrorKind::MismatchedTypes { expected, found } => {
            assert_eq!(expected, vec![JmlType::Lambda { arity: 1 }]);
            assert_eq!(found, JmlType::Int);
        }
        other => panic!("unexpected {:?}", other),
    }
}

#[test]
fn operator_type_errors() {
    let jml = program(vec![], bin(BinaryOp::Sum, string("a"), lit_int(1)));
    match type_kind(run(&jml)) {
        TypeErrorKind::InvalidBinaryOperator { operator, left, right } => {
            assert_eq!(operator, "+");
            assert_eq!(left, JmlType::String);
            assert_eq!(right, JmlType::Int);
        }
        other => panic!("unexpected {:?}", other),
    }
    let jml = program(vec![], bin(BinaryOp::LT, list(vec![]), lit_int(1)));
    match type_kind(run(&jml)) {
        TypeErrorKind::NotOrderedType { found } => assert_eq!(found, JmlType::List),
        other => panic!("unexpected {:?}", other),
    }
    let jml = program(vec![], bin(BinaryOp::LT, lit_int(1), string("a")));
    match type_kind(run(&jml)) {
        TypeErrorKind::InvalidBinaryOperator { operator, .. } => assert_eq!(operator, "<"),
        other => panic!("unexpected {:?}", other),
    }
    let jml = program(vec![], bin(BinaryOp::And, boolean(true), lit_int(1)));
    match type_kind(run(&jml)) {
        TypeErrorKind::InvalidBinaryOperator { operator, .. } => assert_eq!(operator, "&&"),
        other => panic!("unexpected {:?}", other),
    }
    let jml = program(vec![], un(UnaryOp::Minus, string("a")));
    match type_kind(run(&jml)) {
        TypeErrorKind::InvalidUnaryOperator { operator, right } => {
            assert_eq!(operator, "-");
            assert_eq!(right, JmlType::String);
        }
        other => panic!("unexpected {:?}", other),
    }
    let jml = program(vec![], un(UnaryOp::Not, lit_int(1)));
    match type_kind(run(&jml)) {
        TypeErrorKind::InvalidUnaryOperator { operator, .. } => assert_eq!(operator, "!"),
        other => panic!("unexpected {:?}", other),
    }
}

#[test]
fn integer_overflow_is_reported() {
    for body in [
        bin(BinaryOp::Sum, lit_int(i64::MAX), lit_int(1)),
        bin(BinaryOp::Sub, lit_int(i64::MIN), lit_int(1)),
        bin(BinaryOp::Mul, lit_int(i64::MAX), lit_int(2)),
        bin(BinaryOp::Div, lit_int(i64::MIN), lit_int(-1)),
        bin(BinaryOp::Pow, lit_int(2), lit_int(64)),
        bin(BinaryOp::Pow, lit_int(2), lit_int(-1)),
        un(UnaryOp::Minus, lit_int(i64::MIN)),
    ] {
        let jml = program(vec![], body);
        assert!(matches!(runtime_kind(run(&jml)), RuntimeErrorKind::Overflow));
    }
    let jml = program(vec![], bin(BinaryOp::Pow, lit_int(-2), lit_int(63)));
    assert_eq!(run(&jml).unwrap(), JmlValue::integer(i64::MIN));
    let jml = program(vec![], bin(BinaryOp::Mod, lit_int(i64::MIN), lit_int(-1)));
    assert_eq!(run(&jml).unwrap(), JmlValue::integer(0));
    let jml = program(vec![], bin(BinaryOp::Pow, lit_int(-1), lit_int(i64::MAX)));
    assert_eq!(run(&jml).unwrap(), JmlValue::integer(-1));
}

#[test]
fn logical_operators_evaluate_both_sides() {
    let jml = program(vec![], bin(BinaryOp::And, boolean(false), var("missing")));
    assert!(matches!(runtime_kind(run(&jml)), RuntimeErrorKind::UndefinedVariable { .. }));
    let jml = program(vec![], bin(BinaryOp::Or, boolean(false), boolean(true)));
    assert_eq!(run(&jml).unwrap(), JmlValue::bool(true));
}

#[test]
fn computed_object_keys() {
    let entries = vec![
        (Key::Expression(lit_int(42)), string("answer")),
        (Key::Ident(ident("a")), lit_int(1)),
        (Key::Expression(string("a")), lit_int(2)),
        (Key::Expression(float(1.5)), boolean(true)),
    ];
    let jml = program(vec![], e(ExpressionKind::Object(entries)));
    let mut expected = JmlObject::new();
    expected.insert("42".to_string(), JmlValue::string("answer".to_string()));
    expected.insert("a".to_string(), JmlValue::integer(2));
    expected.insert("1.5".to_string(), JmlValue::bool(true));
    let result = run(&jml).unwrap();
    assert_eq!(result, JmlValue::object(expected));
    match result {
        JmlValue::Object(o) => {
            let keys: Vec<&str> = o.entries().iter().map(|(k, _)| k.as_str()).collect();
            assert_eq!(keys, vec!["42", "a", "1.5"]);
        }
        other => panic!("unexpected {:?}", other),
    }
    let bad = vec![(Key::Expression(at(5, 9, ExpressionKind::Bool(true))), lit_int(1))];
    match run(&program(vec![], e(ExpressionKind::Object(bad)))) {
        Err(EvalError::TypeError(err)) => {
            assert_eq!(err.span, Span { offset: 5, length: 4 });
            match err.kind {
                TypeErrorKind::MismatchedTypes { expected, found } => {
                    assert_eq!(expected, vec![JmlType::String]);
                    assert_eq!(found, JmlType::Bool);
                }
                other => panic!("unexpected {:?}", other),
            }
        }
        other => panic!("unexpected {:?}", other),
    }
}

#[test]
fn lazy_bindings_are_evaluated_at_each_reference() {
    let logged = call(var("log"), vec![string("seen"), lit_int(1)]);
    let jml = program(vec![("x", logged)], bin(BinaryOp::Sum, var("x"), var("x")));
    let mut ctx = Context::new();
    let result = eval_with_ctx(&jml, &mut ctx, &HostFloats).unwrap();
    assert_eq!(result, JmlValue::integer(2));
    let log = ctx.take_log();
    assert_eq!(log.len(), 2);
    assert_eq!(log[0].0, JmlValue::string("seen".to_string()));
    assert_eq!(log[0].1, JmlValue::integer(1));
}

#[test]
fn local_frames_are_flat() {
    // The inner call replaces the outer lambda's frame, so `x` is not visible
    // inside `inner`'s body.
    let inner = lambda(&["y"], var("x"));
    let outer = lambda(&["x"], call(var("inner"), vec![lit_int(2)]));
    let jml = program(vec![("inner", inner), ("outer", outer)], call(var("outer"), vec![lit_int(1)]));
    assert!(matches!(runtime_kind(run(&jml)), RuntimeErrorKind::UndefinedVariable { .. }));
    // A parameter shadows a top-level binding of the same name.
    let f = lambda(&["x"], var("x"));
    let jml = program(vec![("x", lit_int(100)), ("f", f)], call(var("f"), vec![lit_int(1)]));
    assert_eq!(run(&jml).unwrap(), JmlValue::integer(1));
}

#[test]
fn context_survives_errors() {
    let f = lambda(&["x"], var("missing"));
    let jml = program(vec![("f", f)], call(var("f"), vec![lit_int(1)]));
    let mut ctx = Context::new();
    assert!(eval_with_ctx(&jml, &mut ctx, &HostFloats).is_err());
    let ok = program(vec![], var("x"));
    let mut ctx2 = Context::new();
    ctx2.bind_with_value("x".to_string(), JmlValue::integer(3));
    assert_eq!(eval_with_ctx(&ok, &mut ctx2, &HostFloats).unwrap(), JmlValue::integer(3));
}

#[test]
fn deep_recursion_is_an_error() {
    let f = lambda(&["n"], call(var("f"), vec![var("n")]));
    let jml = program(vec![("f", f)], call(var("f"), vec![lit_int(0)]));
    match runtime_kind(run(&jml)) {
        RuntimeErrorKind::GenericError { message } => assert_eq!(message, "nesting too deep"),
        other => panic!("unexpected {:?}", other),
    }
}

fn log_call(label: &str, value: Expression) -> Expression {
    call(var("log"), vec![string(label), value])
}

fn run_logged(jml: &Jml) -> (Result<JmlValue<'_>, EvalError>, Vec<String>) {
    let mut ctx = Context::new();
    let result = eval_with_ctx(jml, &mut ctx, &HostFloats);
    let labels = ctx
        .take_log()
        .into_iter()
        .map(|(label, _)| match label {
            JmlValue::String(s) => s.0,
            other => panic!("unexpected label {:?}", other),
        })
        .collect();
    (result, labels)
}

#[test]
fn negative_exponents() {
    let jml = program(vec![], bin(BinaryOp::Pow, lit_int(1), lit_int(-3)));
    assert_eq!(run(&jml).unwrap(), JmlValue::integer(1));
    let jml = program(vec![], bin(BinaryOp::Pow, lit_int(0), lit_int(-1)));
    assert_eq!(run(&jml).unwrap(), JmlValue::integer(0));
    let jml = program(vec![], bin(BinaryOp::Pow, lit_int(-1), lit_int(-3)));
    assert_eq!(run(&jml).unwrap(), JmlValue::integer(-1));
    let jml = program(vec![], bin(BinaryOp::Pow, lit_int(-1), lit_int(-4)));
    assert_eq!(run(&jml).unwrap(), JmlValue::integer(1));
}

#[test]
fn log_records_each_evaluation_once() {
    let jml = program(
        vec![],
        list(vec![log_call("a", lit_int(1)), log_call("b", lit_int(2))]),
    );
    let (result, labels) = run_logged(&jml);
    assert_eq!(result.unwrap(), JmlValue::list(vec![JmlValue::integer(1), JmlValue::integer(2)]));
    assert_eq!(labels, vec!["a", "b"]);
}

#[test]
fn nothing_after_an_error_is_evaluated() {
    let jml = program(
        vec![],
        list(vec![log_call("a", lit_int(1)), var("missing"), log_call("b", lit_int(2))]),
    );
    let (result, labels) = run_logged(&jml);
    assert!(result.is_err());
    assert_eq!(labels, vec!["a"]);

    let jml = program(
        vec![],
        bin(BinaryOp::And, var("missing"), log_call("rhs", boolean(true))),
    );
    let (result, labels) = run_logged(&jml);
    assert!(result.is_err());
    assert!(labels.is_empty());
}

#[test]
fn bad_condition_evaluates_no_branch() {
    let jml = program(
        vec![],
        if_expr(lit_int(1), log_call("then", lit_int(1)), log_call("else", lit_int(2))),
    );
    let (result, labels) = run_logged(&jml);
    assert!(result.is_err());
    assert!(labels.is_empty());
    let jml = program(
        vec![],
        if_expr(boolean(false), log_call("then", lit_int(1)), log_call("else", lit_int(2))),
    );
    let (result, labels) = run_logged(&jml);
    assert_eq!(result.unwrap(), JmlValue::integer(2));
    assert_eq!(labels, vec!["else"]);
}

#[test]
fn bad_index_does_not_evaluate_target() {
    let jml = program(vec![], index(log_call("target", list(vec![])), string("0")));
    let (result, labels) = run_logged(&jml);
    assert!(result.is_err());
    assert!(labels.is_empty());
}

#[test]
fn wrong_arity_evaluates_no_argument() {
    let f = lambda(&["a", "b"], var("a"));
    let jml = program(vec![], call(f, vec![log_call("arg", lit_int(1))]));
    let (result, labels) = run_logged(&jml);
    assert!(result.is_err());
    assert!(labels.is_empty());
    let jml = program(vec![], call(lit_int(3), vec![log_call("arg", lit_int(1))]));
    let (result, labels) = run_logged(&jml);
    assert!(result.is_err());
    assert!(labels.is_empty());
}

#[test]
fn reduce_calls_once_per_element() {
    let f = lambda(&["e", "acc"], log_call("step", bin(BinaryOp::Sum, var("acc"), var("e"))));
    let jml = program(
        vec![],
        call(var("reduce"), vec![list(vec![lit_int(1), lit_int(2), lit_int(3)]), lit_int(0), f]),
    );
    let (result, labels) = run_logged(&jml);
    assert_eq!(result.unwrap(), JmlValue::integer(6));
    assert_eq!(labels, vec!["step", "step", "step"]);
    let g = lambda(&["x"], log_call("never", var("x")));
    let jml = program(vec![], call(var("map"), vec![lit_int(1), g]));
    let (result, labels) = run_logged(&jml);
    assert!(result.is_err());
    assert!(labels.is_empty());
}

#[test]
fn caller_chooses_the_nesting_budget() {
    let nested = bin(BinaryOp::Sum, bin(BinaryOp::Sum, lit_int(1), lit_int(2)), lit_int(3));
    let jml = program(vec![], nested);
    let mut ctx = Context::new();
    match jml_eval::eval_with_ctx_depth(&jml, &mut ctx, &HostFloats, 1) {
        Err(EvalError::RuntimeError(err)) => match err.kind {
            RuntimeErrorKind::GenericError { message } => assert_eq!(message, "nesting too deep"),
            other => panic!("unexpected {:?}", other),
        },
        other => panic!("unexpected {:?}", other),
    }
    let mut ctx = Context::new();
    let result = jml_eval::eval_with_ctx_depth(&jml, &mut ctx, &HostFloats, 2).unwrap();
    assert_eq!(result, JmlValue::integer(6));
}

#[test]
fn integer_keys_use_decimal_text() {
    for (n, text) in [(-5i64, "-5"), (0, "0"), (1234567890, "1234567890"), (i64::MIN, "-9223372036854775808")] {
        let entries = vec![(Key::Expression(lit_int(n)), boolean(true))];
        let jml = program(vec![], e(ExpressionKind::Object(entries)));
        let mut expected = JmlObject::new();
        expected.insert(text.to_string(), JmlValue::bool(true));
        assert_eq!(run(&jml).unwrap(), JmlValue::object(expected));
    }
}

#[test]
fn object_equality_ignores_order() {
    let a = program(vec![], object(vec![("a", lit_int(1)), ("b", lit_int(2))]));
    let b = program(vec![], object(vec![("b", lit_int(2)), ("a", lit_int(1))]));
    let c = program(vec![], object(vec![("b", lit_int(3)), ("a", lit_int(1))]));
    let va = run(&a).unwrap();
    assert_eq!(va, run(&b).unwrap());
    assert_ne!(va, run(&c).unwrap());
    let eq = program(
        vec![],
        bin(
            BinaryOp::EQ,
            object(vec![("a", lit_int(1)), ("b", lit_int(2))]),
            object(vec![("b", lit_int(2)), ("a", lit_int(1))]),
        ),
    );
    assert_eq!(run(&eq).unwrap(), JmlValue::bool(true));
}

#[test]
fn recursion_reaches_a_hundred_levels() {
    // count(n) = if n == 0 then 0 else 1 + count(n - 1)
    let body = if_expr(
        bin(BinaryOp::EQ, var("n"), lit_int(0)),
        lit_int(0),
        bin(
            BinaryOp::Sum,
            lit_int(1),
            call(var("count"), vec![bin(BinaryOp::Sub, var("n"), lit_int(1))]),
        ),
    );
    let jml = program(vec![("count", lambda(&["n"], body))], call(var("count"), vec![lit_int(150)]));
    assert_eq!(run(&jml).unwrap(), JmlValue::integer(150));
}

#[test]
fn undefined_variable_at_zero_budget() {
    let jml = program(vec![], at(2, 7, ExpressionKind::Variable("ghost".to_string())));
    let mut ctx = Context::new();
    match jml_eval::eval_with_ctx_depth(&jml, &mut ctx, &HostFloats, 0) {
        Err(EvalError::RuntimeError(err)) => {
            assert_eq!(err.span, Span { offset: 2, length: 5 });
            assert!(matches!(err.kind, RuntimeErrorKind::UndefinedVariable { .. }));
        }
        other => panic!("unexpected {:?}", other),
    }
}
