use std::collections::HashMap;

use hulk::ast::{BinaryOp, Expr, Literal, MacroPattern, MacroPatternBind, NumberLit, SourceSpan, TypeRef, UnaryOp};
use hulk::pattern::try_match;

fn s() -> SourceSpan {
    SourceSpan::new(1, 1)
}

fn number(n: f64) -> NumberLit {
    NumberLit::new(n.to_bits(), format!("{}", n))
}

fn num(n: f64) -> Expr {
    Expr::number(number(n), s())
}

fn bool_lit(b: bool) -> Expr {
    Expr::boolean(b, s())
}

fn string_lit(st: &str) -> Expr {
    Expr::string(st.to_string(), s())
}

fn bin(op: BinaryOp, left: Expr, right: Expr) -> Expr {
    Expr::binary(op, left, right, s())
}

fn un(op: UnaryOp, expr: Expr) -> Expr {
    Expr::unary(op, expr, s())
}

fn bind(name: &str, pattern: MacroPattern) -> MacroPattern {
    MacroPattern::Bind { name: Some(name.to_string()), ty: None, pattern: Box::new(pattern) }
}

fn bind_ty(name: &str, ty: &str, pattern: MacroPattern) -> MacroPattern {
    MacroPattern::Bind {
        name: Some(name.to_string()),
        ty: Some(TypeRef::named(ty.to_string())),
        pattern: Box::new(pattern),
    }
}

fn operand(name: Option<&str>, pattern: MacroPattern) -> Box<MacroPatternBind> {
    Box::new(MacroPatternBind { name: name.map(|n| n.to_string()), ty: None, pattern })
}

/// The captures as a map from name to the captured subtree.
fn captures<'a>(result: Option<Vec<(String, &'a Expr)>>) -> Option<HashMap<String, &'a Expr>> {
    result.map(|v| v.into_iter().collect())
}

#[test]
fn wildcard_matches_anything() {
    let pattern = MacroPattern::Wildcard;
    let expr = num(42.0);
    let result = captures(try_match(&pattern, &expr));
    assert_eq!(result, Some(HashMap::new()));
}

#[test]
fn literal_number_matches_exact() {
    let pattern = MacroPattern::Literal(Literal::Number(number(42.0)));
    assert!(try_match(&pattern, &num(42.0)).is_some());
    assert!(try_match(&pattern, &num(43.0)).is_none());
    assert!(try_match(&pattern, &bool_lit(true)).is_none());
}

#[test]
fn literal_string_matches_exact() {
    let pattern = MacroPattern::Literal(Literal::String("hello".to_string()));
    assert!(try_match(&pattern, &string_lit("hello")).is_some());
    assert!(try_match(&pattern, &string_lit("world")).is_none());
}

#[test]
fn literal_bool_matches_exact() {
    let pattern = MacroPattern::Literal(Literal::Boolean(true));
    assert!(try_match(&pattern, &bool_lit(true)).is_some());
    assert!(try_match(&pattern, &bool_lit(false)).is_none());
}

#[test]
fn bind_captures_expression() {
    let pattern = bind("x", MacroPattern::Wildcard);
    let expr = num(42.0);
    let result = captures(try_match(&pattern, &expr));
    let mut expected = HashMap::new();
    expected.insert("x".to_string(), &expr);
    assert_eq!(result, Some(expected));
}

#[test]
fn bind_with_type_ignores_type_during_matching() {
    let pattern = bind_ty("x", "Number", MacroPattern::Wildcard);
    let expr = string_lit("hello");
    let result = captures(try_match(&pattern, &expr));
    let mut expected = HashMap::new();
    expected.insert("x".to_string(), &expr);
    assert_eq!(result, Some(expected));
}

#[test]
fn bind_on_compound_pattern_captures_whole() {
    let pattern = MacroPattern::Bind {
        name: Some("whole".to_string()),
        ty: None,
        pattern: Box::new(MacroPattern::BinaryExpr {
            op: BinaryOp::Add,
            left: operand(Some("left"), MacroPattern::Wildcard),
            right: operand(Some("right"), MacroPattern::Wildcard),
        }),
    };
    let expr = bin(BinaryOp::Add, num(1.0), num(2.0));
    let result = captures(try_match(&pattern, &expr));
    let (one, two) = (num(1.0), num(2.0));
    let mut expected = HashMap::new();
    expected.insert("whole".to_string(), &expr);
    expected.insert("left".to_string(), &one);
    expected.insert("right".to_string(), &two);
    assert_eq!(result, Some(expected));
}

#[test]
fn binary_expr_matches_operator_and_binds_operands() {
    let pattern = MacroPattern::BinaryExpr {
        op: BinaryOp::Add,
        left: operand(Some("a"), MacroPattern::Wildcard),
        right: operand(Some("b"), MacroPattern::Wildcard),
    };
    let expr = bin(BinaryOp::Add, num(1.0), num(2.0));
    let result = captures(try_match(&pattern, &expr));
    let (one, two) = (num(1.0), num(2.0));
    let mut expected = HashMap::new();
    expected.insert("a".to_string(), &one);
    expected.insert("b".to_string(), &two);
    assert_eq!(result, Some(expected));

    // Wrong operator
    let expr2 = bin(BinaryOp::Subtract, num(1.0), num(2.0));
    assert!(try_match(&pattern, &expr2).is_none());
}

#[test]
fn binary_expr_with_nested_patterns() {
    let pattern = MacroPattern::BinaryExpr {
        op: BinaryOp::Multiply,
        left: operand(
            None,
            MacroPattern::BinaryExpr {
                op: BinaryOp::Add,
                left: operand(Some("x"), MacroPattern::Wildcard),
                right: operand(Some("y"), MacroPattern::Wildcard),
            },
        ),
        right: operand(Some("z"), MacroPattern::Wildcard),
    };
    let expr = bin(BinaryOp::Multiply, bin(BinaryOp::Add, num(1.0), num(2.0)), num(3.0));
    let result = captures(try_match(&pattern, &expr));
    let (one, two, three) = (num(1.0), num(2.0), num(3.0));
    let mut expected = HashMap::new();
    expected.insert("x".to_string(), &one);
    expected.insert("y".to_string(), &two);
    expected.insert("z".to_string(), &three);
    assert_eq!(result, Some(expected));
}

#[test]
fn unary_expr_matches_operator_and_binds_operand() {
    let pattern = MacroPattern::UnaryExpr { op: UnaryOp::Negate, operand: operand(Some("x"), MacroPattern::Wildcard) };
    let expr = un(UnaryOp::Negate, num(42.0));
    let result = captures(try_match(&pattern, &expr));
    let forty_two = num(42.0);
    let mut expected = HashMap::new();
    expected.insert("x".to_string(), &forty_two);
    assert_eq!(result, Some(expected));

    // Wrong operator
    let expr2 = un(UnaryOp::Not, bool_lit(true));
    assert!(try_match(&pattern, &expr2).is_none());
}

#[test]
fn duplicate_bindings_are_rejected() {
    // Pattern: (x + x) – binding `x` twice
    let pattern = MacroPattern::BinaryExpr {
        op: BinaryOp::Add,
        left: operand(Some("x"), MacroPattern::Wildcard),
        right: operand(Some("x"), MacroPattern::Wildcard),
    };
    let expr = bin(BinaryOp::Add, num(1.0), num(2.0));
    assert!(try_match(&pattern, &expr).is_none());
}

#[test]
fn duplicate_bindings_across_nested_patterns() {
    // Pattern: (x + (x * 2)) – x appears twice
    let pattern = MacroPattern::BinaryExpr {
        op: BinaryOp::Add,
        left: operand(Some("x"), MacroPattern::Wildcard),
        right: operand(
            None,
            MacroPattern::BinaryExpr {
                op: BinaryOp::Multiply,
                left: operand(Some("x"), MacroPattern::Wildcard),
                right: operand(Some("y"), MacroPattern::Wildcard),
            },
        ),
    };
    let expr = bin(BinaryOp::Add, num(1.0), bin(BinaryOp::Multiply, num(2.0), num(3.0)));
    assert!(try_match(&pattern, &expr).is_none());
}

#[test]
fn wildcard_does_not_bind() {
    let pattern = MacroPattern::BinaryExpr {
        op: BinaryOp::Add,
        left: operand(None, MacroPattern::Wildcard),
        right: operand(None, MacroPattern::Wildcard),
    };
    let expr = bin(BinaryOp::Add, num(1.0), num(2.0));
    let result = captures(try_match(&pattern, &expr));
    assert_eq!(result, Some(HashMap::new()));
}

#[test]
fn numbers_compare_by_value() {
    let zero = MacroPattern::Literal(Literal::Number(number(0.0)));
    assert!(try_match(&zero, &num(-0.0)).is_some());
    let nan = MacroPattern::Literal(Literal::Number(number(f64::NAN)));
    assert!(try_match(&nan, &num(f64::NAN)).is_none());
}

#[test]
fn name_bound_around_a_capture_of_the_same_name_fails() {
    let pattern = bind("x", bind("x", MacroPattern::Wildcard));
    assert!(try_match(&pattern, &num(1.0)).is_none());
}
