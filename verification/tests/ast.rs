use hulk::ast::{walk_expr, BinaryOp, Expr, ExprKind, LetBinding, LetExpr, Literal, NumberLit, SourceSpan, TypeRef};

fn s() -> SourceSpan {
    SourceSpan::new(1, 1)
}

fn num(value: f64) -> Expr {
    Expr::number(NumberLit::new(value.to_bits(), format!("{}", value)), s())
}

#[test]
fn builds_let_expression() {
    let expr = Expr::new(
        ExprKind::Let(LetExpr::new(
            vec![LetBinding::new("x".to_string(), None, num(5.0))],
            Expr::binary(BinaryOp::Add, Expr::variable("x".to_string(), s()), num(1.0), s()),
        )),
        s(),
    );

    match expr.kind {
        ExprKind::Let(let_expr) => {
            assert_eq!(let_expr.bindings[0].name, "x");
            assert!(matches!(let_expr.body.kind, ExprKind::Binary(_)));
        }
        other => panic!("expected let expression, got {other:?}"),
    }
}

#[test]
fn type_ref_display_without_args() {
    assert_eq!(TypeRef::named("Number".to_string()).to_string(), "Number");
}

#[test]
fn type_ref_display_with_args() {
    let t = TypeRef::with_args("Iterable".to_string(), vec![TypeRef::named("Number".to_string())]);
    assert_eq!(t.to_string(), "Iterable<Number>");
}

#[test]
fn type_ref_display_separates_arguments() {
    let t = TypeRef::with_args(
        "Map".to_string(),
        vec![
            TypeRef::named("String".to_string()),
            TypeRef::with_args("Vector".to_string(), vec![TypeRef::named("Number".to_string())]),
        ],
    );
    assert_eq!(t.to_string(), "Map<String, Vector<Number>>");
}

#[test]
fn walk_expr_visits_children() {
    let expr = Expr::binary(
        BinaryOp::Multiply,
        Expr::binary(BinaryOp::Add, num(3.0), num(2.0), s()),
        num(5.0),
        s(),
    );

    let mut count = 0;
    for _ in walk_expr(&expr) {
        count += 1;
    }

    assert_eq!(count, 5);
}

#[test]
fn walk_expr_visits_in_pre_order() {
    let expr = Expr::binary(
        BinaryOp::Multiply,
        Expr::binary(BinaryOp::Add, num(3.0), num(2.0), s()),
        Expr::call(Expr::variable("f".to_string(), s()), vec![num(5.0), num(6.0)], s()),
        s(),
    );
    let visited: Vec<String> = walk_expr(&expr)
        .into_iter()
        .map(|e| match &e.kind {
            ExprKind::Binary(b) => format!("{:?}", b.op),
            ExprKind::Literal(Literal::Number(n)) => n.text.clone(),
            ExprKind::Variable(v) => v.clone(),
            ExprKind::Call(_) => "call".to_string(),
            other => panic!("unexpected node {other:?}"),
        })
        .collect();
    assert_eq!(visited, vec!["Multiply", "Add", "3", "2", "call", "f", "5", "6"]);
}
