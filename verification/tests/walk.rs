use hulk::ast::{
    walk_declaration, walk_program, AttributeDecl, BinaryOp, Declaration, DeclarationKind, Expr, ExprKind, FunctionDecl,
    Literal, NumberLit, Program, ProtocolDecl, SourceSpan, TypeDecl, TypeMember, TypeMemberKind, TypeParent, TypeRef,
};

fn s() -> SourceSpan {
    SourceSpan::new(1, 1)
}

fn num(value: f64) -> Expr {
    Expr::number(NumberLit::new(value.to_bits(), format!("{}", value)), s())
}

fn var(name: &str) -> Expr {
    Expr::variable(name.to_string(), s())
}

fn label(e: &Expr) -> String {
    match &e.kind {
        ExprKind::Literal(Literal::Number(n)) => n.text.clone(),
        ExprKind::Variable(v) => v.clone(),
        ExprKind::Binary(_) => "bin".to_string(),
        _ => "other".to_string(),
    }
}

fn sample_type() -> Declaration {
    Declaration::new(
        DeclarationKind::Type(TypeDecl::new(
            "Point".to_string(),
            Vec::new(),
            Some(TypeParent::new("Base".to_string(), vec![num(1.0), var("a")])),
            vec![
                TypeMember::new(
                    TypeMemberKind::Attribute(AttributeDecl::new("x".to_string(), None, num(2.0))),
                    s(),
                ),
                TypeMember::new(
                    TypeMemberKind::Method(FunctionDecl::new(
                        "m".to_string(),
                        Vec::new(),
                        None,
                        Expr::binary(BinaryOp::Add, var("b"), num(3.0), s()),
                    )),
                    s(),
                ),
            ],
        )),
        s(),
    )
}

#[test]
fn a_type_declaration_walks_parent_arguments_then_members() {
    let decl = sample_type();
    let labels: Vec<String> = walk_declaration(&decl).into_iter().map(label).collect();
    assert_eq!(labels, vec!["1", "a", "2", "bin", "b", "3"]);
}

#[test]
fn a_program_walks_declarations_then_the_entry() {
    let function = Declaration::new(
        DeclarationKind::Function(FunctionDecl::new("f".to_string(), Vec::new(), None, var("body"))),
        s(),
    );
    let protocol = Declaration::new(
        DeclarationKind::Protocol(ProtocolDecl::new("P".to_string(), Vec::<TypeRef>::new(), Vec::new())),
        s(),
    );
    let program = Program::new(vec![function, protocol, sample_type()], var("entry"));
    let labels: Vec<String> = walk_program(&program).into_iter().map(label).collect();
    assert_eq!(labels, vec!["body", "1", "a", "2", "bin", "b", "3", "entry"]);
}
