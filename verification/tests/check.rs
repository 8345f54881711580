use hulk::ast::{Expr, FunctionDecl, Param, SourceSpan, TypeRef};
use hulk::name_map::NameMap;
use hulk::semantic::check::{check_assign_target, check_attribute, check_expr, check_function, check_let_binding, check_method};
use hulk::semantic::environment::Environment;
use hulk::semantic::error::{SemanticError, SemanticErrorKind, Severity};
use hulk::semantic::registry::{AttributeInfo, FunctionSignature, MethodSignature, TypeInfo, TypeRegistry};
use hulk::semantic::analysis::{conclude, finish_analysis, has_hard_error, hierarchy_stage};
use hulk::semantic::registry::seeded_registry;
use hulk::semantic::check::check_program;
use hulk::semantic::signatures::{
    add_constraint_if_parameter, begin_function, constrain_if_variable, finish_function, record_argument_constraints,
    record_binary_constraints, record_unary_constraints,
};
use hulk::semantic::typed::{
    TypedAttribute, TypedBinding, TypedDeclaration, TypedDeclarationKind, TypedExpr, TypedFunction, TypedKind, TypedMember,
    TypedMemberKind, TypedProgram, TypedTarget, TypedTypeDecl,
};
use hulk::semantic::types::Type;

fn at(line: usize) -> SourceSpan {
    SourceSpan::new(line, 1)
}

fn node(kind: TypedKind, anno: Type, line: usize) -> TypedExpr {
    TypedExpr { kind, anno, span: at(line) }
}

fn var(name: &str, anno: Type, line: usize) -> TypedExpr {
    node(TypedKind::Variable(name.to_string()), anno, line)
}

fn point() -> Type {
    Type::Named("Point".to_string())
}

fn registry() -> TypeRegistry {
    let mut info = TypeInfo {
        name: "Point".to_string(),
        params: Vec::new(),
        parent: None,
        attributes: NameMap::new(),
        methods: NameMap::new(),
        flattened_methods: NameMap::new(),
        is_builtin_value: false,
        span: at(1),
    };
    info.attributes.insert("x".to_string(), AttributeInfo { declared_type: Some(Type::Number), span: at(2) });
    info.flattened_methods.insert(
        "norm".to_string(),
        MethodSignature {
            params: vec![("k".to_string(), Type::Number)],
            return_type: Type::Number,
            defined_in: "Point".to_string(),
            span: at(3),
        },
    );
    let mut registry = TypeRegistry { types: NameMap::new(), protocols: NameMap::new(), functions: NameMap::new() };
    registry.types.insert("Point".to_string(), info);
    registry.functions.insert(
        "twice".to_string(),
        FunctionSignature { params: vec![("n".to_string(), Type::Unknown)], return_type: Type::Unknown, span: at(4) },
    );
    registry
}

fn unresolved(line: usize) -> SemanticError {
    SemanticError::error(SemanticErrorKind::CannotInferType { symbol: "expression".to_string() }, at(line))
}

#[test]
fn unknown_nodes_are_reported_in_preorder() {
    let registry = registry();
    let expr = node(
        TypedKind::Binary {
            op: hulk::ast::BinaryOp::Add,
            left: Box::new(var("a", Type::Unknown, 2)),
            right: Box::new(var("b", Type::Unknown, 3)),
        },
        Type::Unknown,
        1,
    );
    let mut errors = Vec::new();
    check_expr(&registry, &expr, &mut errors);
    assert_eq!(errors, vec![unresolved(1), unresolved(2), unresolved(3)]);
}

#[test]
fn resolved_nodes_report_nothing() {
    let registry = registry();
    let expr = node(
        TypedKind::Block(vec![var("a", Type::Number, 2), var("b", Type::String, 3)]),
        Type::String,
        1,
    );
    let mut errors = Vec::new();
    check_expr(&registry, &expr, &mut errors);
    assert!(errors.is_empty());
}

#[test]
fn attribute_read_from_outside_is_reported_at_the_object() {
    let registry = registry();
    let expr = node(
        TypedKind::Member { object: Box::new(var("p", point(), 5)), member: "x".to_string() },
        Type::Number,
        4,
    );
    let mut errors = Vec::new();
    check_expr(&registry, &expr, &mut errors);
    assert_eq!(
        errors,
        vec![SemanticError::error(SemanticErrorKind::UnknownMember { ty: point(), member: "x".to_string() }, at(5))]
    );
}

#[test]
fn attribute_read_through_self_is_allowed() {
    let registry = registry();
    let expr = node(
        TypedKind::Member { object: Box::new(node(TypedKind::SelfRef, point(), 5)), member: "x".to_string() },
        Type::Number,
        4,
    );
    let mut errors = Vec::new();
    check_expr(&registry, &expr, &mut errors);
    assert!(errors.is_empty());
}

#[test]
fn method_reads_are_public() {
    let registry = registry();
    let expr = node(
        TypedKind::Member { object: Box::new(var("p", point(), 5)), member: "norm".to_string() },
        Type::Number,
        4,
    );
    let mut errors = Vec::new();
    check_expr(&registry, &expr, &mut errors);
    assert!(errors.is_empty());
}

#[test]
fn let_annotation_is_rechecked() {
    let registry = registry();
    let binding = TypedBinding {
        name: "x".to_string(),
        type_annotation: Some(TypeRef::named("Number".to_string())),
        initializer: node(TypedKind::Literal(hulk::ast::Literal::String("hello".to_string())), Type::String, 7),
    };
    let mut errors = Vec::new();
    check_let_binding(&registry, &binding, &mut errors);
    assert_eq!(
        errors,
        vec![SemanticError::error(SemanticErrorKind::NotConforming { found: Type::String, expected: Type::Number }, at(7))]
    );
    let expr = node(
        TypedKind::Let { bindings: vec![binding], body: Box::new(var("x", Type::Unknown, 8)) },
        Type::Number,
        6,
    );
    let mut all = Vec::new();
    check_expr(&registry, &expr, &mut all);
    assert_eq!(all.len(), 2);
    assert_eq!(all[1], unresolved(8));
}

#[test]
fn assignment_targets_are_checked_inside() {
    let registry = registry();
    let target = TypedTarget::Index {
        object: Box::new(var("v", Type::Unknown, 2)),
        index: Box::new(var("i", Type::Number, 3)),
    };
    let mut errors = Vec::new();
    check_assign_target(&registry, &target, &mut errors);
    assert_eq!(errors, vec![unresolved(2)]);
    let mut none = Vec::new();
    check_assign_target(&registry, &TypedTarget::Variable("v".to_string()), &mut none);
    assert!(none.is_empty());
}

#[test]
fn attribute_initializers_are_checked() {
    let registry = registry();
    let attr = TypedAttribute {
        name: "x".to_string(),
        type_annotation: Some(TypeRef::named("Boolean".to_string())),
        initializer: var("n", Type::Number, 9),
    };
    let mut errors = Vec::new();
    check_attribute(&registry, &attr, &mut errors);
    assert_eq!(
        errors,
        vec![SemanticError::error(SemanticErrorKind::NotConforming { found: Type::Number, expected: Type::Boolean }, at(9))]
    );
}

#[test]
fn function_annotations_are_checked_against_the_registry() {
    let registry = registry();
    let func = TypedFunction {
        name: "twice".to_string(),
        params: vec![Param { name: "n".to_string(), type_annotation: Some(TypeRef::named("Number".to_string())) }],
        return_type: Some(TypeRef::named("String".to_string())),
        body: var("n", Type::Unknown, 10),
    };
    let mut errors = Vec::new();
    check_function(&registry, &func, &mut errors);
    assert_eq!(errors, vec![unresolved(10)]);

    let mut method_errors = Vec::new();
    let method = TypedFunction {
        name: "norm".to_string(),
        params: vec![Param { name: "k".to_string(), type_annotation: Some(TypeRef::named("String".to_string())) }],
        return_type: None,
        body: var("k", Type::Number, 11),
    };
    check_method(&registry, "Point", &method, &mut method_errors);
    assert_eq!(
        method_errors,
        vec![SemanticError::error(SemanticErrorKind::NotConforming { found: Type::Number, expected: Type::String }, at(11))]
    );
}

fn twice_decl(annotated: bool) -> FunctionDecl {
    FunctionDecl {
        name: "twice".to_string(),
        params: vec![Param { name: "n".to_string(), type_annotation: None }],
        return_type: if annotated { Some(TypeRef::named("String".to_string())) } else { None },
        body: Expr::variable("n".to_string(), at(12)),
    }
}

#[test]
fn finished_signature_takes_the_one_type_asked_of_a_parameter() {
    let mut registry = registry();
    let mut constraints: NameMap<Vec<Type>> = NameMap::new();
    constraints.insert("n".to_string(), vec![Type::Unknown, Type::Number, Type::Number]);
    let body = var("n", Type::Number, 12);
    let mut errors = Vec::new();
    let typed = finish_function(&mut registry, twice_decl(false), body, &constraints, &mut errors);
    assert!(errors.is_empty());
    assert_eq!(typed.name, "twice");
    assert_eq!(typed.body.anno, Type::Number);
    let sig = registry.lookup_function("twice").unwrap();
    assert_eq!(sig.params, vec![("n".to_string(), Type::Number)]);
    assert_eq!(sig.return_type, Type::Number);
    assert_eq!(sig.span, at(4));
}

#[test]
fn finished_signature_reports_ambiguous_and_mismatched_types() {
    let mut registry = registry();
    let mut constraints: NameMap<Vec<Type>> = NameMap::new();
    constraints.insert("n".to_string(), vec![Type::Number, Type::String, Type::Number]);
    let body = var("n", Type::Number, 12);
    let mut errors = Vec::new();
    finish_function(&mut registry, twice_decl(true), body, &constraints, &mut errors);
    assert_eq!(
        errors,
        vec![
            SemanticError::error(
                SemanticErrorKind::AmbiguousInference {
                    symbol: "n".to_string(),
                    candidates: vec![Type::Number, Type::String],
                },
                at(12),
            ),
            SemanticError::error(SemanticErrorKind::TypeMismatch { expected: Type::String, found: Type::Number }, at(12)),
        ]
    );
    let sig = registry.lookup_function("twice").unwrap();
    assert_eq!(sig.params, vec![("n".to_string(), Type::Error)]);
    assert_eq!(sig.return_type, Type::Unknown);
}

#[test]
fn finished_signature_reports_parameters_nothing_was_asked_of() {
    let mut registry = registry();
    let mut constraints: NameMap<Vec<Type>> = NameMap::new();
    constraints.insert("n".to_string(), Vec::new());
    let body = var("n", Type::Unknown, 12);
    let mut errors = Vec::new();
    finish_function(&mut registry, twice_decl(false), body, &constraints, &mut errors);
    assert_eq!(
        errors,
        vec![
            SemanticError::error(SemanticErrorKind::CannotInferType { symbol: "n".to_string() }, at(12)),
            SemanticError::error(SemanticErrorKind::CannotInferType { symbol: "twice".to_string() }, at(12)),
        ]
    );
    assert_eq!(errors[0].severity, Severity::Error);
}

#[test]
fn diagnostics_and_environments_can_be_cloned() {
    let e = SemanticError::error(SemanticErrorKind::UnknownMember { ty: point(), member: "x".to_string() }, at(3));
    assert_eq!(e.clone(), e);
    assert_eq!(point().clone(), point());
    let mut env = Environment::new();
    env.declare("a", Type::Number, at(1));
    env.push_scope();
    env.declare("b", point(), at(2));
    let copy = env.clone();
    assert_eq!(copy.depth(), 2);
    assert_eq!(copy.lookup("a").unwrap().ty, Type::Number);
    assert_eq!(copy.lookup("b").unwrap().ty, point());
    assert_eq!(copy.lookup("b").unwrap().clone().span, at(2));
}

#[test]
fn opening_a_function_declares_parameters_and_makes_room_for_constraints() {
    let mut registry = registry();
    registry.functions.swap_value(
        "twice",
        FunctionSignature { params: vec![("n".to_string(), Type::Number)], return_type: Type::Number, span: at(4) },
    );
    let decl = FunctionDecl {
        name: "twice".to_string(),
        params: vec![
            Param { name: "n".to_string(), type_annotation: None },
            Param { name: "m".to_string(), type_annotation: Some(TypeRef::named("String".to_string())) },
        ],
        return_type: None,
        body: Expr::variable("n".to_string(), at(12)),
    };
    let (env, constraints) = begin_function(&mut registry, &decl, Some(point()));
    assert_eq!(registry.lookup_function("twice").unwrap().return_type, Type::Unknown);
    assert_eq!(registry.lookup_function("twice").unwrap().params, vec![("n".to_string(), Type::Number)]);
    assert_eq!(env.lookup("self").unwrap().ty, point());
    assert_eq!(env.lookup("self").unwrap().span, at(12));
    assert_eq!(env.lookup("n").unwrap().ty, Type::Unknown);
    assert_eq!(env.lookup("m").unwrap().ty, Type::String);
    assert_eq!(env.depth(), 1);
    assert!(constraints.contains_key("n"));
    assert!(!constraints.contains_key("m"));
    assert_eq!(constraints.len(), 1);
}

#[test]
fn constraints_are_recorded_only_for_parameters_being_inferred() {
    let mut constraints: NameMap<Vec<Type>> = NameMap::new();
    constraints.insert("n".to_string(), Vec::new());
    add_constraint_if_parameter(&mut constraints, "n", Type::Number);
    add_constraint_if_parameter(&mut constraints, "other", Type::String);
    constrain_if_variable(&mut constraints, &var("n", Type::Unknown, 1), Type::Boolean);
    constrain_if_variable(&mut constraints, &node(TypedKind::SelfRef, point(), 1), Type::String);
    assert_eq!(constraints.get("n").unwrap(), &vec![Type::Number, Type::Boolean]);
    assert!(!constraints.contains_key("other"));
    assert_eq!(constraints.len(), 1);
}

#[test]
fn the_checking_pass_visits_declarations_then_the_entry() {
    let registry = registry();
    let program = TypedProgram {
        declarations: vec![
            TypedDeclaration {
                kind: TypedDeclarationKind::Function(TypedFunction {
                    name: "twice".to_string(),
                    params: vec![Param { name: "n".to_string(), type_annotation: None }],
                    return_type: None,
                    body: var("n", Type::Unknown, 2),
                }),
                span: at(2),
            },
            TypedDeclaration {
                kind: TypedDeclarationKind::Type(TypedTypeDecl {
                    name: "Point".to_string(),
                    params: Vec::new(),
                    parent: None,
                    members: vec![
                        TypedMember {
                            kind: TypedMemberKind::Attribute(TypedAttribute {
                                name: "x".to_string(),
                                type_annotation: None,
                                initializer: var("x0", Type::Unknown, 3),
                            }),
                            span: at(3),
                        },
                        TypedMember {
                            kind: TypedMemberKind::Method(TypedFunction {
                                name: "norm".to_string(),
                                params: Vec::new(),
                                return_type: Some(TypeRef::named("Boolean".to_string())),
                                body: var("k", Type::Number, 4),
                            }),
                            span: at(4),
                        },
                    ],
                }),
                span: at(3),
            },
        ],
        entry: var("e", Type::Unknown, 5),
    };
    let mut errors = Vec::new();
    check_program(&registry, &program, &mut errors);
    assert_eq!(
        errors,
        vec![
            unresolved(2),
            unresolved(3),
            SemanticError::error(SemanticErrorKind::NotConforming { found: Type::Number, expected: Type::Boolean }, at(4)),
            unresolved(5),
        ]
    );
}

fn empty_program() -> TypedProgram {
    TypedProgram { declarations: Vec::new(), entry: var("e", Type::Number, 1) }
}

#[test]
fn analysis_succeeds_with_warnings_only() {
    let warning = SemanticError::warning(
        SemanticErrorKind::UnreachableDowncast { from: Type::Number, to: point() },
        at(2),
    );
    assert!(!has_hard_error(&vec![warning.clone()]));
    match conclude(registry(), empty_program(), vec![warning.clone()]) {
        Ok(verified) => {
            assert_eq!(verified.warnings, vec![warning]);
            assert_eq!(verified.typed_program, empty_program());
        }
        Err(errors) => panic!("unexpected errors {errors:?}"),
    }
}

#[test]
fn analysis_fails_with_every_hard_error_in_order() {
    let warning = SemanticError::warning(
        SemanticErrorKind::UnreachableDowncast { from: Type::Number, to: point() },
        at(2),
    );
    let errors = vec![unresolved(1), warning, unresolved(3)];
    assert!(has_hard_error(&errors));
    match conclude(registry(), empty_program(), errors) {
        Ok(_) => panic!("hard errors must fail the analysis"),
        Err(hard) => assert_eq!(hard, vec![unresolved(1), unresolved(3)]),
    }
}

#[test]
fn hierarchy_stage_passes_a_sound_registry_and_stops_on_hard_errors() {
    let mut registry = seeded_registry();
    match hierarchy_stage(&mut registry, Vec::new()) {
        Ok(errors) => assert!(errors.is_empty()),
        Err(errors) => panic!("unexpected errors {errors:?}"),
    }
    let mut again = seeded_registry();
    match hierarchy_stage(&mut again, vec![unresolved(1)]) {
        Ok(_) => panic!("a hard error must stop the analysis"),
        Err(errors) => assert_eq!(errors, vec![unresolved(1)]),
    }
}

#[test]
fn finishing_analysis_adds_the_checks_to_earlier_hard_errors() {
    let program = TypedProgram { declarations: Vec::new(), entry: var("e", Type::Unknown, 5) };
    match finish_analysis(registry(), program, vec![unresolved(1)]) {
        Ok(_) => panic!("hard errors must fail the analysis"),
        Err(errors) => assert_eq!(errors, vec![unresolved(1), unresolved(5)]),
    }
    match finish_analysis(registry(), empty_program(), Vec::new()) {
        Ok(verified) => {
            assert!(verified.warnings.is_empty());
            assert_eq!(verified.typed_program, empty_program());
        }
        Err(errors) => panic!("unexpected errors {errors:?}"),
    }
}

#[test]
fn calls_and_operators_constrain_the_parameters_they_use() {
    let mut constraints: NameMap<Vec<Type>> = NameMap::new();
    constraints.insert("n".to_string(), Vec::new());
    constraints.insert("b".to_string(), Vec::new());
    let params = vec![("x".to_string(), Type::String), ("y".to_string(), Type::Unknown), ("z".to_string(), Type::Number)];
    let args = vec![var("n", Type::Unknown, 1), var("n", Type::Unknown, 1), var("n", Type::Unknown, 1)];
    record_argument_constraints(&mut constraints, &args, &params);
    assert_eq!(constraints.get("n").unwrap(), &vec![Type::String, Type::Number]);
    record_argument_constraints(&mut constraints, &vec![var("n", Type::Unknown, 1)], &params);
    assert_eq!(constraints.get("n").unwrap().len(), 2);

    record_binary_constraints(&mut constraints, hulk::ast::BinaryOp::And, &var("b", Type::Unknown, 1), &var("n", Type::Unknown, 1));
    assert_eq!(constraints.get("b").unwrap(), &vec![Type::Boolean]);
    assert_eq!(constraints.get("n").unwrap(), &vec![Type::String, Type::Number, Type::Boolean]);
    record_binary_constraints(&mut constraints, hulk::ast::BinaryOp::Concat, &var("b", Type::Unknown, 1), &var("n", Type::Unknown, 1));
    record_binary_constraints(&mut constraints, hulk::ast::BinaryOp::Add, &var("b", Type::String, 1), &var("n", Type::Unknown, 1));
    assert_eq!(constraints.get("b").unwrap(), &vec![Type::Boolean]);
    record_unary_constraints(&mut constraints, hulk::ast::UnaryOp::Negate, &var("b", Type::Unknown, 1));
    record_unary_constraints(&mut constraints, hulk::ast::UnaryOp::Not, &var("b", Type::Number, 1));
    assert_eq!(constraints.get("b").unwrap(), &vec![Type::Boolean, Type::Number]);
}
