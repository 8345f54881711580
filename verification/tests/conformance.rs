use hulk::ast::{BinaryOp, Literal, SourceSpan, UnaryOp};
use hulk::name_map::NameMap;
use hulk::runtime::Rng;
use hulk::semantic::conformance::conforms_to;
use hulk::semantic::environment::Environment;
use hulk::semantic::error::{SemanticError, SemanticErrorKind, Severity};
use hulk::semantic::hierarchy::run_hierarchy;
use hulk::ast::TypeRef;
use hulk::semantic::inference::{
    check_call_arguments, check_conformance, infer_call, infer_downcast, infer_index, infer_literal, infer_new,
    infer_type_test, infer_variable, resolve_parameter_type, resolve_return_type, Callee,
    is_iterable,
};
use hulk::semantic::operators::{infer_binary, infer_unary};
use hulk::semantic::registry::{
    seeded_registry, MethodSignature, ParentLink, ProtocolInfo, TypeInfo, TypeRegistry,
};
use hulk::semantic::types::Type;
use hulk::semantic::variance::check_protocol_variance;

fn sig(params: Vec<Type>, return_type: Type, owner: &str, line: usize) -> MethodSignature {
    MethodSignature {
        params: params.into_iter().enumerate().map(|(i, t)| (format!("x{}", i), t)).collect(),
        return_type,
        defined_in: owner.to_string(),
        span: SourceSpan::new(line, 1),
    }
}

fn empty_registry() -> TypeRegistry {
    TypeRegistry { types: NameMap::new(), protocols: NameMap::new(), functions: NameMap::new() }
}

fn type_info(name: &str, parent: Option<&str>, methods: NameMap<MethodSignature>) -> TypeInfo {
    TypeInfo {
        name: name.to_string(),
        params: Vec::new(),
        parent: parent.map(|p| ParentLink { name: p.to_string(), args: Vec::new() }),
        attributes: NameMap::new(),
        methods: NameMap::new(),
        flattened_methods: methods,
        is_builtin_value: false,
        span: SourceSpan::new(0, 0),
    }
}

fn protocol(name: &str, extends: Vec<&str>, methods: NameMap<MethodSignature>, line: usize) -> ProtocolInfo {
    ProtocolInfo {
        name: name.to_string(),
        extends: extends.into_iter().map(|s| s.to_string()).collect(),
        methods,
        flattened_methods: NameMap::new(),
        span: SourceSpan::new(line, 1),
    }
}

fn one_method(name: &str, s: MethodSignature) -> NameMap<MethodSignature> {
    let mut m = NameMap::new();
    m.insert(name.to_string(), s);
    m
}

// Protocol P: f(): Number, and a type T with the given methods.
fn build_registry_with_protocol_and_type(type_methods: NameMap<MethodSignature>) -> TypeRegistry {
    let mut registry = empty_registry();
    registry.protocols.insert("P".to_string(), protocol("P", vec![], one_method("f", sig(vec![], Type::Number, "P", 0)), 0));
    registry.types.insert("T".to_string(), type_info("T", None, type_methods));
    registry
}

#[test]
fn implements_protocol_missing_method() {
    let registry = build_registry_with_protocol_and_type(NameMap::new());
    assert!(!registry.implements_protocol("T", "P"));
}

#[test]
fn implements_protocol_wrong_arity() {
    let methods = one_method("f", sig(vec![Type::Number], Type::Number, "T", 0));
    let registry = build_registry_with_protocol_and_type(methods);
    assert!(!registry.implements_protocol("T", "P"));
}

#[test]
fn implements_protocol_contravariant_violation() {
    let mut registry = empty_registry();
    registry.protocols.insert(
        "P".to_string(),
        protocol("P", vec![], one_method("f", sig(vec![Type::Number], Type::Number, "P", 0)), 0),
    );
    registry.types.insert("T".to_string(), type_info("T", None, one_method("f", sig(vec![Type::String], Type::Number, "T", 0))));
    assert!(!registry.implements_protocol("T", "P"));
}

#[test]
fn implements_protocol_covariant_violation() {
    let methods = one_method("f", sig(vec![], Type::String, "T", 0));
    let registry = build_registry_with_protocol_and_type(methods);
    assert!(!registry.implements_protocol("T", "P"));
}

#[test]
fn a_type_with_matching_methods_implements_the_protocol() {
    let methods = one_method("f", sig(vec![], Type::Number, "T", 0));
    let registry = build_registry_with_protocol_and_type(methods);
    assert!(registry.implements_protocol("T", "P"));
    assert!(!registry.implements_protocol("T", "Q"));
    assert!(!registry.implements_protocol("U", "P"));
    assert!(conforms_to(&Type::Named("T".to_string()), &Type::Named("P".to_string()), &registry));
}

#[test]
fn conformance_is_nominal_for_types_and_covariant_for_vectors() {
    let mut registry = seeded_registry();
    registry.types.insert("A".to_string(), type_info("A", Some("Object"), NameMap::new()));
    registry.types.insert("B".to_string(), type_info("B", Some("A"), NameMap::new()));
    let a = Type::Named("A".to_string());
    let b = Type::Named("B".to_string());
    assert!(conforms_to(&b, &a, &registry));
    assert!(!conforms_to(&a, &b, &registry));
    assert!(conforms_to(&Type::Number, &Type::Object, &registry));
    assert!(conforms_to(&Type::Number, &Type::Number, &registry));
    assert!(!conforms_to(&Type::Number, &Type::String, &registry));
    assert!(conforms_to(&Type::Error, &Type::String, &registry));
    assert!(conforms_to(&Type::Boolean, &Type::Unknown, &registry));
    assert!(conforms_to(&Type::Vector(Box::new(b.duplicate())), &Type::Iterable(Box::new(a.duplicate())), &registry));
    assert!(!conforms_to(&Type::Iterable(Box::new(b.duplicate())), &Type::Vector(Box::new(b.duplicate())), &registry));
}

#[test]
fn iterable_types_implement_the_iterable_protocol() {
    let mut registry = seeded_registry();
    let mut methods = NameMap::new();
    methods.insert("next".to_string(), sig(vec![], Type::Boolean, "Counter", 1));
    methods.insert("current".to_string(), sig(vec![], Type::Number, "Counter", 2));
    registry.types.insert("Counter".to_string(), type_info("Counter", Some("Object"), methods));
    registry.types.insert("Plain".to_string(), type_info("Plain", Some("Object"), NameMap::new()));
    assert!(is_iterable(&registry, &Type::Named("Counter".to_string())));
    assert!(!is_iterable(&registry, &Type::Named("Plain".to_string())));
    assert!(!is_iterable(&registry, &Type::Vector(Box::new(Type::Number))));
}

#[test]
fn protocol_extension_must_keep_the_parent_methods() {
    let mut registry = empty_registry();
    let mut base = NameMap::new();
    base.insert("f".to_string(), sig(vec![Type::Number], Type::Number, "Base", 1));
    base.insert("g".to_string(), sig(vec![], Type::Number, "Base", 2));
    base.insert("h".to_string(), sig(vec![Type::Number], Type::Object, "Base", 3));
    base.insert("k".to_string(), sig(vec![], Type::Object, "Base", 4));
    registry.protocols.insert("Base".to_string(), protocol("Base", vec![], base, 1));
    let mut own = NameMap::new();
    own.insert("f".to_string(), sig(vec![Type::String], Type::Number, "Child", 10));
    own.insert("h".to_string(), sig(vec![Type::Number, Type::Number], Type::Object, "Child", 12));
    own.insert("k".to_string(), sig(vec![], Type::Number, "Child", 13));
    registry.protocols.insert("Child".to_string(), protocol("Child", vec!["Base", "Missing"], own, 9));
    let mut errors: Vec<SemanticError> = Vec::new();
    check_protocol_variance(&registry, &mut errors);
    let reasons: Vec<(String, String, SourceSpan)> = errors
        .iter()
        .map(|e| match &e.kind {
            SemanticErrorKind::InvalidProtocolVariance { method, reason } => (method.clone(), reason.clone(), e.span),
            SemanticErrorKind::UndefinedType(name) => ("".to_string(), name.clone(), e.span),
            other => panic!("unexpected {:?}", other),
        })
        .collect();
    assert_eq!(
        reasons,
        vec![
            (
                "f".to_string(),
                "parameter type mismatch: expected Number (or supertype) for parameter of type Number, but got String".to_string(),
                SourceSpan::new(10, 1)
            ),
            (
                "g".to_string(),
                "method `g` is required by parent protocol `Base` but not defined".to_string(),
                SourceSpan::new(9, 1)
            ),
            ("h".to_string(), "parameter count mismatch: expected 1, found 2".to_string(), SourceSpan::new(12, 1)),
            ("".to_string(), "Missing".to_string(), SourceSpan::new(9, 1)),
        ]
    );
    assert!(errors.iter().all(|e| e.severity == Severity::Error));
}

#[test]
fn a_narrower_return_type_is_a_covariance_error_only_when_it_does_not_conform() {
    let mut registry = empty_registry();
    registry.protocols.insert("Base".to_string(), protocol("Base", vec![], one_method("r", sig(vec![], Type::Number, "Base", 1)), 1));
    registry.protocols.insert(
        "Child".to_string(),
        protocol("Child", vec!["Base"], one_method("r", sig(vec![], Type::String, "Child", 5)), 4),
    );
    let mut errors: Vec<SemanticError> = Vec::new();
    check_protocol_variance(&registry, &mut errors);
    assert_eq!(errors.len(), 1);
    assert_eq!(
        errors[0].kind,
        SemanticErrorKind::InvalidProtocolVariance {
            method: "r".to_string(),
            reason: "return type mismatch: expected Number (or subtype) but got String".to_string(),
        }
    );
    assert_eq!(errors[0].span, SourceSpan::new(5, 1));
}

#[test]
fn the_hierarchy_pass_stops_overrides_and_flattening_at_a_cycle() {
    let mut registry = empty_registry();
    registry.types.insert("Object".to_string(), type_info("Object", None, NameMap::new()));
    registry.types.insert("C".to_string(), type_info("C", Some("D"), NameMap::new()));
    registry.types.insert("D".to_string(), type_info("D", Some("C"), NameMap::new()));
    registry.types.insert("E".to_string(), type_info("E", Some("Gone"), NameMap::new()));
    let mut errors: Vec<SemanticError> = Vec::new();
    run_hierarchy(&mut registry, &mut errors);
    assert_eq!(errors.len(), 2);
    assert_eq!(errors[0].kind, SemanticErrorKind::InheritFromUndefinedType("Gone".to_string()));
    assert_eq!(errors[1].kind, SemanticErrorKind::InheritanceCycle(vec!["C".to_string(), "D".to_string()]));
}

#[test]
fn the_hierarchy_pass_flattens_an_acyclic_hierarchy() {
    let mut registry = empty_registry();
    let mut p = type_info("P", None, NameMap::new());
    p.methods.insert("m".to_string(), sig(vec![Type::Number], Type::Number, "P", 1));
    let mut c = type_info("C", Some("P"), NameMap::new());
    c.methods.insert("m".to_string(), sig(vec![Type::String], Type::Number, "C", 2));
    registry.types.insert("P".to_string(), p);
    registry.types.insert("C".to_string(), c);
    let mut errors: Vec<SemanticError> = Vec::new();
    run_hierarchy(&mut registry, &mut errors);
    assert_eq!(errors.len(), 1);
    assert!(matches!(errors[0].kind, SemanticErrorKind::InvalidOverride { .. }));
    let c = registry.types.get("C").expect("C");
    assert_eq!(c.flattened_methods.len(), 1);
    assert_eq!(c.flattened_methods.get("m").expect("m").defined_in, "C".to_string());
}

#[test]
fn operators_type_their_operands() {
    let span = SourceSpan::new(3, 4);
    let mut errors: Vec<SemanticError> = Vec::new();
    assert_eq!(infer_binary(BinaryOp::Add, &Type::Number, &Type::Unknown, span, &mut errors), Type::Number);
    assert_eq!(infer_binary(BinaryOp::Less, &Type::Number, &Type::Number, span, &mut errors), Type::Boolean);
    assert_eq!(infer_binary(BinaryOp::And, &Type::Boolean, &Type::Boolean, span, &mut errors), Type::Boolean);
    assert_eq!(infer_binary(BinaryOp::Concat, &Type::Number, &Type::String, span, &mut errors), Type::String);
    assert_eq!(infer_unary(UnaryOp::Negate, &Type::Number, span, &mut errors), Type::Number);
    assert_eq!(infer_unary(UnaryOp::Not, &Type::Unknown, span, &mut errors), Type::Boolean);
    assert!(errors.is_empty());
    assert_eq!(infer_binary(BinaryOp::Multiply, &Type::String, &Type::Number, span, &mut errors), Type::Error);
    assert_eq!(infer_binary(BinaryOp::ConcatSpace, &Type::Object, &Type::Number, span, &mut errors), Type::Error);
    assert_eq!(infer_unary(UnaryOp::Not, &Type::Number, span, &mut errors), Type::Error);
    assert_eq!(
        errors,
        vec![
            SemanticError {
                kind: SemanticErrorKind::InvalidOperator {
                    op: "Multiply".to_string(),
                    operand_types: vec![Type::String, Type::Number],
                },
                span,
                severity: Severity::Error,
            },
            SemanticError {
                kind: SemanticErrorKind::InvalidOperator {
                    op: "@@".to_string(),
                    operand_types: vec![Type::Object, Type::Number],
                },
                span,
                severity: Severity::Error,
            },
            SemanticError {
                kind: SemanticErrorKind::InvalidOperator { op: "!".to_string(), operand_types: vec![Type::Number] },
                span,
                severity: Severity::Error,
            },
        ]
    );
}

#[test]
fn literals_variables_and_arguments() {
    let registry = seeded_registry();
    assert_eq!(infer_literal(&Literal::Boolean(true)), Type::Boolean);
    assert_eq!(infer_literal(&Literal::String("s".to_string())), Type::String);
    let mut env = Environment::new();
    env.declare("x", Type::String, SourceSpan::new(1, 1));
    let mut errors: Vec<SemanticError> = Vec::new();
    assert_eq!(infer_variable(&env, &registry, "x", SourceSpan::new(2, 1), &mut errors), Type::String);
    assert_eq!(infer_variable(&env, &registry, "PI", SourceSpan::new(2, 1), &mut errors), Type::Number);
    assert!(errors.is_empty());
    assert_eq!(infer_variable(&env, &registry, "sqrt", SourceSpan::new(3, 1), &mut errors), Type::Error);
    assert_eq!(errors[0].kind, SemanticErrorKind::UndefinedVariable("sqrt".to_string()));

    let mut errors: Vec<SemanticError> = Vec::new();
    let params = vec![("a".to_string(), Type::Number), ("b".to_string(), Type::String)];
    check_call_arguments(&registry, &params, &vec![Type::Number], &vec![SourceSpan::new(1, 5)], SourceSpan::new(1, 1), &mut errors);
    assert_eq!(errors[0].kind, SemanticErrorKind::ArityMismatch { expected: 2, found: 1 });
    let mut errors: Vec<SemanticError> = Vec::new();
    check_call_arguments(
        &registry,
        &params,
        &vec![Type::Boolean, Type::String],
        &vec![SourceSpan::new(1, 5), SourceSpan::new(1, 9)],
        SourceSpan::new(1, 1),
        &mut errors,
    );
    assert_eq!(
        errors,
        vec![SemanticError {
            kind: SemanticErrorKind::NotConforming { found: Type::Boolean, expected: Type::Number },
            span: SourceSpan::new(1, 5),
            severity: Severity::Error,
        }]
    );
    let mut errors: Vec<SemanticError> = Vec::new();
    check_conformance(&registry, &Type::Number, &Type::Object, SourceSpan::new(0, 0), &mut errors);
    assert!(errors.is_empty());
}

#[test]
fn the_generator_seeds_from_the_clock_reading_it_is_given() {
    let mut rng = Rng::new();
    let seed: u64 = 12345 ^ 0x9e3779b97f4a7c15;
    let mut x = seed;
    x ^= x << 7;
    x ^= x >> 9;
    assert_eq!(rng.next_with_clock(Some(12345)), x);
    let mut y = x;
    y ^= y << 7;
    y ^= y >> 9;
    assert_eq!(rng.next_with_clock(Some(1)), y);
    let mut other = Rng::new();
    other.seed_from(12345);
    assert_eq!(other.next_with_clock(None), x);
    let mut fallback = Rng::new();
    let mut z: u64 = 0x9e3779b97f4a7c15;
    z ^= z << 7;
    z ^= z >> 9;
    assert_eq!(fallback.next_with_clock(None), z);
}

#[test]
fn environment_depth_counts_pushes_and_pops() {
    let mut env = Environment::new();
    assert_eq!(env.depth(), 1);
    env.push_scope();
    env.push_scope();
    env.declare("a", Type::Number, SourceSpan::new(0, 0));
    env.pop_scope();
    assert_eq!(env.depth(), 2);
    env.pop_scope();
    assert_eq!(env.depth(), 1);
    assert!(env.lookup("a").is_none());
}

#[test]
fn the_seeded_registry_has_its_builtins_and_nothing_else() {
    let registry = seeded_registry();
    assert_eq!(registry.types.len(), 5);
    assert_eq!(registry.protocols.len(), 2);
    assert_eq!(registry.functions.len(), 10);
    assert!(registry.is_ancestor("Object", "Number"));
}

#[test]
fn type_tests_and_downcasts_check_receiver_and_target() {
    let mut registry = seeded_registry();
    registry.types.insert("A".to_string(), type_info("A", Some("Object"), NameMap::new()));
    registry.types.insert("B".to_string(), type_info("B", Some("A"), NameMap::new()));
    registry.types.insert("C".to_string(), type_info("C", Some("Object"), NameMap::new()));
    let op = SourceSpan::new(1, 1);
    let at = SourceSpan::new(1, 9);
    let mut errors: Vec<SemanticError> = Vec::new();
    let t = infer_type_test(&registry, &Type::Number, op, &TypeRef::named("Nope".to_string()), at, &mut errors);
    assert_eq!(t, Type::Boolean);
    assert_eq!(
        errors,
        vec![
            SemanticError {
                kind: SemanticErrorKind::TypeMismatch { expected: Type::Object, found: Type::Number },
                span: op,
                severity: Severity::Error,
            },
            SemanticError { kind: SemanticErrorKind::UndefinedType("Nope".to_string()), span: at, severity: Severity::Error },
        ]
    );
    let mut errors: Vec<SemanticError> = Vec::new();
    let a = Type::Named("A".to_string());
    assert_eq!(infer_downcast(&registry, &a, op, &TypeRef::named("B".to_string()), at, &mut errors), Type::Named("B".to_string()));
    assert!(errors.is_empty());
    let c = Type::Named("C".to_string());
    assert_eq!(infer_downcast(&registry, &c, op, &TypeRef::named("B".to_string()), at, &mut errors), Type::Named("B".to_string()));
    assert_eq!(
        errors,
        vec![SemanticError {
            kind: SemanticErrorKind::UnreachableDowncast { from: c.duplicate(), to: Type::Named("B".to_string()) },
            span: op,
            severity: Severity::Warning,
        }]
    );
}

#[test]
fn only_vectors_are_indexed_and_only_by_numbers() {
    let o = SourceSpan::new(2, 1);
    let i = SourceSpan::new(2, 5);
    let mut errors: Vec<SemanticError> = Vec::new();
    let v = Type::Vector(Box::new(Type::String));
    assert_eq!(infer_index(&v, &Type::Number, o, i, &mut errors), Type::String);
    assert!(errors.is_empty());
    assert_eq!(infer_index(&v, &Type::Boolean, o, i, &mut errors), Type::Error);
    assert_eq!(infer_index(&Type::String, &Type::Number, o, i, &mut errors), Type::Error);
    assert_eq!(
        errors,
        vec![
            SemanticError {
                kind: SemanticErrorKind::TypeMismatch { expected: Type::Number, found: Type::Boolean },
                span: i,
                severity: Severity::Error,
            },
            SemanticError { kind: SemanticErrorKind::IndexOnNonVector(Type::String), span: o, severity: Severity::Error },
        ]
    );
}

#[test]
fn construction_checks_the_constructor_parameters() {
    let mut registry = seeded_registry();
    let mut point = type_info("Point", Some("Object"), NameMap::new());
    point.params = vec![("x".to_string(), Type::Number), ("y".to_string(), Type::Number)];
    registry.types.insert("Point".to_string(), point);
    let at = SourceSpan::new(4, 2);
    let mut errors: Vec<SemanticError> = Vec::new();
    let t = infer_new(
        &registry,
        &TypeRef::named("Point".to_string()),
        &vec![Type::Number, Type::String],
        &vec![SourceSpan::new(4, 10), SourceSpan::new(4, 13)],
        at,
        &mut errors,
    );
    assert_eq!(t, Type::Named("Point".to_string()));
    assert_eq!(errors[0].kind, SemanticErrorKind::NotConforming { found: Type::String, expected: Type::Number });
    assert_eq!(errors[0].span, SourceSpan::new(4, 13));
    let mut errors: Vec<SemanticError> = Vec::new();
    let t = infer_new(&registry, &TypeRef::named("Point".to_string()), &vec![], &vec![], at, &mut errors);
    assert_eq!(t, Type::Named("Point".to_string()));
    assert_eq!(errors[0].kind, SemanticErrorKind::ArityMismatch { expected: 2, found: 0 });
    let mut errors: Vec<SemanticError> = Vec::new();
    let t = infer_new(&registry, &TypeRef::named("Ghost".to_string()), &vec![], &vec![], at, &mut errors);
    assert_eq!(t, Type::Error);
    assert_eq!(errors[0].kind, SemanticErrorKind::UndefinedType("Ghost".to_string()));
}

#[test]
fn inherited_protocol_methods_are_required() {
    let mut registry = empty_registry();
    registry.protocols.insert("Q".to_string(), protocol("Q", vec![], one_method("g", sig(vec![], Type::Number, "Q", 0)), 0));
    registry.protocols.insert("P".to_string(), protocol("P", vec!["Q"], NameMap::new(), 1));
    registry.types.insert("T".to_string(), type_info("T", None, NameMap::new()));
    registry.types.insert("U".to_string(), type_info("U", None, one_method("g", sig(vec![], Type::Number, "U", 0))));
    assert!(!registry.implements_protocol("T", "P"));
    assert!(registry.implements_protocol("U", "P"));
    assert!(registry.implements_protocol("U", "Q"));
}

#[test]
fn a_protocol_s_own_method_overrides_the_inherited_one() {
    let mut registry = empty_registry();
    registry.protocols.insert("Q".to_string(), protocol("Q", vec![], one_method("g", sig(vec![], Type::Number, "Q", 0)), 0));
    registry.protocols.insert("P".to_string(), protocol("P", vec!["Q"], one_method("g", sig(vec![], Type::Object, "P", 1)), 1));
    registry.types.insert("V".to_string(), type_info("V", None, one_method("g", sig(vec![], Type::String, "V", 0))));
    assert!(registry.implements_protocol("V", "P"));
    assert!(!registry.implements_protocol("V", "Q"));
}

#[test]
fn protocols_that_extend_each_other_terminate() {
    let mut registry = empty_registry();
    registry.protocols.insert("A".to_string(), protocol("A", vec!["B"], NameMap::new(), 0));
    registry.protocols.insert("B".to_string(), protocol("B", vec!["A"], one_method("h", sig(vec![], Type::Number, "B", 0)), 0));
    registry.types.insert("T".to_string(), type_info("T", None, NameMap::new()));
    assert!(!registry.implements_protocol("T", "A"));
}

#[test]
fn unannotated_parameters_take_their_one_distinct_candidate() {
    let at = SourceSpan::new(7, 1);
    let mut errors: Vec<SemanticError> = Vec::new();
    let t = resolve_parameter_type("x", &vec![Type::Unknown, Type::Number, Type::Error, Type::Number], at, &mut errors);
    assert_eq!(t, Type::Number);
    assert!(errors.is_empty());
    let t = resolve_parameter_type("y", &vec![Type::Unknown], at, &mut errors);
    assert_eq!(t, Type::Error);
    assert_eq!(errors[0].kind, SemanticErrorKind::CannotInferType { symbol: "y".to_string() });
    let t = resolve_parameter_type("z", &vec![Type::String, Type::Number, Type::String], at, &mut errors);
    assert_eq!(t, Type::Error);
    assert_eq!(
        errors[1].kind,
        SemanticErrorKind::AmbiguousInference { symbol: "z".to_string(), candidates: vec![Type::String, Type::Number] }
    );
    assert_eq!(errors[1].span, at);
}

#[test]
fn return_types_are_inferred_or_checked() {
    let registry = seeded_registry();
    let at = SourceSpan::new(8, 1);
    let mut errors: Vec<SemanticError> = Vec::new();
    assert_eq!(resolve_return_type(&registry, "f", &None, &Type::Number, at, &mut errors), Some(Type::Number));
    assert!(errors.is_empty());
    assert_eq!(resolve_return_type(&registry, "g", &None, &Type::Unknown, at, &mut errors), None);
    assert_eq!(errors[0].kind, SemanticErrorKind::CannotInferType { symbol: "g".to_string() });
    let annotated = Some(TypeRef::named("Number".to_string()));
    assert_eq!(resolve_return_type(&registry, "h", &annotated, &Type::Number, at, &mut errors), None);
    assert_eq!(errors.len(), 1);
    assert_eq!(resolve_return_type(&registry, "k", &annotated, &Type::String, at, &mut errors), None);
    assert_eq!(errors[1].kind, SemanticErrorKind::TypeMismatch { expected: Type::Number, found: Type::String });
}

#[test]
fn calls_resolve_functions_and_methods() {
    let mut registry = seeded_registry();
    let mut methods = NameMap::new();
    methods.insert("scale".to_string(), sig(vec![Type::Number], Type::String, "Shape", 1));
    registry.types.insert("Shape".to_string(), type_info("Shape", Some("Object"), methods));
    let at = SourceSpan::new(9, 1);
    let mut errors: Vec<SemanticError> = Vec::new();
    let t = infer_call(&registry, &Callee::Function("sqrt".to_string()), &vec![Type::Number], &vec![at], at, &mut errors);
    assert_eq!(t, Type::Number);
    assert!(errors.is_empty());
    let shape = Type::Named("Shape".to_string());
    let t = infer_call(
        &registry,
        &Callee::Method { object: shape.duplicate(), method: "scale".to_string() },
        &vec![Type::Number],
        &vec![at],
        at,
        &mut errors,
    );
    assert_eq!(t, Type::String);
    assert!(errors.is_empty());
    let t = infer_call(
        &registry,
        &Callee::Method { object: shape.duplicate(), method: "grow".to_string() },
        &vec![],
        &vec![],
        at,
        &mut errors,
    );
    assert_eq!(t, Type::Error);
    assert_eq!(errors[0].kind, SemanticErrorKind::UnknownMember { ty: shape.duplicate(), member: "grow".to_string() });
    let t = infer_call(&registry, &Callee::Function("nope".to_string()), &vec![Type::Number], &vec![at], at, &mut errors);
    assert_eq!(t, Type::Error);
    assert_eq!(errors[1].kind, SemanticErrorKind::UndefinedFunction { name: "unknown".to_string(), arity: 1 });
    let t = infer_call(&registry, &Callee::Function("sqrt".to_string()), &vec![], &vec![], at, &mut errors);
    assert_eq!(t, Type::Number);
    assert_eq!(errors[2].kind, SemanticErrorKind::ArityMismatch { expected: 1, found: 0 });
}
