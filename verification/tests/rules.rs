use hulk::ast::{Literal, Pattern, SourceSpan, TypeRef};
use hulk::semantic::environment::Environment;
use hulk::name_map::NameMap;
use hulk::semantic::analysis::hierarchy_stage;
use hulk::semantic::error::{SemanticError, SemanticErrorKind};
use hulk::semantic::inference::{
    binding_type, check_assigned_value, check_condition, check_exhaustive, check_parent_arguments, for_element_type,
    infer_base_ref, infer_member, infer_pattern, infer_self_ref,
};
use hulk::semantic::registry::{
    seeded_registry, AttributeInfo, MethodSignature, ParentLink, TypeInfo, TypeRegistry,
};
use hulk::semantic::types::Type;

fn at(line: usize) -> SourceSpan {
    SourceSpan::new(line, 1)
}

fn named(n: &str) -> Type {
    Type::Named(n.to_string())
}

fn bare_type(name: &str, parent: Option<&str>) -> TypeInfo {
    TypeInfo {
        name: name.to_string(),
        params: vec![("side".to_string(), Type::Number)],
        parent: parent.map(|p| ParentLink { name: p.to_string(), args: Vec::new() }),
        attributes: NameMap::new(),
        methods: NameMap::new(),
        flattened_methods: NameMap::new(),
        is_builtin_value: false,
        span: at(1),
    }
}

fn shapes() -> TypeRegistry {
    let mut shape = bare_type("Shape", None);
    shape.methods.insert(
        "area".to_string(),
        MethodSignature { params: Vec::new(), return_type: Type::Number, defined_in: "Shape".to_string(), span: at(2) },
    );
    shape.attributes.insert("label".to_string(), AttributeInfo { declared_type: Some(Type::String), span: at(3) });
    shape.flattened_methods.insert(
        "area".to_string(),
        MethodSignature { params: Vec::new(), return_type: Type::Number, defined_in: "Shape".to_string(), span: at(2) },
    );
    let square = bare_type("Square", Some("Shape"));
    let mut registry = TypeRegistry { types: NameMap::new(), protocols: NameMap::new(), functions: NameMap::new() };
    registry.types.insert("Shape".to_string(), shape);
    registry.types.insert("Square".to_string(), square);
    registry
}

#[test]
fn self_has_the_type_of_the_enclosing_type() {
    let mut errors = Vec::new();
    assert_eq!(infer_self_ref(&Some(named("Square")), at(1), &mut errors), named("Square"));
    assert!(errors.is_empty());
    assert_eq!(infer_self_ref(&None, at(2), &mut errors), Type::Error);
    assert_eq!(errors, vec![SemanticError::error(SemanticErrorKind::UndefinedVariable("self".to_string()), at(2))]);
}

#[test]
fn base_is_the_parents_method_of_the_same_name() {
    let registry = shapes();
    let mut errors = Vec::new();
    let t = infer_base_ref(&registry, &Some("Square".to_string()), &Some("area".to_string()), at(4), &mut errors);
    assert_eq!(t, Type::Number);
    assert!(errors.is_empty());
    let t = infer_base_ref(&registry, &Some("Square".to_string()), &Some("perimeter".to_string()), at(5), &mut errors);
    assert_eq!(t, Type::Error);
    let t = infer_base_ref(&registry, &None, &Some("area".to_string()), at(6), &mut errors);
    assert_eq!(t, Type::Error);
    assert_eq!(
        errors,
        vec![
            SemanticError::error(SemanticErrorKind::BaseOutsideOverridingMethod, at(5)),
            SemanticError::error(SemanticErrorKind::BaseOutsideOverridingMethod, at(6)),
        ]
    );
}

#[test]
fn conditions_must_be_boolean() {
    let mut errors = Vec::new();
    check_condition(&Type::Boolean, at(1), &mut errors);
    assert!(errors.is_empty());
    check_condition(&Type::Number, at(2), &mut errors);
    assert_eq!(errors, vec![SemanticError::error(SemanticErrorKind::NonBooleanCondition(Type::Number), at(2))]);
}

#[test]
fn loop_variables_take_the_element_type() {
    let mut registry = seeded_registry();
    let _ = hierarchy_stage(&mut registry, Vec::new());
    let mut errors = Vec::new();
    assert_eq!(
        for_element_type(&registry, &Type::Vector(Box::new(Type::String)), at(1), &mut errors),
        Type::String
    );
    assert_eq!(
        for_element_type(&registry, &Type::Iterable(Box::new(Type::Boolean)), at(1), &mut errors),
        Type::Boolean
    );
    assert_eq!(for_element_type(&registry, &named("Range"), at(1), &mut errors), Type::Number);
    assert!(errors.is_empty());
    assert_eq!(for_element_type(&registry, &Type::Number, at(3), &mut errors), Type::Error);
    assert_eq!(errors, vec![SemanticError::error(SemanticErrorKind::NotIterable(Type::Number), at(3))]);
}

#[test]
fn members_are_attributes_then_methods() {
    let registry = shapes();
    let mut errors = Vec::new();
    assert_eq!(infer_member(&registry, &named("Shape"), "label", at(1), &mut errors), Type::String);
    assert_eq!(infer_member(&registry, &named("Shape"), "area", at(1), &mut errors), Type::Number);
    assert!(errors.is_empty());
    assert_eq!(infer_member(&registry, &named("Shape"), "side", at(7), &mut errors), Type::Error);
    assert_eq!(
        errors,
        vec![SemanticError::error(
            SemanticErrorKind::UnknownMember { ty: named("Shape"), member: "side".to_string() },
            at(7),
        )]
    );
}

#[test]
fn bindings_take_their_annotation_or_their_initializer() {
    let registry = shapes();
    let mut errors = Vec::new();
    assert_eq!(binding_type(&registry, &None, &Type::String, at(1), &mut errors), Type::String);
    let number = Some(TypeRef::named("Number".to_string()));
    assert_eq!(binding_type(&registry, &number, &Type::Number, at(1), &mut errors), Type::Number);
    assert!(errors.is_empty());
    assert_eq!(binding_type(&registry, &number, &Type::String, at(8), &mut errors), Type::Number);
    assert_eq!(
        errors,
        vec![SemanticError::error(SemanticErrorKind::TypeMismatch { expected: Type::Number, found: Type::String }, at(8))]
    );
}

#[test]
fn assigned_values_must_conform_to_their_target() {
    let registry = shapes();
    let mut errors = Vec::new();
    check_assigned_value(&registry, &Type::Number, &Type::Number, at(1), &mut errors);
    assert!(errors.is_empty());
    check_assigned_value(&registry, &Type::Number, &Type::Boolean, at(9), &mut errors);
    assert_eq!(
        errors,
        vec![SemanticError::error(SemanticErrorKind::TypeMismatch { expected: Type::Number, found: Type::Boolean }, at(9))]
    );
}

#[test]
fn parent_constructor_arguments_are_checked_at_the_declaration() {
    let registry = shapes();
    let mut errors = Vec::new();
    check_parent_arguments(&registry, "Shape", &vec![Type::Number], at(1), &mut errors);
    check_parent_arguments(&registry, "Missing", &vec![Type::Number, Type::Number], at(1), &mut errors);
    assert!(errors.is_empty());
    check_parent_arguments(&registry, "Shape", &vec![Type::String], at(10), &mut errors);
    check_parent_arguments(&registry, "Shape", &Vec::new(), at(11), &mut errors);
    assert_eq!(
        errors,
        vec![
            SemanticError::error(SemanticErrorKind::NotConforming { found: Type::String, expected: Type::Number }, at(10)),
            SemanticError::error(SemanticErrorKind::ArityMismatch { expected: 1, found: 0 }, at(11)),
        ]
    );
}

#[test]
fn patterns_bind_and_catch_as_their_form_says() {
    let mut env = Environment::new();
    env.declare("outer", Type::String, at(1));
    let mut errors = Vec::new();

    let (wild, catches) = infer_pattern(&Pattern::Wildcard, &Type::Number, &env, at(2), &mut errors);
    assert!(catches);
    assert_eq!(wild.lookup("outer").unwrap().ty, Type::String);

    let (bound, catches) = infer_pattern(&Pattern::Variable("v".to_string()), &Type::Number, &env, at(3), &mut errors);
    assert!(catches);
    assert_eq!(bound.lookup("v").unwrap().ty, Type::Number);
    assert_eq!(bound.lookup("v").unwrap().span, at(3));
    assert!(env.lookup("v").is_none());

    let (_, catches) = infer_pattern(&Pattern::Literal(Literal::Boolean(true)), &Type::Boolean, &env, at(4), &mut errors);
    assert!(!catches);
    assert!(errors.is_empty());

    let (_, _) = infer_pattern(&Pattern::Literal(Literal::String("s".to_string())), &Type::Number, &env, at(5), &mut errors);
    let (aliased, catches) = infer_pattern(
        &Pattern::Type(TypeRef::named("Shape".to_string()), Some("s".to_string())),
        &Type::Number,
        &env,
        at(6),
        &mut errors,
    );
    assert!(!catches);
    assert_eq!(aliased.lookup("s").unwrap().ty, named("Shape"));
    assert_eq!(
        errors,
        vec![
            SemanticError::error(SemanticErrorKind::TypeMismatch { expected: Type::Number, found: Type::String }, at(5)),
            SemanticError::error(SemanticErrorKind::TypeMismatch { expected: Type::Object, found: Type::Number }, at(6)),
        ]
    );

    let mut warnings = Vec::new();
    check_exhaustive(true, at(7), &mut warnings);
    assert!(warnings.is_empty());
    check_exhaustive(false, at(8), &mut warnings);
    assert_eq!(warnings, vec![SemanticError::warning(SemanticErrorKind::NonExhaustiveMatch, at(8))]);
}
