use hulk::ast::{SourceSpan, TypeRef};
use hulk::name_map::NameMap;
use hulk::semantic::members::{attribute_owner, iterable_element_type, lookup_member, lookup_method, resolve_type_ref};
use hulk::semantic::registry::{AttributeInfo, MethodSignature, TypeInfo, TypeRegistry};
use hulk::semantic::types::Type;

fn named(n: &str) -> TypeRef {
    TypeRef::named(n.to_string())
}

fn signature(return_type: Type, owner: &str) -> MethodSignature {
    MethodSignature { params: Vec::new(), return_type, defined_in: owner.to_string(), span: SourceSpan::new(1, 1) }
}

fn registry() -> TypeRegistry {
    let mut point = TypeInfo {
        name: "Point".to_string(),
        params: Vec::new(),
        parent: None,
        attributes: NameMap::new(),
        methods: NameMap::new(),
        flattened_methods: NameMap::new(),
        is_builtin_value: false,
        span: SourceSpan::new(1, 1),
    };
    point.attributes.insert("x".to_string(), AttributeInfo { declared_type: Some(Type::Number), span: SourceSpan::new(2, 1) });
    point.attributes.insert("pending".to_string(), AttributeInfo { declared_type: None, span: SourceSpan::new(3, 1) });
    point.methods.insert("current".to_string(), signature(Type::String, "Point"));
    point.flattened_methods.insert("norm".to_string(), signature(Type::Number, "Point"));
    point.flattened_methods.insert("pending".to_string(), signature(Type::Boolean, "Point"));
    let mut registry = TypeRegistry { types: NameMap::new(), protocols: NameMap::new(), functions: NameMap::new() };
    registry.types.insert("Point".to_string(), point);
    registry
}

#[test]
fn written_types_become_semantic_types() {
    assert_eq!(resolve_type_ref(&named("Number")), Type::Number);
    assert_eq!(resolve_type_ref(&named("String")), Type::String);
    assert_eq!(resolve_type_ref(&named("Boolean")), Type::Boolean);
    assert_eq!(resolve_type_ref(&named("Object")), Type::Object);
    assert_eq!(resolve_type_ref(&named("Point")), Type::Named("Point".to_string()));
    assert_eq!(resolve_type_ref(&named("Vector")), Type::Named("Vector".to_string()));
    let nested = TypeRef::with_args(
        "Vector".to_string(),
        vec![TypeRef::with_args("Iterable".to_string(), vec![named("Point")])],
    );
    assert_eq!(
        resolve_type_ref(&nested),
        Type::Vector(Box::new(Type::Iterable(Box::new(Type::Named("Point".to_string())))))
    );
    let generic = TypeRef::with_args("Pair".to_string(), vec![named("Number"), named("String")]);
    assert_eq!(resolve_type_ref(&generic), Type::Named("Pair".to_string()));
}

#[test]
fn attributes_are_owned_by_the_named_type() {
    let registry = registry();
    let point = Type::Named("Point".to_string());
    assert_eq!(attribute_owner(&registry, &point, "x"), Some(point.duplicate()));
    assert_eq!(attribute_owner(&registry, &point, "y"), None);
    assert_eq!(attribute_owner(&registry, &Type::Named("Nope".to_string()), "x"), None);
    assert_eq!(attribute_owner(&registry, &Type::Number, "x"), None);
}

#[test]
fn methods_come_from_the_flattened_table() {
    let registry = registry();
    let point = Type::Named("Point".to_string());
    assert_eq!(lookup_method(&registry, &point, "norm").map(|s| s.return_type.duplicate()), Some(Type::Number));
    assert!(lookup_method(&registry, &point, "current").is_none());
    assert!(lookup_method(&registry, &Type::Object, "norm").is_none());
}

#[test]
fn members_prefer_typed_attributes_over_methods() {
    let registry = registry();
    let point = Type::Named("Point".to_string());
    assert_eq!(lookup_member(&registry, &point, "x"), Some((point.duplicate(), Type::Number)));
    assert_eq!(lookup_member(&registry, &point, "pending"), Some((point.duplicate(), Type::Boolean)));
    assert_eq!(lookup_member(&registry, &point, "norm"), Some((point.duplicate(), Type::Number)));
    assert_eq!(lookup_member(&registry, &point, "missing"), None);
    assert_eq!(lookup_member(&registry, &Type::String, "x"), None);
}

#[test]
fn the_element_type_is_what_current_returns() {
    let registry = registry();
    assert_eq!(iterable_element_type(&registry, &Type::Named("Point".to_string())), Some(Type::String));
    assert_eq!(iterable_element_type(&registry, &Type::Named("Other".to_string())), None);
    assert_eq!(iterable_element_type(&registry, &Type::Vector(Box::new(Type::Number))), None);
}
