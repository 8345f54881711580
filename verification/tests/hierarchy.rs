use hulk::ast::SourceSpan;
use hulk::ast::TypeRef;
use hulk::layout::{
    collect_ancestors, has_subtypes, is_heap_allocated_type, is_protocol_or_iterable, owning_type_for_method,
    resolve_type_ref_to_type,
};
use hulk::name_map::NameMap;
use hulk::semantic::error::{SemanticError, SemanticErrorKind, Severity};
use hulk::semantic::hierarchy::{
    check_builtin_inheritance, check_overrides, detect_cycles, flatten_tables, resolve_parent_links,
    topological_order,
};
use hulk::semantic::registry::{AttributeInfo, MethodSignature, ParentLink, ProtocolInfo, TypeInfo, TypeRegistry};
use hulk::semantic::types::{types_equal, Type};

fn empty_registry() -> TypeRegistry {
    TypeRegistry { types: NameMap::new(), protocols: NameMap::new(), functions: NameMap::new() }
}

fn type_at(name: &str, parent: Option<&str>, line: usize) -> TypeInfo {
    TypeInfo {
        name: name.to_string(),
        params: Vec::new(),
        parent: parent.map(|p| ParentLink { name: p.to_string(), args: Vec::new() }),
        attributes: NameMap::new(),
        methods: NameMap::new(),
        flattened_methods: NameMap::new(),
        is_builtin_value: false,
        span: SourceSpan::new(line, 1),
    }
}

fn add(registry: &mut TypeRegistry, name: &str, parent: Option<&str>, line: usize) {
    registry.types.insert(name.to_string(), type_at(name, parent, line));
}

fn method(params: Vec<Type>, return_type: Type, owner: &str, line: usize) -> MethodSignature {
    MethodSignature {
        params: params.into_iter().enumerate().map(|(i, t)| (format!("p{}", i), t)).collect(),
        return_type,
        defined_in: owner.to_string(),
        span: SourceSpan::new(line, 5),
    }
}

fn parent_name_of(registry: &TypeRegistry, name: &str) -> Option<String> {
    registry.parent_of(name)
}

#[test]
fn undefined_parents_are_reported_and_cleared() {
    let mut registry = empty_registry();
    add(&mut registry, "Object", None, 1);
    add(&mut registry, "A", Some("Missing"), 2);
    add(&mut registry, "B", Some("A"), 3);
    let mut errors: Vec<SemanticError> = Vec::new();
    resolve_parent_links(&mut registry, &mut errors);
    assert_eq!(
        errors,
        vec![SemanticError {
            kind: SemanticErrorKind::InheritFromUndefinedType("Missing".to_string()),
            span: SourceSpan::new(2, 1),
            severity: Severity::Error,
        }]
    );
    assert_eq!(parent_name_of(&registry, "A"), None);
    assert_eq!(parent_name_of(&registry, "B"), Some("A".to_string()));
}

#[test]
fn value_type_parents_are_reported_and_cleared() {
    let mut registry = empty_registry();
    add(&mut registry, "Number", None, 1);
    add(&mut registry, "Object", None, 2);
    add(&mut registry, "N", Some("Number"), 3);
    add(&mut registry, "S", Some("String"), 4);
    add(&mut registry, "O", Some("Object"), 5);
    let mut errors: Vec<SemanticError> = Vec::new();
    check_builtin_inheritance(&mut registry, &mut errors);
    assert_eq!(errors.len(), 2);
    assert_eq!(errors[0].kind, SemanticErrorKind::InheritFromBuiltinValueType("Number".to_string()));
    assert_eq!(errors[0].span, SourceSpan::new(3, 1));
    assert_eq!(errors[1].kind, SemanticErrorKind::InheritFromBuiltinValueType("String".to_string()));
    assert_eq!(errors[1].span, SourceSpan::new(4, 1));
    assert_eq!(parent_name_of(&registry, "N"), None);
    assert_eq!(parent_name_of(&registry, "S"), None);
    assert_eq!(parent_name_of(&registry, "O"), Some("Object".to_string()));
}

#[test]
fn acyclic_hierarchy_has_no_cycle() {
    let mut registry = empty_registry();
    add(&mut registry, "Object", None, 1);
    add(&mut registry, "A", Some("Object"), 2);
    add(&mut registry, "B", Some("A"), 3);
    add(&mut registry, "C", Some("Elsewhere"), 4);
    assert!(detect_cycles(&registry).is_none());
}

#[test]
fn a_cycle_is_reported_with_the_span_of_its_first_type() {
    let mut registry = empty_registry();
    add(&mut registry, "Object", None, 1);
    add(&mut registry, "X", Some("C"), 2);
    add(&mut registry, "C", Some("D"), 3);
    add(&mut registry, "D", Some("C"), 4);
    let (cycle, span) = detect_cycles(&registry).expect("the cycle C -> D -> C");
    assert_eq!(cycle, vec!["C".to_string(), "D".to_string()]);
    assert_eq!(span, SourceSpan::new(3, 1));
}

#[test]
fn a_type_that_is_its_own_parent_is_a_cycle() {
    let mut registry = empty_registry();
    add(&mut registry, "Self", Some("Self"), 7);
    let (cycle, span) = detect_cycles(&registry).expect("the cycle Self -> Self");
    assert_eq!(cycle, vec!["Self".to_string()]);
    assert_eq!(span, SourceSpan::new(7, 1));
}

#[test]
fn topological_order_puts_parents_first() {
    let mut registry = empty_registry();
    add(&mut registry, "B", Some("A"), 1);
    add(&mut registry, "A", Some("Object"), 2);
    add(&mut registry, "Object", None, 3);
    add(&mut registry, "D", Some("Outside"), 4);
    let order = topological_order(&registry);
    assert_eq!(order.len(), 4);
    let at = |n: &str| order.iter().position(|x| x == n).expect("listed");
    assert!(at("Object") < at("A"));
    assert!(at("A") < at("B"));
    assert_eq!(order, vec!["Object".to_string(), "A".to_string(), "B".to_string(), "D".to_string()]);
}

#[test]
fn topological_order_leaves_out_cycles_and_what_is_below_them() {
    let mut registry = empty_registry();
    add(&mut registry, "Object", None, 1);
    add(&mut registry, "C", Some("D"), 2);
    add(&mut registry, "D", Some("C"), 3);
    add(&mut registry, "E", Some("C"), 4);
    add(&mut registry, "F", Some("Object"), 5);
    let order = topological_order(&registry);
    assert_eq!(order, vec!["Object".to_string(), "F".to_string()]);
}

#[test]
fn overrides_must_keep_the_parent_signature() {
    let mut registry = empty_registry();
    let mut p = type_at("P", None, 1);
    p.methods.insert("m".to_string(), method(vec![Type::Number], Type::Number, "P", 10));
    p.methods.insert("k".to_string(), method(vec![Type::Named("A".to_string())], Type::Boolean, "P", 11));
    p.methods.insert("same".to_string(), method(vec![Type::Vector(Box::new(Type::String))], Type::Object, "P", 12));
    let mut c = type_at("C", Some("P"), 2);
    c.methods.insert("m".to_string(), method(vec![Type::String], Type::Number, "C", 20));
    c.methods.insert("k".to_string(), method(vec![Type::Named("A".to_string()), Type::Number], Type::Boolean, "C", 21));
    c.methods.insert("same".to_string(), method(vec![Type::Vector(Box::new(Type::String))], Type::Object, "C", 22));
    c.methods.insert("fresh".to_string(), method(vec![], Type::Object, "C", 23));
    registry.types.insert("P".to_string(), p);
    registry.types.insert("C".to_string(), c);
    let mut errors: Vec<SemanticError> = Vec::new();
    check_overrides(&registry, &mut errors);
    assert_eq!(
        errors,
        vec![
            SemanticError {
                kind: SemanticErrorKind::InvalidOverride {
                    method: "m".to_string(),
                    in_type: "C".to_string(),
                    expected: "(Number) -> Number".to_string(),
                    found: "(String) -> Number".to_string(),
                },
                span: SourceSpan::new(20, 5),
                severity: Severity::Error,
            },
            SemanticError {
                kind: SemanticErrorKind::InvalidOverride {
                    method: "k".to_string(),
                    in_type: "C".to_string(),
                    expected: "(A) -> Boolean".to_string(),
                    found: "(A, Number) -> Boolean".to_string(),
                },
                span: SourceSpan::new(21, 5),
                severity: Severity::Error,
            },
        ]
    );
}

#[test]
fn overrides_under_an_undefined_parent_are_not_checked() {
    let mut registry = empty_registry();
    let mut c = type_at("C", Some("Gone"), 2);
    c.methods.insert("m".to_string(), method(vec![Type::String], Type::Number, "C", 20));
    registry.types.insert("C".to_string(), c);
    let mut errors: Vec<SemanticError> = Vec::new();
    check_overrides(&registry, &mut errors);
    assert!(errors.is_empty());
}

#[test]
fn flattening_copies_inherited_members_below_own_ones() {
    let mut registry = empty_registry();
    let mut g = type_at("G", None, 1);
    g.attributes.insert("g".to_string(), AttributeInfo { declared_type: Some(Type::Number), span: SourceSpan::new(1, 2) });
    g.methods.insert("root".to_string(), method(vec![], Type::Object, "G", 1));
    let mut p = type_at("P", Some("G"), 2);
    p.attributes.insert("a".to_string(), AttributeInfo { declared_type: Some(Type::String), span: SourceSpan::new(2, 2) });
    p.methods.insert("m".to_string(), method(vec![Type::Number], Type::Number, "P", 2));
    let mut c = type_at("C", Some("P"), 3);
    c.attributes.insert("b".to_string(), AttributeInfo { declared_type: None, span: SourceSpan::new(3, 2) });
    c.methods.insert("m".to_string(), method(vec![Type::Number], Type::Number, "C", 3));
    c.methods.insert("n".to_string(), method(vec![], Type::Boolean, "C", 4));
    registry.types.insert("C".to_string(), c);
    registry.types.insert("P".to_string(), p);
    registry.types.insert("G".to_string(), g);
    let mut errors: Vec<SemanticError> = Vec::new();
    flatten_tables(&mut registry, &mut errors);
    assert!(errors.is_empty());

    let c = registry.types.get("C").expect("C");
    for name in ["g", "a", "b"] {
        assert!(c.attributes.contains_key(name), "attribute {}", name);
    }
    assert_eq!(c.attributes.len(), 3);
    assert_eq!(c.attributes.get("b").expect("b").span, SourceSpan::new(3, 2));
    assert_eq!(c.methods.len(), 3);
    assert_eq!(c.methods.get("m").expect("m").defined_in, "C".to_string());
    assert_eq!(c.methods.get("root").expect("root").defined_in, "G".to_string());
    assert_eq!(c.flattened_methods.len(), 3);
    assert_eq!(c.flattened_methods.get("n").expect("n").return_type, Type::Boolean);

    let p = registry.types.get("P").expect("P");
    assert_eq!(p.attributes.len(), 2);
    assert_eq!(p.methods.len(), 2);

    let g = registry.types.get("G").expect("G");
    assert_eq!(g.attributes.len(), 1);
    assert_eq!(g.flattened_methods.len(), 0);
}

#[test]
fn ancestors_are_listed_from_the_root_down() {
    let mut registry = empty_registry();
    add(&mut registry, "Object", None, 1);
    add(&mut registry, "A", Some("Object"), 2);
    add(&mut registry, "B", Some("A"), 3);
    assert_eq!(collect_ancestors("B", &registry), vec!["Object".to_string(), "A".to_string()]);
    assert_eq!(collect_ancestors("Object", &registry), Vec::<String>::new());
    assert_eq!(collect_ancestors("Unknown", &registry), Vec::<String>::new());
}

#[test]
fn ancestors_end_at_a_name_that_is_not_registered() {
    let mut registry = empty_registry();
    add(&mut registry, "A", Some("Ghost"), 2);
    assert_eq!(collect_ancestors("A", &registry), vec!["Ghost".to_string()]);
}

#[test]
fn the_owner_of_a_method_is_the_nearest_declaring_type() {
    let mut registry = empty_registry();
    let mut object = type_at("Object", None, 1);
    object.methods.insert("describe".to_string(), method(vec![], Type::String, "Object", 1));
    let mut a = type_at("A", Some("Object"), 2);
    a.methods.insert("m".to_string(), method(vec![], Type::Number, "A", 2));
    let b = type_at("B", Some("A"), 3);
    let mut c = type_at("C", Some("B"), 4);
    c.methods.insert("m".to_string(), method(vec![], Type::Number, "C", 4));
    registry.types.insert("Object".to_string(), object);
    registry.types.insert("A".to_string(), a);
    registry.types.insert("B".to_string(), b);
    registry.types.insert("C".to_string(), c);
    assert_eq!(owning_type_for_method("B", "m", &registry), Some("A".to_string()));
    assert_eq!(owning_type_for_method("C", "m", &registry), Some("C".to_string()));
    assert_eq!(owning_type_for_method("C", "describe", &registry), Some("Object".to_string()));
    assert_eq!(owning_type_for_method("C", "absent", &registry), None);
    assert_eq!(owning_type_for_method("Nowhere", "m", &registry), None);
}

#[test]
fn subtypes_are_found_by_parent_name() {
    let mut registry = empty_registry();
    add(&mut registry, "Object", None, 1);
    add(&mut registry, "A", Some("Object"), 2);
    add(&mut registry, "B", Some("A"), 3);
    assert!(has_subtypes("A", &registry));
    assert!(has_subtypes("Object", &registry));
    assert!(!has_subtypes("B", &registry));
    assert!(!has_subtypes("Missing", &registry));
}

#[test]
fn type_equality_is_structural() {
    let f = Type::Function { params: vec![Type::Number, Type::Named("P".to_string())], return_type: Box::new(Type::Vector(Box::new(Type::Boolean))) };
    let g = f.duplicate();
    assert!(types_equal(&f, &g));
    assert_eq!(f, g);
    let h = Type::Function { params: vec![Type::Number, Type::Named("Q".to_string())], return_type: Box::new(Type::Vector(Box::new(Type::Boolean))) };
    assert!(!types_equal(&f, &h));
    assert!(!types_equal(&h, &f));
    assert!(types_equal(&g, &f));
    assert!(types_equal(&h, &h));
    assert!(!types_equal(&Type::Vector(Box::new(Type::Number)), &Type::Iterable(Box::new(Type::Number))));
    assert!(types_equal(&Type::Unknown, &Type::Unknown));
    assert!(!types_equal(&Type::Function { params: vec![], return_type: Box::new(Type::Object) }, &Type::Function { params: vec![Type::Object], return_type: Box::new(Type::Object) }));
}

fn registry_with_protocol() -> TypeRegistry {
    let mut registry = empty_registry();
    add(&mut registry, "Point", None, 1);
    registry.protocols.insert(
        "Hashable".to_string(),
        ProtocolInfo {
            name: "Hashable".to_string(),
            extends: Vec::new(),
            methods: NameMap::new(),
            flattened_methods: NameMap::new(),
            span: SourceSpan::new(2, 1),
        },
    );
    registry
}

#[test]
fn heap_allocated_types_are_the_pointer_types() {
    let registry = empty_registry();
    assert!(is_heap_allocated_type(&Type::String, &registry));
    assert!(is_heap_allocated_type(&Type::Object, &registry));
    assert!(is_heap_allocated_type(&Type::Vector(Box::new(Type::Number)), &registry));
    assert!(is_heap_allocated_type(&Type::Iterable(Box::new(Type::Number)), &registry));
    assert!(is_heap_allocated_type(&Type::Named("Point".to_string()), &registry));
    assert!(!is_heap_allocated_type(&Type::Number, &registry));
    assert!(!is_heap_allocated_type(&Type::Boolean, &registry));
    assert!(!is_heap_allocated_type(&Type::Unknown, &registry));
}

#[test]
fn written_types_resolve_by_name() {
    let registry = registry_with_protocol();
    let named = |n: &str| TypeRef::named(n.to_string());
    assert_eq!(resolve_type_ref_to_type(&named("Number"), &registry), Type::Number);
    assert_eq!(resolve_type_ref_to_type(&named("String"), &registry), Type::String);
    assert_eq!(resolve_type_ref_to_type(&named("Boolean"), &registry), Type::Boolean);
    assert_eq!(resolve_type_ref_to_type(&named("Object"), &registry), Type::Object);
    assert_eq!(
        resolve_type_ref_to_type(&TypeRef::with_args("Vector".to_string(), vec![named("Number")]), &registry),
        Type::Vector(Box::new(Type::Unknown))
    );
    assert_eq!(
        resolve_type_ref_to_type(&TypeRef::with_args("Iterable".to_string(), vec![named("Point")]), &registry),
        Type::Iterable(Box::new(Type::Unknown))
    );
    assert_eq!(resolve_type_ref_to_type(&named("Vector"), &registry), Type::Unknown);
    assert_eq!(resolve_type_ref_to_type(&named("Point"), &registry), Type::Named("Point".to_string()));
    assert_eq!(resolve_type_ref_to_type(&named("Hashable"), &registry), Type::Named("Hashable".to_string()));
    assert_eq!(resolve_type_ref_to_type(&named("Nope"), &registry), Type::Unknown);
}

#[test]
fn protocol_views_are_protocols_and_iterables() {
    let registry = registry_with_protocol();
    assert!(is_protocol_or_iterable(&Type::Named("Hashable".to_string()), &registry));
    assert!(!is_protocol_or_iterable(&Type::Named("Point".to_string()), &registry));
    assert!(is_protocol_or_iterable(&Type::Iterable(Box::new(Type::Object)), &registry));
    assert!(!is_protocol_or_iterable(&Type::Vector(Box::new(Type::Object)), &registry));
}
