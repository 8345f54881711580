use hulk::ast::SourceSpan;
use hulk::name_map::NameMap;
use hulk::semantic::environment::{Binding, Environment};
use hulk::semantic::error::{SemanticError, SemanticErrorKind, Severity};
use hulk::semantic::registry::{seeded_registry, ParentLink, TypeInfo};
use hulk::semantic::types::Type;

fn span(line: usize, col: usize) -> SourceSpan {
    SourceSpan::new(line, col)
}

fn plain_type(name: &str, parent: Option<&str>) -> TypeInfo {
    TypeInfo {
        name: name.to_string(),
        params: Vec::new(),
        parent: parent.map(|p| ParentLink { name: p.to_string(), args: Vec::new() }),
        attributes: NameMap::new(),
        methods: NameMap::new(),
        flattened_methods: NameMap::new(),
        is_builtin_value: false,
        span: SourceSpan::new(0, 0),
    }
}

#[test]
fn is_ancestor_self_is_true() {
    let mut registry = seeded_registry();
    // Insert a user type T.
    registry.types.insert("T".to_string(), plain_type("T", None));
    assert!(registry.is_ancestor("T", "T"));
    // Also for builtins:
    assert!(registry.is_ancestor("Number", "Number"));
    assert!(registry.is_ancestor("Object", "Object"));
}

#[test]
fn ancestors_follow_parent_links() {
    let mut registry = seeded_registry();
    registry.types.insert("A".to_string(), plain_type("A", Some("Object")));
    registry.types.insert("B".to_string(), plain_type("B", Some("A")));
    assert!(registry.is_ancestor("Object", "B"));
    assert!(registry.is_ancestor("A", "B"));
    assert!(!registry.is_ancestor("B", "A"));
    assert!(!registry.is_ancestor("Number", "B"));
    assert!(!registry.is_ancestor("Object", "Missing"));
    assert_eq!(registry.parent_of("B"), Some("A".to_string()));
    assert_eq!(registry.parent_of("Object"), None);
    assert_eq!(registry.parent_of("Missing"), None);
}

#[test]
fn cyclic_parents_never_reach_an_absent_ancestor() {
    let mut registry = seeded_registry();
    registry.types.insert("C".to_string(), plain_type("C", Some("D")));
    registry.types.insert("D".to_string(), plain_type("D", Some("C")));
    assert!(!registry.is_ancestor("Object", "C"));
    assert!(registry.is_ancestor("D", "C"));
}

#[test]
fn seeded_registry_holds_the_builtins() {
    let registry = seeded_registry();
    for name in ["Object", "Number", "String", "Boolean", "Range"] {
        assert!(registry.lookup_type(name).is_some(), "{name}");
    }
    assert!(registry.lookup_type("Vector").is_none());
    assert!(registry.lookup_type("Number").unwrap().is_builtin_value);
    assert!(!registry.lookup_type("Range").unwrap().is_builtin_value);
    assert!(registry.is_ancestor("Object", "Range"));
    assert!(registry.lookup_protocol("Iterable").is_some());
    assert!(registry.lookup_protocol("Enumerable").is_some());
    assert!(registry.is_protocol(&Type::Named("Iterable".to_string())));
    assert!(!registry.is_protocol(&Type::Named("Range".to_string())));
    assert!(!registry.is_protocol(&Type::Object));
    let log = registry.lookup_function("log").unwrap();
    assert_eq!(log.params.len(), 2);
    assert_eq!(log.return_type, Type::Number);
    assert_eq!(registry.lookup_function("range").unwrap().return_type, Type::Named("Range".to_string()));
    assert_eq!(registry.functions.len(), 10);
    assert!(registry.lookup_function("PI").unwrap().params.is_empty());
    let iter = registry.lookup_protocol("Enumerable").unwrap().methods.get("iter").unwrap();
    assert_eq!(iter.return_type, Type::Iterable(Box::new(Type::Object)));
}

#[test]
fn lookup_finds_the_innermost_binding() {
    let mut env = Environment::new();
    assert_eq!(env.depth(), 1);
    env.declare("a", Type::Number, span(1, 1));
    env.push_scope();
    assert_eq!(env.depth(), 2);
    assert_eq!(env.lookup("a"), Some(&Binding::new(Type::Number, span(1, 1))));
    env.declare("a", Type::String, span(2, 1));
    assert_eq!(env.lookup("a").map(|b| &b.ty), Some(&Type::String));
    env.pop_scope();
    assert_eq!(env.depth(), 1);
    assert_eq!(env.lookup("a").map(|b| &b.ty), Some(&Type::Number));
    assert!(env.is_declared("a"));
    assert!(!env.is_declared("b"));
}

#[test]
fn redeclaring_in_the_same_scope_rebinds() {
    let mut env = Environment::default();
    env.declare("a", Type::Number, span(1, 1));
    env.declare("a", Type::Boolean, span(1, 9));
    assert_eq!(env.lookup("a"), Some(&Binding::new(Type::Boolean, span(1, 9))));
    env.push_scope();
    env.declare("b", Type::Object, span(3, 3));
    env.pop_scope();
    assert_eq!(env.lookup("b"), None);
}

#[test]
fn semantic_error_constructors_set_the_severity() {
    let e = SemanticError::error(SemanticErrorKind::UndefinedVariable("x".to_string()), span(3, 7));
    assert_eq!(e.severity, Severity::Error);
    assert_eq!(e.message(), "semantic error at line 3, col 7: undefined variable `x`");
    let w = SemanticError::warning(SemanticErrorKind::NonExhaustiveMatch, span(10, 2));
    assert_eq!(w.severity, Severity::Warning);
    assert_eq!(w.message(), "semantic warning at line 10, col 2: non\u{2011}exhaustive match: no catch\u{2011}all pattern");
}

#[test]
fn semantic_error_messages() {
    assert_eq!(
        SemanticErrorKind::UndefinedFunction { name: "f".to_string(), arity: 12 }.message(),
        "undefined function `f` with 12 argument(s)"
    );
    assert_eq!(
        SemanticErrorKind::InheritanceCycle(vec!["A".to_string(), "B".to_string(), "A".to_string()]).message(),
        "inheritance cycle detected: A -> B -> A"
    );
    assert_eq!(
        SemanticErrorKind::ProtocolNotImplemented {
            ty: Type::Named("T".to_string()),
            protocol: "P".to_string(),
            missing: vec!["f".to_string(), "g".to_string()],
        }
        .message(),
        "type `T` does not implement protocol `P`; missing methods: f, g"
    );
    assert_eq!(
        SemanticErrorKind::ArityMismatch { expected: 2, found: 0 }.message(),
        "arity mismatch: expected 2, found 0"
    );
    assert_eq!(
        SemanticErrorKind::InvalidOperator {
            op: "+".to_string(),
            operand_types: vec![Type::Number, Type::Vector(Box::new(Type::String))],
        }
        .message(),
        "invalid operator `+` for types Number, Vector<String>"
    );
    assert_eq!(
        SemanticErrorKind::TypeMismatch { expected: Type::Number, found: Type::Boolean }.message(),
        "type mismatch: expected `Number`, found `Boolean`"
    );
}
