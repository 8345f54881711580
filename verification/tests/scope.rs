use hulk::scope::ScopeStack;

#[test]
fn lookups_search_from_the_innermost_scope_outward() {
    let mut scopes: ScopeStack<(u32, &str)> = ScopeStack::new();
    assert_eq!(scopes.lookup("x"), None);
    scopes.push_scope();
    scopes.declare("x", (1, "outer"));
    scopes.declare("y", (2, "outer"));
    scopes.push_scope();
    scopes.declare("x", (3, "inner"));
    assert_eq!(scopes.lookup("x"), Some(&(3, "inner")));
    assert_eq!(scopes.lookup("y"), Some(&(2, "outer")));
    assert_eq!(scopes.lookup("z"), None);
    let inner = scopes.pop_scope();
    assert_eq!(inner.len(), 1);
    assert_eq!(inner.get("x"), Some(&(3, "inner")));
    assert_eq!(scopes.lookup("x"), Some(&(1, "outer")));
}

#[test]
fn redeclaring_in_one_scope_replaces_the_binding() {
    let mut scopes: ScopeStack<i64> = ScopeStack::new();
    scopes.push_scope();
    scopes.declare("v", 10);
    scopes.declare("v", 20);
    assert_eq!(scopes.lookup("v"), Some(&20));
    let only = scopes.pop_scope();
    assert_eq!(only.len(), 1);
    assert_eq!(scopes.lookup("v"), None);
}
