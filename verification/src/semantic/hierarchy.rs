//! The hierarchy pass over the registry: parents that do not exist, parents
//! that are builtin value types, cycles of parent links, overrides that change
//! a signature, the parents-first order of the types, and the flattening of
//! member tables from parents into children.
use vstd::prelude::*;

use crate::ast::SourceSpan;
use crate::name_map::NameMap;
use crate::semantic::error::{SemanticError, SemanticErrorKind, Severity};
use crate::semantic::registry::{
    attribute_copy, parent_name, signature_copy, AttributeInfo, MethodSignature, TypeInfo, TypeRegistry,
};
use crate::semantic::types::{
    lemma_same_types_pointwise, lemma_type_name_texts_push, same_type, same_types, type_name_text, type_name_texts,
    types_equal, Type,
};
use crate::semantic::variance::{check_protocol_variance, variance_reported, variance_reports};
use crate::text::{join, join_text, texts};

verus! {

/// `t` without its parent link.
pub open spec fn without_parent(t: TypeInfo) -> TypeInfo {
    TypeInfo { parent: None, ..t }
}

/// The registered type `n` names a parent that is not a registered type.
pub open spec fn has_undefined_parent(types: Map<Seq<char>, TypeInfo>, n: Seq<char>) -> bool {
    types.contains_key(n) && (types[n].parent matches Some(p) && !types.contains_key(p.name@))
}

/// The registered type `n` names `Number`, `String` or `Boolean` as its parent.
pub open spec fn has_value_type_parent(types: Map<Seq<char>, TypeInfo>, n: Seq<char>) -> bool {
    types.contains_key(n) && (types[n].parent matches Some(p) && (p.name@ == "Number"@ || p.name@ == "String"@
        || p.name@ == "Boolean"@))
}

/// `types` with the parent links of the types that `bad` selects removed.
pub open spec fn cleared(types: Map<Seq<char>, TypeInfo>, bad: spec_fn(Seq<char>) -> bool) -> Map<Seq<char>, TypeInfo> {
    Map::new(
        |n: Seq<char>| types.contains_key(n),
        |n: Seq<char>|
            if bad(n) {
                without_parent(types[n])
            } else {
                types[n]
            },
    )
}

/// One error per type of `names` (in order) that `bad` selects: `kind` of its
/// parent's name, at the type's span.
pub open spec fn parent_errors(
    names: Seq<Seq<char>>,
    types: Map<Seq<char>, TypeInfo>,
    bad: spec_fn(Seq<char>) -> bool,
    kind: spec_fn(String) -> SemanticErrorKind,
) -> Seq<SemanticError>
    decreases names.len(),
{
    if names.len() == 0 {
        Seq::empty()
    } else {
        let rest = parent_errors(names.drop_last(), types, bad, kind);
        let n = names.last();
        if bad(n) {
            rest.push(
                SemanticError {
                    kind: kind(types[n].parent->Some_0.name),
                    span: types[n].span,
                    severity: Severity::Error,
                },
            )
        } else {
            rest
        }
    }
}

/// Removes the parent link of the type `name` (which must be registered).
fn clear_parent(registry: &mut TypeRegistry, name: &str)
    requires
        old(registry).types@.contains_key(name@),
    ensures
        final(registry).types@ == old(registry).types@.insert(name@, without_parent(old(registry).types@[name@])),
        final(registry).types.names() == old(registry).types.names(),
        final(registry).protocols == old(registry).protocols,
        final(registry).functions == old(registry).functions,
{
    let placeholder = TypeInfo {
        name: String::new(),
        params: Vec::new(),
        parent: None,
        attributes: NameMap::new(),
        methods: NameMap::new(),
        flattened_methods: NameMap::new(),
        is_builtin_value: false,
        span: SourceSpan::new(0, 0),
    };
    let taken = registry.types.swap_value(name, placeholder);
    match taken {
        Some(info) => {
            let mut info = info;
            info.parent = None;
            registry.types.swap_value(name, info);
            proof {
                assert(registry.types@ =~= old(registry).types@.insert(name@, without_parent(old(registry).types@[name@])));
            }
        },
        None => {},
    }
}

/// Rejects parents that are not registered types: reports each such type
/// (in registration order) and removes its parent link.
#[verifier::loop_isolation(false)]
pub fn resolve_parent_links(registry: &mut TypeRegistry, errors: &mut Vec<SemanticError>)
    ensures
        final(registry).types@ == cleared(old(registry).types@, |n: Seq<char>| has_undefined_parent(old(registry).types@, n)),
        final(registry).types.names() == old(registry).types.names(),
        final(registry).protocols == old(registry).protocols,
        final(registry).functions == old(registry).functions,
        final(errors)@ == old(errors)@ + parent_errors(
            old(registry).types.names(),
            old(registry).types@,
            |n: Seq<char>| has_undefined_parent(old(registry).types@, n),
            |p: String| SemanticErrorKind::InheritFromUndefinedType(p),
        ),
{
    let ghost types0 = registry.types@;
    let ghost bad = |n: Seq<char>| has_undefined_parent(types0, n);
    let ghost kind = |p: String| SemanticErrorKind::InheritFromUndefinedType(p);
    let type_names = registry.types.keys();
    let ghost names = registry.types.names();
    let mut i: usize = 0;
    while i < type_names.len()
        invariant
            0 <= i <= type_names@.len(),
            texts(type_names@) == names,
            names.no_duplicates(),
            names.to_set() == types0.dom(),
            registry.types.names() == names,
            registry.protocols == old(registry).protocols,
            registry.functions == old(registry).functions,
            registry.types@.dom() == types0.dom(),
            forall|n: Seq<char>| #[trigger] registry.types@.contains_key(n) ==> registry.types@[n] == if bad(n) && names.take(i as int).contains(n) {
                without_parent(types0[n])
            } else {
                types0[n]
            },
            errors@ == old(errors)@ + parent_errors(names.take(i as int), types0, bad, kind),
        decreases type_names.len() - i,
    {
        let name = &type_names[i];
        let ghost n = name@;
        proof {
            assert(names[i as int] == n);
            assert(names.take(i as int + 1).drop_last() =~= names.take(i as int));
            let before = names.take(i as int);
            assert(!before.contains(n)) by {
                if before.contains(n) {
                    let j = choose|j: int| 0 <= j < before.len() && before[j] == n;
                    assert(names[j] == names[i as int]);
                }
            }
            assert(types0.contains_key(n)) by {
                assert(names.contains(n));
            }
        }
        let mut undefined: Option<(String, SourceSpan)> = None;
        match registry.types.get(name.as_str()) {
            Some(info) => match &info.parent {
                Some(parent) => {
                    if !registry.types.contains_key(parent.name.as_str()) {
                        undefined = Some((parent.name.clone(), info.span));
                    }
                },
                None => {},
            },
            None => {},
        }
        match undefined {
            Some((parent_name, span)) => {
                errors.push(SemanticError::error(SemanticErrorKind::InheritFromUndefinedType(parent_name), span));
                clear_parent(registry, name.as_str());
            },
            None => {},
        }
        proof {
            assert forall|m: Seq<char>| #[trigger] registry.types@.contains_key(m) implies registry.types@[m] == if bad(m)
                && names.take(i as int + 1).contains(m) {
                without_parent(types0[m])
            } else {
                types0[m]
            } by {
                if m != n {
                    let before = names.take(i as int);
                    let after = names.take(i as int + 1);
                    assert(after.contains(m) == before.contains(m)) by {
                        if after.contains(m) {
                            let j = choose|j: int| 0 <= j < after.len() && after[j] == m;
                            assert(before[j] == m);
                        }
                        if before.contains(m) {
                            let j = choose|j: int| 0 <= j < before.len() && before[j] == m;
                            assert(after[j] == m);
                        }
                    }
                } else {
                    assert(names.take(i as int + 1)[i as int] == n);
                }
            }
        }
        i = i + 1;
    }
    proof {
        assert(names.take(names.len() as int) =~= names);
        assert forall|m: Seq<char>| #[trigger] types0.contains_key(m) implies names.contains(m) by {
            assert(names.to_set().contains(m));
        }
        assert(registry.types@ =~= cleared(types0, bad));
    }
}

/// After the parents that are not registered types have been rejected, every
/// remaining parent link names a registered type.
pub proof fn lemma_resolved_parents_exist(types: Map<Seq<char>, TypeInfo>, n: Seq<char>)
    ensures
        !has_undefined_parent(cleared(types, |m: Seq<char>| has_undefined_parent(types, m)), n),
{
}

/// After inheritance from the builtin value types has been rejected, no type
/// names `Number`, `String` or `Boolean` as its parent.
pub proof fn lemma_no_value_type_parent_left(types: Map<Seq<char>, TypeInfo>, n: Seq<char>)
    ensures
        !has_value_type_parent(cleared(types, |m: Seq<char>| has_value_type_parent(types, m)), n),
{
}

proof fn lemma_parent_errors_report(
    names: Seq<Seq<char>>,
    types: Map<Seq<char>, TypeInfo>,
    bad: spec_fn(Seq<char>) -> bool,
    kind: spec_fn(String) -> SemanticErrorKind,
    n: Seq<char>,
)
    requires
        names.contains(n),
        bad(n),
    ensures
        exists|k: int| 0 <= k < parent_errors(names, types, bad, kind).len() && #[trigger] parent_errors(names, types, bad, kind)[k]
            == (SemanticError { kind: kind(types[n].parent->Some_0.name), span: types[n].span, severity: Severity::Error }),
    decreases names.len(),
{
    let all = parent_errors(names, types, bad, kind);
    let rest = parent_errors(names.drop_last(), types, bad, kind);
    let e = SemanticError { kind: kind(types[n].parent->Some_0.name), span: types[n].span, severity: Severity::Error };
    if names.last() == n {
        assert(all[rest.len() as int] == e);
    } else {
        let i = choose|i: int| 0 <= i < names.len() && names[i] == n;
        assert(names.drop_last()[i] == n);
        lemma_parent_errors_report(names.drop_last(), types, bad, kind, n);
        let k = choose|k: int| 0 <= k < rest.len() && #[trigger] rest[k] == e;
        assert(all[k] == e);
    }
}

/// Inheriting from a builtin value type is rejected, and only that: when the
/// parent of a registered type `n` is `Number`, `String` or `Boolean`, the
/// pass (whose result is `cleared` and `parent_errors` of `has_value_type_parent`)
/// removes the parent link of `n` and reports `InheritFromBuiltinValueType`
/// naming that parent at the span of `n`; any other type keeps its parent.
pub proof fn lemma_value_type_inheritance_rejected(names: Seq<Seq<char>>, types: Map<Seq<char>, TypeInfo>, n: Seq<char>)
    requires
        names.contains(n),
        types.contains_key(n),
        types[n].parent is Some,
    ensures
        ({
            let parent = types[n].parent->Some_0.name;
            let after = cleared(types, |m: Seq<char>| has_value_type_parent(types, m));
            let errs = parent_errors(
                names,
                types,
                |m: Seq<char>| has_value_type_parent(types, m),
                |p: String| SemanticErrorKind::InheritFromBuiltinValueType(p),
            );
            &&& set!["Number"@, "String"@, "Boolean"@].contains(parent@) ==> after[n].parent is None && exists|k: int|
                0 <= k < errs.len() && #[trigger] errs[k] == (SemanticError {
                    kind: SemanticErrorKind::InheritFromBuiltinValueType(parent),
                    span: types[n].span,
                    severity: Severity::Error,
                })
            &&& !set!["Number"@, "String"@, "Boolean"@].contains(parent@) ==> after[n] == types[n]
        }),
{
    let parent = types[n].parent->Some_0.name;
    let bad = |m: Seq<char>| has_value_type_parent(types, m);
    let kind = |p: String| SemanticErrorKind::InheritFromBuiltinValueType(p);
    if set!["Number"@, "String"@, "Boolean"@].contains(parent@) {
        assert(bad(n));
        lemma_parent_errors_report(names, types, bad, kind, n);
    }
}

/// Is `name` one of the builtin value types `Number`, `String`, `Boolean`?
fn is_builtin_value_name(name: &String) -> (r: bool)
    ensures
        r == (name@ == "Number"@ || name@ == "String"@ || name@ == "Boolean"@),
{
    name.eq(&String::from_str("Number")) || name.eq(&String::from_str("String")) || name.eq(&String::from_str("Boolean"))
}

/// Rejects inheritance from `Number`, `String` or `Boolean`: reports each
/// type (in registration order) that names one of them as its parent and
/// removes its parent link.
#[verifier::loop_isolation(false)]
pub fn check_builtin_inheritance(registry: &mut TypeRegistry, errors: &mut Vec<SemanticError>)
    ensures
        final(registry).types@ == cleared(old(registry).types@, |n: Seq<char>| has_value_type_parent(old(registry).types@, n)),
        final(registry).types.names() == old(registry).types.names(),
        final(registry).protocols == old(registry).protocols,
        final(registry).functions == old(registry).functions,
        final(errors)@ == old(errors)@ + parent_errors(
            old(registry).types.names(),
            old(registry).types@,
            |n: Seq<char>| has_value_type_parent(old(registry).types@, n),
            |p: String| SemanticErrorKind::InheritFromBuiltinValueType(p),
        ),
{
    let ghost types0 = registry.types@;
    let ghost bad = |n: Seq<char>| has_value_type_parent(types0, n);
    let ghost kind = |p: String| SemanticErrorKind::InheritFromBuiltinValueType(p);
    let type_names = registry.types.keys();
    let ghost names = registry.types.names();
    let mut i: usize = 0;
    while i < type_names.len()
        invariant
            0 <= i <= type_names@.len(),
            texts(type_names@) == names,
            names.no_duplicates(),
            names.to_set() == types0.dom(),
            registry.types.names() == names,
            registry.protocols == old(registry).protocols,
            registry.functions == old(registry).functions,
            registry.types@.dom() == types0.dom(),
            forall|n: Seq<char>| #[trigger] registry.types@.contains_key(n) ==> registry.types@[n] == if bad(n) && names.take(i as int).contains(n) {
                without_parent(types0[n])
            } else {
                types0[n]
            },
            errors@ == old(errors)@ + parent_errors(names.take(i as int), types0, bad, kind),
        decreases type_names.len() - i,
    {
        let name = &type_names[i];
        let ghost n = name@;
        proof {
            assert(names[i as int] == n);
            assert(names.take(i as int + 1).drop_last() =~= names.take(i as int));
            let before = names.take(i as int);
            assert(!before.contains(n)) by {
                if before.contains(n) {
                    let j = choose|j: int| 0 <= j < before.len() && before[j] == n;
                    assert(names[j] == names[i as int]);
                }
            }
            assert(types0.contains_key(n)) by {
                assert(names.contains(n));
            }
        }
        let mut rejected: Option<(String, SourceSpan)> = None;
        match registry.types.get(name.as_str()) {
            Some(info) => match &info.parent {
                Some(parent) => {
                    if is_builtin_value_name(&parent.name) {
                        rejected = Some((parent.name.clone(), info.span));
                    }
                },
                None => {},
            },
            None => {},
        }
        match rejected {
            Some((parent_name, span)) => {
                errors.push(SemanticError::error(SemanticErrorKind::InheritFromBuiltinValueType(parent_name), span));
                clear_parent(registry, name.as_str());
            },
            None => {},
        }
        proof {
            assert forall|m: Seq<char>| #[trigger] registry.types@.contains_key(m) implies registry.types@[m] == if bad(m)
                && names.take(i as int + 1).contains(m) {
                without_parent(types0[m])
            } else {
                types0[m]
            } by {
                if m != n {
                    let before = names.take(i as int);
                    let after = names.take(i as int + 1);
                    assert(after.contains(m) == before.contains(m)) by {
                        if after.contains(m) {
                            let j = choose|j: int| 0 <= j < after.len() && after[j] == m;
                            assert(before[j] == m);
                        }
                        if before.contains(m) {
                            let j = choose|j: int| 0 <= j < before.len() && before[j] == m;
                            assert(after[j] == m);
                        }
                    }
                } else {
                    assert(names.take(i as int + 1)[i as int] == n);
                }
            }
        }
        i = i + 1;
    }
    proof {
        assert(names.take(names.len() as int) =~= names);
        assert forall|m: Seq<char>| #[trigger] types0.contains_key(m) implies names.contains(m) by {
            assert(names.to_set().contains(m));
        }
        assert(registry.types@ =~= cleared(types0, bad));
    }
}


// ---------------------------------------------------------------------------
// Cycles of parent links
// ---------------------------------------------------------------------------

/// The type that one parent link leads to from the registered type `n`.
pub open spec fn parent_step(types: Map<Seq<char>, TypeInfo>, n: Seq<char>) -> Option<Seq<char>> {
    if types.contains_key(n) {
        parent_name(types[n].parent)
    } else {
        None
    }
}

/// Following parent links from `n` reaches, within `fuel` links, a name
/// without a parent link (a root, or a name that is not a registered type).
pub open spec fn ends_within(types: Map<Seq<char>, TypeInfo>, n: Seq<char>, fuel: nat) -> bool
    decreases fuel,
{
    match parent_step(types, n) {
        None => true,
        Some(p) => fuel > 0 && ends_within(types, p, (fuel - 1) as nat),
    }
}

/// Following parent links from `n` ends.
pub open spec fn chain_ends(types: Map<Seq<char>, TypeInfo>, n: Seq<char>) -> bool {
    exists|fuel: nat| ends_within(types, n, fuel)
}

/// Each type of `c` links to the next one as its parent, and the last one to the first.
pub open spec fn is_cycle(types: Map<Seq<char>, TypeInfo>, c: Seq<Seq<char>>) -> bool {
    &&& c.len() > 0
    &&& forall|k: int| 0 <= k < c.len() - 1 ==> #[trigger] parent_step(types, c[k]) == Some(c[k + 1])
    &&& parent_step(types, c.last()) == Some(c[0])
}

/// Each type of `path` links to the next one as its parent.
pub open spec fn linked(types: Map<Seq<char>, TypeInfo>, path: Seq<Seq<char>>) -> bool {
    forall|k: int| 0 <= k < path.len() - 1 ==> #[trigger] parent_step(types, path[k]) == Some(path[k + 1])
}

/// Following parent links from a type of a cycle goes round the cycle forever.
pub proof fn lemma_cycle_never_ends(types: Map<Seq<char>, TypeInfo>, c: Seq<Seq<char>>, j: int, fuel: nat)
    requires
        is_cycle(types, c),
        0 <= j < c.len(),
    ensures
        !ends_within(types, c[j], fuel),
    decreases fuel,
{
    let next = if j == c.len() - 1 {
        0
    } else {
        j + 1
    };
    if j < c.len() - 1 {
        assert(parent_step(types, c[j]) == Some(c[j + 1]));
    }
    if fuel > 0 {
        lemma_cycle_never_ends(types, c, next, (fuel - 1) as nat);
    }
}

/// When every registered type's chain of parent links ends, there is no cycle.
pub proof fn lemma_no_cycle_when_chains_end(types: Map<Seq<char>, TypeInfo>, c: Seq<Seq<char>>)
    requires
        forall|n: Seq<char>| types.contains_key(n) ==> chain_ends(types, n),
    ensures
        !is_cycle(types, c),
{
    if is_cycle(types, c) {
        assert(parent_step(types, c.last()) is Some);
        assert(types.contains_key(c.last()));
        assert(chain_ends(types, c.last()));
        let fuel = choose|fuel: nat| ends_within(types, c.last(), fuel);
        lemma_cycle_never_ends(types, c, c.len() - 1, fuel);
    }
}

/// When the chain from the last type of a linked path ends, so do the chains
/// from all its types.
proof fn lemma_linked_path_ends(types: Map<Seq<char>, TypeInfo>, path: Seq<Seq<char>>)
    requires
        linked(types, path),
        path.len() > 0,
        chain_ends(types, path.last()),
    ensures
        forall|k: int| 0 <= k < path.len() ==> chain_ends(types, #[trigger] path[k]),
    decreases path.len(),
{
    if path.len() > 1 {
        let front = path.drop_last();
        assert forall|k: int| 0 <= k < front.len() - 1 implies #[trigger] parent_step(types, front[k]) == Some(front[k + 1]) by {
            assert(parent_step(types, path[k]) == Some(path[k + 1]));
        }
        let fuel = choose|fuel: nat| ends_within(types, path.last(), fuel);
        assert(parent_step(types, path[path.len() - 2]) == Some(path.last()));
        assert(ends_within(types, front.last(), fuel + 1));
        lemma_linked_path_ends(types, front);
        assert forall|k: int| 0 <= k < path.len() implies chain_ends(types, #[trigger] path[k]) by {
            if k < path.len() - 1 {
                assert(front[k] == path[k]);
            }
        }
    }
}

/// A path of distinct names all drawn from `names` (without repetitions) is no longer than `names`.
proof fn lemma_distinct_within(path: Seq<Seq<char>>, names: Seq<Seq<char>>)
    requires
        path.no_duplicates(),
        names.no_duplicates(),
        forall|k: int| 0 <= k < path.len() ==> names.contains(#[trigger] path[k]),
    ensures
        path.len() <= names.len(),
{
    path.unique_seq_to_set();
    names.unique_seq_to_set();
    assert(path.to_set().subset_of(names.to_set())) by {
        assert forall|x: Seq<char>| path.to_set().contains(x) implies names.to_set().contains(x) by {
            let k = choose|k: int| 0 <= k < path.len() && path[k] == x;
        }
    }
    vstd::seq_lib::seq_to_set_is_finite(names);
    vstd::set_lib::lemma_len_subset(path.to_set(), names.to_set());
}

/// Index of `s` in `v`, if it occurs.
fn position_of(v: &Vec<String>, s: &String) -> (r: Option<usize>)
    ensures
        match r {
            Some(i) => i < v@.len() && texts(v@)[i as int] == s@,
            None => !texts(v@).contains(s@),
        },
{
    let mut i: usize = 0;
    while i < v.len()
        invariant
            0 <= i <= v@.len(),
            forall|j: int| 0 <= j < i ==> texts(v@)[j] != s@,
        decreases v.len() - i,
    {
        if v[i].eq(s) {
            return Some(i);
        }
        i = i + 1;
    }
    None
}

/// Detects a cycle of parent links. Returns the types of one cycle, each
/// followed by its parent, with the span of the first of them; `None` when
/// the chain of parent links from every registered type ends.
#[verifier::loop_isolation(false)]
#[verifier::rlimit(60)]
pub fn detect_cycles(registry: &TypeRegistry) -> (r: Option<(Vec<String>, SourceSpan)>)
    ensures
        match r {
            Some((c, span)) => is_cycle(registry.types@, texts(c@)) && texts(c@).no_duplicates()
                && span == registry.types@[texts(c@)[0]].span,
            None => forall|n: Seq<char>| registry.types@.contains_key(n) ==> chain_ends(registry.types@, n),
        },
{
    let ghost types = registry.types@;
    let names = registry.types.keys();
    let ghost all = texts(names@);
    let mut visited: Vec<String> = Vec::new();
    let mut i: usize = 0;
    while i < names.len()
        invariant
            0 <= i <= names@.len(),
            all == texts(names@),
            all.no_duplicates(),
            all.to_set() == types.dom(),
            forall|v: Seq<char>| texts(visited@).contains(v) ==> chain_ends(types, v),
            forall|k: int| 0 <= k < i ==> texts(visited@).contains(#[trigger] all[k]),
        decreases names.len() - i,
    {
        let start = &names[i];
        let known = position_of(&visited, start);
        if known.is_none() {
            let mut path: Vec<String> = Vec::new();
            let mut current: String = start.clone();
            loop
                invariant
                    linked(types, texts(path@)),
                    path@.len() > 0 ==> parent_step(types, texts(path@).last()) == Some(current@),
                    path@.len() == 0 ==> current@ == all[i as int],
                    texts(path@).no_duplicates(),
                    forall|k: int| 0 <= k < path@.len() ==> types.contains_key(#[trigger] texts(path@)[k]),
                    forall|v: Seq<char>| texts(visited@).contains(v) ==> chain_ends(types, v) || texts(path@).contains(v),
                    forall|k: int| 0 <= k < i ==> texts(visited@).contains(#[trigger] all[k]),
                    path@.len() > 0 ==> texts(visited@).contains(all[i as int]),
                    path@.len() <= all.len(),
                decreases all.len() - path@.len(),
            {
                match position_of(&path, &current) {
                    Some(index) => {
                        let mut cycle: Vec<String> = Vec::new();
                        let mut k = index;
                        while k < path.len()
                            invariant
                                index <= k <= path@.len(),
                                texts(cycle@) == texts(path@).subrange(index as int, k as int),
                            decreases path.len() - k,
                        {
                            let name = path[k].clone();
                            proof {
                                assert(texts(cycle@.push(name)) =~= texts(cycle@).push(name@));
                                assert(texts(path@).subrange(index as int, k as int + 1) =~= texts(path@).subrange(
                                    index as int,
                                    k as int,
                                ).push(texts(path@)[k as int]));
                            }
                            cycle.push(name);
                            k = k + 1;
                        }
                        let span = match registry.types.get(current.as_str()) {
                            Some(info) => info.span,
                            None => SourceSpan::new(0, 0),
                        };
                        proof {
                            let p = texts(path@);
                            let c = texts(cycle@);
                            assert(c =~= p.subrange(index as int, p.len() as int));
                            assert(c.no_duplicates()) by {
                                assert forall|a: int, b: int| 0 <= a < b < c.len() implies c[a] != c[b] by {
                                    assert(c[a] == p[index + a] && c[b] == p[index + b]);
                                }
                            }
                            assert forall|j: int| 0 <= j < c.len() - 1 implies #[trigger] parent_step(types, c[j]) == Some(c[j + 1]) by {
                                assert(parent_step(types, p[index + j]) == Some(p[index + j + 1]));
                            }
                            assert(c.last() == p.last());
                            assert(types.contains_key(current@)) by {
                                assert(types.contains_key(p[index as int]));
                            }
                        }
                        return Some((cycle, span));
                    },
                    None => {},
                }
                if position_of(&visited, &current).is_some() {
                    proof {
                        assert(texts(visited@).contains(all[i as int]));
                        let p = texts(path@);
                        let v = texts(visited@);
                        let j = choose|j: int| 0 <= j < v.len() && v[j] == current@;
                        assert(v.contains(current@));
                        assert(chain_ends(types, current@));
                        if p.len() > 0 {
                            let fuel = choose|fuel: nat| ends_within(types, current@, fuel);
                            assert(ends_within(types, p.last(), fuel + 1));
                            lemma_linked_path_ends(types, p);
                        }
                    }
                    break;
                }
                let ghost before = texts(path@);
                let ghost seen = texts(visited@);
                visited.push(current.clone());
                path.push(current.clone());
                proof {
                    assert(texts(visited@) =~= seen.push(current@));
                    assert(texts(path@) =~= before.push(current@));
                    assert forall|v: Seq<char>| seen.contains(v) implies texts(visited@).contains(v) by {
                        let j = choose|j: int| 0 <= j < seen.len() && seen[j] == v;
                        assert(texts(visited@)[j] == v);
                    }
                    assert forall|v: Seq<char>| before.contains(v) implies texts(path@).contains(v) by {
                        let j = choose|j: int| 0 <= j < before.len() && before[j] == v;
                        assert(texts(path@)[j] == v);
                    }
                    assert(texts(path@)[before.len() as int] == current@);
                    assert(texts(visited@)[seen.len() as int] == current@);
                    assert(texts(visited@).contains(all[i as int]));
                    assert forall|v: Seq<char>| texts(visited@).contains(v) implies seen.contains(v) || v == current@ by {
                        let j = choose|j: int| 0 <= j < texts(visited@).len() && texts(visited@)[j] == v;
                        if j < seen.len() {
                            assert(seen[j] == v);
                        }
                    }
                }
                match registry.parent_of(current.as_str()) {
                    Some(parent) => {
                        proof {
                            let p = texts(path@);
                            assert(types.contains_key(current@));
                            assert forall|k: int| 0 <= k < p.len() - 1 implies #[trigger] parent_step(types, p[k]) == Some(p[k + 1]) by {
                                if k < before.len() - 1 {
                                    assert(p[k] == before[k] && p[k + 1] == before[k + 1]);
                                } else {
                                    assert(p[k] == before.last());
                                }
                            }
                            assert(p.no_duplicates());
                            assert forall|k: int| 0 <= k < p.len() implies all.contains(#[trigger] p[k]) by {
                                assert(types.contains_key(p[k]));
                                assert(all.to_set().contains(p[k]));
                            }
                            lemma_distinct_within(p, all);
                        }
                        current = parent;
                    },
                    None => {
                        proof {
                            let p = texts(path@);
                            assert forall|k: int| 0 <= k < p.len() - 1 implies #[trigger] parent_step(types, p[k]) == Some(p[k + 1]) by {
                                if k < before.len() - 1 {
                                    assert(p[k] == before[k] && p[k + 1] == before[k + 1]);
                                } else {
                                    assert(p[k] == before.last());
                                }
                            }
                            assert(ends_within(types, p.last(), 0));
                            lemma_linked_path_ends(types, p);
                        }
                        break;
                    },
                }
            }
        }
        proof {
            if let Some(j) = known {
                assert(texts(visited@)[j as int] == all[i as int]);
            }
            assert(texts(visited@).contains(all[i as int]));
        }
        i = i + 1;
    }
    proof {
        assert forall|n: Seq<char>| types.contains_key(n) implies chain_ends(types, n) by {
            assert(all.to_set().contains(n));
            let k = choose|k: int| 0 <= k < all.len() && all[k] == n;
            assert(texts(visited@).contains(all[k]));
        }
    }
    None
}


// ---------------------------------------------------------------------------
// Parents before children
// ---------------------------------------------------------------------------

/// Every type of `order` whose parent is a registered type comes after that parent.
pub open spec fn parents_first(types: Map<Seq<char>, TypeInfo>, order: Seq<Seq<char>>) -> bool {
    forall|k: int|
        0 <= k < order.len() ==> match #[trigger] parent_step(types, order[k]) {
            Some(p) => types.contains_key(p) ==> order.take(k).contains(p),
            None => true,
        }
}

/// What `s` holds after `x` is pushed onto it.
proof fn lemma_push_contains(s: Seq<Seq<char>>, x: Seq<char>)
    ensures
        forall|y: Seq<char>| #[trigger] s.push(x).contains(y) <==> (s.contains(y) || y == x),
{
    assert forall|y: Seq<char>| #[trigger] s.push(x).contains(y) implies (s.contains(y) || y == x) by {
        let j = choose|j: int| 0 <= j < s.push(x).len() && s.push(x)[j] == y;
        if j < s.len() {
            assert(s[j] == y);
        }
    }
    assert forall|y: Seq<char>| s.contains(y) || y == x implies #[trigger] s.push(x).contains(y) by {
        if s.contains(y) {
            let j = choose|j: int| 0 <= j < s.len() && s[j] == y;
            assert(s.push(x)[j] == y);
        } else {
            assert(s.push(x)[s.len() as int] == y);
        }
    }
}

/// Pushing a type whose registered parent is already present keeps parents first.
proof fn lemma_parents_first_push(types: Map<Seq<char>, TypeInfo>, s: Seq<Seq<char>>, x: Seq<char>)
    requires
        parents_first(types, s),
        match parent_step(types, x) {
            Some(p) => types.contains_key(p) ==> s.contains(p),
            None => true,
        },
    ensures
        parents_first(types, s.push(x)),
{
    let t = s.push(x);
    assert forall|k: int| 0 <= k < t.len() implies match #[trigger] parent_step(types, t[k]) {
        Some(p) => types.contains_key(p) ==> t.take(k).contains(p),
        None => true,
    } by {
        if k < s.len() {
            assert(t.take(k) =~= s.take(k));
            assert(t[k] == s[k]);
        } else {
            assert(t.take(k) =~= s);
        }
    }
}

/// Along a linked path, a chain of parent links that ends from the first
/// type also ends from every later one.
proof fn lemma_chain_ends_forward(types: Map<Seq<char>, TypeInfo>, path: Seq<Seq<char>>)
    requires
        linked(types, path),
        path.len() > 0,
        chain_ends(types, path[0]),
    ensures
        forall|k: int| 0 <= k < path.len() ==> chain_ends(types, #[trigger] path[k]),
    decreases path.len(),
{
    if path.len() > 1 {
        let rest = path.drop_first();
        let fuel = choose|fuel: nat| ends_within(types, path[0], fuel);
        assert(parent_step(types, path[0]) == Some(path[1]));
        assert(ends_within(types, rest[0], (fuel - 1) as nat));
        assert forall|k: int| 0 <= k < rest.len() - 1 implies #[trigger] parent_step(types, rest[k]) == Some(rest[k + 1]) by {
            assert(parent_step(types, path[k + 1]) == Some(path[k + 2]));
        }
        lemma_chain_ends_forward(types, rest);
        assert forall|k: int| 0 <= k < path.len() implies chain_ends(types, #[trigger] path[k]) by {
            if k > 0 {
                assert(rest[k - 1] == path[k]);
            }
        }
    }
}

/// A linked path that comes back to one of its own types never ends.
proof fn lemma_path_into_itself(types: Map<Seq<char>, TypeInfo>, path: Seq<Seq<char>>, j: int, next: Seq<char>)
    requires
        linked(types, path),
        path.len() > 0,
        parent_step(types, path.last()) == Some(next),
        0 <= j < path.len(),
        path[j] == next,
    ensures
        !chain_ends(types, path[0]),
{
    let c = path.subrange(j, path.len() as int);
    assert forall|k: int| 0 <= k < c.len() - 1 implies #[trigger] parent_step(types, c[k]) == Some(c[k + 1]) by {
        assert(parent_step(types, path[j + k]) == Some(path[j + k + 1]));
    }
    assert(c.last() == path.last());
    assert(is_cycle(types, c));
    if chain_ends(types, path[0]) {
        lemma_chain_ends_forward(types, path);
        assert(chain_ends(types, c[0]));
        let fuel = choose|fuel: nat| ends_within(types, c[0], fuel);
        lemma_cycle_never_ends(types, c, 0, fuel);
    }
}

/// When no chain of parent links runs into a cycle (as `detect_cycles`
/// reports with `None`), the parents-first order lists every registered type.
pub proof fn lemma_order_complete_without_cycles(types: Map<Seq<char>, TypeInfo>, order: Seq<Seq<char>>)
    requires
        forall|n: Seq<char>| types.contains_key(n) ==> chain_ends(types, n),
        forall|n: Seq<char>| #[trigger] order.contains(n) <==> (types.contains_key(n) && chain_ends(types, n)),
    ensures
        forall|n: Seq<char>| #[trigger] order.contains(n) <==> types.contains_key(n),
{
}

/// The types of a cycle (such as `detect_cycles` reports) are never in the
/// parents-first order.
pub proof fn lemma_cycle_left_out_of_order(types: Map<Seq<char>, TypeInfo>, order: Seq<Seq<char>>, c: Seq<Seq<char>>)
    requires
        is_cycle(types, c),
        forall|n: Seq<char>| #[trigger] order.contains(n) <==> (types.contains_key(n) && chain_ends(types, n)),
    ensures
        forall|k: int| 0 <= k < c.len() ==> !order.contains(#[trigger] c[k]),
{
    assert forall|k: int| 0 <= k < c.len() implies !order.contains(#[trigger] c[k]) by {
        if chain_ends(types, c[k]) {
            let fuel = choose|fuel: nat| ends_within(types, c[k], fuel);
            lemma_cycle_never_ends(types, c, k, fuel);
        }
    }
}

/// The facts that the order built by `topological_order` keeps: no type
/// twice, only registered types whose chain of parent links ends, parents first.
pub open spec fn sound_order(types: Map<Seq<char>, TypeInfo>, order: Seq<Seq<char>>) -> bool {
    &&& order.no_duplicates()
    &&& forall|n: Seq<char>| #[trigger] order.contains(n) ==> types.contains_key(n) && chain_ends(types, n)
    &&& parents_first(types, order)
}

/// Follows parent links from `start` until a type of `order`, a name that is
/// not registered, a root, or a type already walked. Returns the types walked,
/// starting at `start`, and whether the chain ended (it did not when it came
/// back to a type already walked).
#[verifier::loop_isolation(false)]
#[verifier::rlimit(40)]
fn walk_up(registry: &TypeRegistry, order: &Vec<String>, start: &String) -> (r: (Vec<String>, bool))
    requires
        sound_order(registry.types@, texts(order@)),
        registry.types@.contains_key(start@),
        !texts(order@).contains(start@),
    ensures
        ({
            let types = registry.types@;
            let p = texts(r.0@);
            &&& p.len() > 0
            &&& p[0] == start@
            &&& linked(types, p)
            &&& p.no_duplicates()
            &&& forall|k: int| 0 <= k < p.len() ==> types.contains_key(#[trigger] p[k])
            &&& forall|k: int| 0 <= k < p.len() ==> !texts(order@).contains(#[trigger] p[k])
            &&& r.1 ==> forall|k: int| 0 <= k < p.len() ==> chain_ends(types, #[trigger] p[k])
            &&& r.1 ==> match parent_step(types, p.last()) {
                Some(q) => types.contains_key(q) ==> texts(order@).contains(q),
                None => true,
            }
            &&& !r.1 ==> !chain_ends(types, start@)
        }),
{
    let ghost types = registry.types@;
    let names = registry.types.keys();
    let ghost all = texts(names@);
    let mut path: Vec<String> = Vec::new();
    let mut current: String = start.clone();
    let mut ends = false;
    loop
        invariant
            all == texts(names@),
            all.no_duplicates(),
            all.to_set() == types.dom(),
            linked(types, texts(path@)),
            path@.len() > 0 ==> parent_step(types, texts(path@).last()) == Some(current@),
            path@.len() > 0 ==> texts(path@)[0] == start@,
            path@.len() == 0 ==> current@ == start@,
            texts(path@).no_duplicates(),
            forall|k: int| 0 <= k < path@.len() ==> types.contains_key(#[trigger] texts(path@)[k]),
            forall|k: int| 0 <= k < path@.len() ==> !texts(order@).contains(#[trigger] texts(path@)[k]),
            path@.len() <= all.len(),
            !ends,
        decreases all.len() - path@.len(),
    {
        if position_of(order, &current).is_some() {
            ends = true;
            break;
        }
        if !registry.types.contains_key(current.as_str()) {
            ends = true;
            break;
        }
        if position_of(&path, &current).is_some() {
            break;
        }
        let ghost before = texts(path@);
        path.push(current.clone());
        proof {
            let p = texts(path@);
            assert(p =~= before.push(current@));
            assert forall|k: int| 0 <= k < p.len() - 1 implies #[trigger] parent_step(types, p[k]) == Some(p[k + 1]) by {
                if k < before.len() - 1 {
                    assert(p[k] == before[k] && p[k + 1] == before[k + 1]);
                } else {
                    assert(p[k] == before.last());
                }
            }
            assert(p.no_duplicates());
            assert forall|k: int| 0 <= k < p.len() implies all.contains(#[trigger] p[k]) by {
                assert(types.contains_key(p[k]));
                assert(all.to_set().contains(p[k]));
            }
            lemma_distinct_within(p, all);
        }
        match registry.parent_of(current.as_str()) {
            Some(parent) => {
                current = parent;
            },
            None => {
                ends = true;
                break;
            },
        }
    }
    proof {
        let p = texts(path@);
        if ends {
            if texts(order@).contains(current@) {
                let fuel = choose|fuel: nat| ends_within(types, current@, fuel);
                assert(ends_within(types, p.last(), fuel + 1));
            } else if !types.contains_key(current@) {
                assert(ends_within(types, current@, 0));
                assert(ends_within(types, p.last(), 1));
            } else {
                assert(ends_within(types, p.last(), 0));
            }
            lemma_linked_path_ends(types, p);
        } else {
            let j = choose|j: int| 0 <= j < p.len() && p[j] == current@;
            lemma_path_into_itself(types, p, j, current@);
        }
    }
    (path, ends)
}

/// Appends the types of `path` to `order`, last one first.
#[verifier::loop_isolation(false)]
fn append_reversed(types: Ghost<Map<Seq<char>, TypeInfo>>, order: &mut Vec<String>, path: &Vec<String>)
    requires
        sound_order(types@, texts(old(order)@)),
        linked(types@, texts(path@)),
        texts(path@).no_duplicates(),
        forall|k: int| 0 <= k < path@.len() ==> types@.contains_key(#[trigger] texts(path@)[k]),
        forall|k: int| 0 <= k < path@.len() ==> chain_ends(types@, #[trigger] texts(path@)[k]),
        forall|k: int| 0 <= k < path@.len() ==> !texts(old(order)@).contains(#[trigger] texts(path@)[k]),
        path@.len() > 0 ==> match parent_step(types@, texts(path@).last()) {
            Some(q) => types@.contains_key(q) ==> texts(old(order)@).contains(q),
            None => true,
        },
    ensures
        sound_order(types@, texts(final(order)@)),
        forall|n: Seq<char>| #[trigger] texts(final(order)@).contains(n) <==> (texts(old(order)@).contains(n) || texts(path@).contains(n)),
{
    let ghost p = texts(path@);
    let ghost o0 = texts(order@);
    let mut k: usize = path.len();
    while k > 0
        invariant
            0 <= k <= path@.len(),
            p == texts(path@),
            sound_order(types@, texts(order@)),
            forall|j: int| k <= j < p.len() ==> texts(order@).contains(#[trigger] p[j]),
            forall|j: int| 0 <= j < k ==> !texts(order@).contains(#[trigger] p[j]),
            forall|n: Seq<char>| #[trigger] texts(order@).contains(n) ==> (o0.contains(n) || p.contains(n)),
            forall|n: Seq<char>| #[trigger] o0.contains(n) ==> texts(order@).contains(n),
        decreases k,
    {
        k = k - 1;
        let name = path[k].clone();
        proof {
            let o = texts(order@);
            lemma_push_contains(o, name@);
            if (k as int) < p.len() - 1 {
                assert(parent_step(types@, p[k as int]) == Some(p[k as int + 1]));
                assert(o.contains(p[k as int + 1]));
            } else {
                assert forall|q: Seq<char>| #[trigger] o0.contains(q) implies o.contains(q) by {}
            }
            lemma_parents_first_push(types@, o, name@);
            assert(texts(order@.push(name)) =~= o.push(name@));
            assert(o.push(name@).no_duplicates()) by {
                assert forall|a: int, b: int| 0 <= a < b < o.push(name@).len() implies o.push(name@)[a] != o.push(name@)[b] by {
                    if b == o.len() {
                        assert(o.contains(o[a]));
                    }
                }
            }
            assert forall|j: int| 0 <= j < k implies !o.push(name@).contains(#[trigger] p[j]) by {
                assert(p[j] != p[k as int]);
            }
            assert(p.contains(p[k as int]));
        }
        order.push(name);
    }
    proof {
        assert forall|n: Seq<char>| #[trigger] p.contains(n) implies texts(order@).contains(n) by {
            let j = choose|j: int| 0 <= j < p.len() && p[j] == n;
        }
    }
}

/// The registered types ordered so that each type comes after its registered
/// parent. Exactly the types whose chain of parent links ends are listed: a
/// type on a cycle, or below one, is left out.
pub fn topological_order(registry: &TypeRegistry) -> (r: Vec<String>)
    ensures
        texts(r@).no_duplicates(),
        forall|n: Seq<char>| #[trigger] texts(r@).contains(n) <==> (registry.types@.contains_key(n) && chain_ends(registry.types@, n)),
        parents_first(registry.types@, texts(r@)),
{
    let ghost types = registry.types@;
    let names = registry.types.keys();
    let ghost all = texts(names@);
    let mut order: Vec<String> = Vec::new();
    let mut i: usize = 0;
    while i < names.len()
        invariant
            0 <= i <= names@.len(),
            types == registry.types@,
            all == texts(names@),
            all.to_set() == types.dom(),
            sound_order(types, texts(order@)),
            forall|k: int| 0 <= k < i && chain_ends(types, #[trigger] all[k]) ==> texts(order@).contains(all[k]),
        decreases names.len() - i,
    {
        let start = &names[i];
        proof {
            assert(all[i as int] == start@);
            assert(types.contains_key(start@)) by {
                assert(all.contains(start@));
                assert(all.to_set().contains(start@));
            }
        }
        if position_of(&order, start).is_none() {
            let (path, ends) = walk_up(registry, &order, start);
            if ends {
                let ghost o = texts(order@);
                append_reversed(Ghost(types), &mut order, &path);
                proof {
                    assert(texts(path@).contains(texts(path@)[0]));
                    assert forall|k: int| 0 <= k < i && chain_ends(types, #[trigger] all[k]) implies texts(order@).contains(all[k]) by {
                        assert(o.contains(all[k]));
                    }
                }
            }
        }
        i = i + 1;
    }
    proof {
        assert forall|n: Seq<char>| registry.types@.contains_key(n) && chain_ends(registry.types@, n) implies #[trigger] texts(order@).contains(n) by {
            assert(all.to_set().contains(n));
            let k = choose|k: int| 0 <= k < all.len() && all[k] == n;
        }
    }
    order
}


// ---------------------------------------------------------------------------
// Overrides keep the parent's signature
// ---------------------------------------------------------------------------

/// The types of `params`, in order.
pub open spec fn param_types(params: Seq<(String, Type)>) -> Seq<Type> {
    params.map_values(|p: (String, Type)| p.1)
}

/// How a method signature is written in an override diagnostic: `(T1, T2) -> R`.
pub open spec fn signature_text(sig: MethodSignature) -> Seq<char> {
    "("@ + join_text(type_name_texts(param_types(sig.params@)), ", "@) + ") -> "@ + type_name_text(sig.return_type)
}

/// Two signatures have the same parameter types, in order, and the same return type.
pub open spec fn same_signature(a: MethodSignature, b: MethodSignature) -> bool {
    same_types(param_types(a.params@), param_types(b.params@)) && same_type(a.return_type, b.return_type)
}

/// An override diagnostic: the method, the type that overrides it, the
/// parent's signature, the overriding signature, and where the override is.
pub type OverrideReport = (Seq<char>, Seq<char>, Seq<char>, Seq<char>, SourceSpan);

/// `e` is the error that reports `r`.
pub open spec fn reports_override(e: SemanticError, r: OverrideReport) -> bool {
    &&& e.severity == Severity::Error
    &&& e.span == r.4
    &&& e.kind matches SemanticErrorKind::InvalidOverride { method, in_type, expected, found }
    &&& method@ == r.0
    &&& in_type@ == r.1
    &&& expected@ == r.2
    &&& found@ == r.3
}

/// `after` is `before` followed by one error for each report of `reports`, in order.
pub open spec fn reported(before: Seq<SemanticError>, after: Seq<SemanticError>, reports: Seq<OverrideReport>) -> bool {
    &&& after.len() == before.len() + reports.len()
    &&& forall|k: int| 0 <= k < before.len() ==> #[trigger] after[k] == before[k]
    &&& forall|k: int| 0 <= k < reports.len() ==> reports_override(after[before.len() + k], #[trigger] reports[k])
}

/// The reports for the methods `ms` (in order) of type `n`: one for each that
/// the parent's methods also hold with a different signature.
pub open spec fn method_override_reports(
    n: Seq<char>,
    own: Map<Seq<char>, MethodSignature>,
    parent: Map<Seq<char>, MethodSignature>,
    ms: Seq<Seq<char>>,
) -> Seq<OverrideReport>
    decreases ms.len(),
{
    if ms.len() == 0 {
        Seq::empty()
    } else {
        let rest = method_override_reports(n, own, parent, ms.drop_last());
        let m = ms.last();
        if parent.contains_key(m) && !same_signature(parent[m], own[m]) {
            rest.push((m, n, signature_text(parent[m]), signature_text(own[m]), own[m].span))
        } else {
            rest
        }
    }
}

/// The reports for the registered type `n`: none unless its parent is a registered type.
pub open spec fn type_override_reports(types: Map<Seq<char>, TypeInfo>, n: Seq<char>) -> Seq<OverrideReport> {
    match parent_name(types[n].parent) {
        Some(p) => if types.contains_key(p) {
            method_override_reports(n, types[n].methods@, types[p].methods@, types[n].methods.names())
        } else {
            Seq::empty()
        },
        None => Seq::empty(),
    }
}

/// The reports for the types `names`, in order.
pub open spec fn override_reports(types: Map<Seq<char>, TypeInfo>, names: Seq<Seq<char>>) -> Seq<OverrideReport>
    decreases names.len(),
{
    if names.len() == 0 {
        Seq::empty()
    } else {
        override_reports(types, names.drop_last()) + type_override_reports(types, names.last())
    }
}

proof fn lemma_method_report_present(
    n: Seq<char>,
    own: Map<Seq<char>, MethodSignature>,
    parent: Map<Seq<char>, MethodSignature>,
    ms: Seq<Seq<char>>,
    m: Seq<char>,
)
    requires
        ms.contains(m),
        parent.contains_key(m),
        !same_type(parent[m].return_type, own[m].return_type) || !same_types(
            param_types(parent[m].params@),
            param_types(own[m].params@),
        ),
    ensures
        exists|k: int| 0 <= k < method_override_reports(n, own, parent, ms).len() && #[trigger] method_override_reports(n, own, parent, ms)[k]
            == (m, n, signature_text(parent[m]), signature_text(own[m]), own[m].span),
    decreases ms.len(),
{
    let all = method_override_reports(n, own, parent, ms);
    let rest = method_override_reports(n, own, parent, ms.drop_last());
    let x = (m, n, signature_text(parent[m]), signature_text(own[m]), own[m].span);
    if ms.last() == m {
        assert(all[rest.len() as int] == x);
    } else {
        let i = choose|i: int| 0 <= i < ms.len() && ms[i] == m;
        assert(ms.drop_last()[i] == m);
        lemma_method_report_present(n, own, parent, ms.drop_last(), m);
        let k = choose|k: int| 0 <= k < rest.len() && #[trigger] rest[k] == x;
        assert(all[k] == x);
    }
}

/// An override that changes the return type is reported: when a type `n`
/// (listed in `names`) has a registered parent, and a method `m` of its own
/// is also a method of the parent with a return type that is not the same,
/// the override reports (which the pass turns into `InvalidOverride` errors)
/// hold one for `m` in `n`, giving the parent's and the overriding signature.
pub proof fn lemma_return_type_change_reported(types: Map<Seq<char>, TypeInfo>, names: Seq<Seq<char>>, n: Seq<char>, m: Seq<char>)
    requires
        names.contains(n),
        types.contains_key(n),
        types[n].parent is Some,
        types.contains_key(types[n].parent->Some_0.name@),
        types[n].methods@.contains_key(m),
        types[types[n].parent->Some_0.name@].methods@.contains_key(m),
        !same_type(types[types[n].parent->Some_0.name@].methods@[m].return_type, types[n].methods@[m].return_type),
    ensures
        ({
            let p = types[n].parent->Some_0.name@;
            let reports = override_reports(types, names);
            exists|k: int| 0 <= k < reports.len() && #[trigger] reports[k] == (
                m,
                n,
                signature_text(types[p].methods@[m]),
                signature_text(types[n].methods@[m]),
                types[n].methods@[m].span,
            )
        }),
    decreases names.len(),
{
    let p = types[n].parent->Some_0.name@;
    let x = (m, n, signature_text(types[p].methods@[m]), signature_text(types[n].methods@[m]), types[n].methods@[m].span);
    let all = override_reports(types, names);
    let prefix = override_reports(types, names.drop_last());
    if names.last() == n {
        types[n].methods.lemma_names_are_bound();
        lemma_method_report_present(n, types[n].methods@, types[p].methods@, types[n].methods.names(), m);
        let own = type_override_reports(types, n);
        let k = choose|k: int| 0 <= k < own.len() && #[trigger] own[k] == x;
        assert(all[prefix.len() + k] == x);
    } else {
        let i = choose|i: int| 0 <= i < names.len() && names[i] == n;
        assert(names.drop_last()[i] == n);
        lemma_return_type_change_reported(types, names.drop_last(), n, m);
        let k = choose|k: int| 0 <= k < prefix.len() && #[trigger] prefix[k] == x;
        assert(all[k] == x);
    }
}

/// An override whose parameter types differ from the parent's (as a list,
/// in order) is reported, like one whose return type differs.
pub proof fn lemma_parameter_change_reported(types: Map<Seq<char>, TypeInfo>, names: Seq<Seq<char>>, n: Seq<char>, m: Seq<char>)
    requires
        names.contains(n),
        types.contains_key(n),
        types[n].parent is Some,
        types.contains_key(types[n].parent->Some_0.name@),
        types[n].methods@.contains_key(m),
        types[types[n].parent->Some_0.name@].methods@.contains_key(m),
        !same_types(
            param_types(types[types[n].parent->Some_0.name@].methods@[m].params@),
            param_types(types[n].methods@[m].params@),
        ),
    ensures
        ({
            let p = types[n].parent->Some_0.name@;
            let reports = override_reports(types, names);
            exists|k: int| 0 <= k < reports.len() && #[trigger] reports[k] == (
                m,
                n,
                signature_text(types[p].methods@[m]),
                signature_text(types[n].methods@[m]),
                types[n].methods@[m].span,
            )
        }),
    decreases names.len(),
{
    let p = types[n].parent->Some_0.name@;
    let x = (m, n, signature_text(types[p].methods@[m]), signature_text(types[n].methods@[m]), types[n].methods@[m].span);
    let all = override_reports(types, names);
    let prefix = override_reports(types, names.drop_last());
    if names.last() == n {
        types[n].methods.lemma_names_are_bound();
        lemma_method_report_present(n, types[n].methods@, types[p].methods@, types[n].methods.names(), m);
        let own = type_override_reports(types, n);
        let k = choose|k: int| 0 <= k < own.len() && #[trigger] own[k] == x;
        assert(all[prefix.len() + k] == x);
    } else {
        let i = choose|i: int| 0 <= i < names.len() && names[i] == n;
        assert(names.drop_last()[i] == n);
        lemma_parameter_change_reported(types, names.drop_last(), n, m);
        let k = choose|k: int| 0 <= k < prefix.len() && #[trigger] prefix[k] == x;
        assert(all[k] == x);
    }
}

/// A method that keeps the parent's parameter types and return type is never
/// reported: no report of the type's methods names it.
pub proof fn lemma_kept_signature_not_reported(
    n: Seq<char>,
    own: Map<Seq<char>, MethodSignature>,
    parent: Map<Seq<char>, MethodSignature>,
    ms: Seq<Seq<char>>,
    m: Seq<char>,
)
    requires
        parent.contains_key(m) ==> same_type(parent[m].return_type, own[m].return_type) && same_types(
            param_types(parent[m].params@),
            param_types(own[m].params@),
        ),
    ensures
        forall|k: int| 0 <= k < method_override_reports(n, own, parent, ms).len() ==> (#[trigger] method_override_reports(
            n,
            own,
            parent,
            ms,
        )[k]).0 != m,
    decreases ms.len(),
{
    if ms.len() > 0 {
        lemma_kept_signature_not_reported(n, own, parent, ms.drop_last(), m);
        let all = method_override_reports(n, own, parent, ms);
        let rest = method_override_reports(n, own, parent, ms.drop_last());
        if ms.last() == m && parent.contains_key(m) {
            assert(same_signature(parent[m], own[m]));
        }
        assert forall|k: int| 0 <= k < all.len() implies (#[trigger] all[k]).0 != m by {
            if k < rest.len() {
                assert(all[k] == rest[k]);
            }
        }
    }
}

/// A parent that is not a registered type is rejected, and only such a
/// parent: the pass (whose result is `cleared` and `parent_errors` of
/// `has_undefined_parent`) removes the link and reports
/// `InheritFromUndefinedType` naming the parent at the type's span; a type
/// whose parent is registered keeps it.
pub proof fn lemma_undefined_parent_rejected(names: Seq<Seq<char>>, types: Map<Seq<char>, TypeInfo>, n: Seq<char>)
    requires
        names.contains(n),
        types.contains_key(n),
        types[n].parent is Some,
    ensures
        ({
            let parent = types[n].parent->Some_0.name;
            let after = cleared(types, |m: Seq<char>| has_undefined_parent(types, m));
            let errs = parent_errors(
                names,
                types,
                |m: Seq<char>| has_undefined_parent(types, m),
                |p: String| SemanticErrorKind::InheritFromUndefinedType(p),
            );
            &&& !types.contains_key(parent@) ==> after[n].parent is None && exists|k: int| 0 <= k < errs.len()
                && #[trigger] errs[k] == (SemanticError {
                kind: SemanticErrorKind::InheritFromUndefinedType(parent),
                span: types[n].span,
                severity: Severity::Error,
            })
            &&& types.contains_key(parent@) ==> after[n] == types[n]
        }),
{
    let parent = types[n].parent->Some_0.name;
    let bad = |m: Seq<char>| has_undefined_parent(types, m);
    let kind = |p: String| SemanticErrorKind::InheritFromUndefinedType(p);
    if !types.contains_key(parent@) {
        assert(bad(n));
        lemma_parent_errors_report(names, types, bad, kind, n);
    }
}

proof fn lemma_reported_push(before: Seq<SemanticError>, after: Seq<SemanticError>, reports: Seq<OverrideReport>, e: SemanticError, x: OverrideReport)
    requires
        reported(before, after, reports),
        reports_override(e, x),
    ensures
        reported(before, after.push(e), reports.push(x)),
{
    assert forall|k: int| 0 <= k < reports.push(x).len() implies reports_override(after.push(e)[before.len() + k], #[trigger] reports.push(x)[k]) by {
        if k < reports.len() {
            assert(reports.push(x)[k] == reports[k]);
        }
    }
    assert forall|k: int| 0 <= k < before.len() implies #[trigger] after.push(e)[k] == before[k] by {
        assert(after[k] == before[k]);
    }
}

proof fn lemma_reported_chain(a: Seq<SemanticError>, b: Seq<SemanticError>, c: Seq<SemanticError>, r1: Seq<OverrideReport>, r2: Seq<OverrideReport>)
    requires
        reported(a, b, r1),
        reported(b, c, r2),
    ensures
        reported(a, c, r1 + r2),
{
    assert forall|k: int| 0 <= k < a.len() implies #[trigger] c[k] == a[k] by {
        assert(c[k] == b[k]);
        assert(b[k] == a[k]);
    }
    assert forall|k: int| 0 <= k < (r1 + r2).len() implies reports_override(c[a.len() + k], #[trigger] (r1 + r2)[k]) by {
        if k < r1.len() {
            assert(r1[k] == (r1 + r2)[k]);
            assert(c[a.len() + k] == b[a.len() + k]);
        } else {
            assert(r2[k - r1.len()] == (r1 + r2)[k]);
        }
    }
}

/// `sig` written as in an override diagnostic.
fn signature_string(sig: &MethodSignature) -> (r: String)
    ensures
        r@ == signature_text(*sig),
{
    let ghost tys = param_types(sig.params@);
    let mut rendered: Vec<String> = Vec::new();
    let mut i: usize = 0;
    while i < sig.params.len()
        invariant
            0 <= i <= sig.params@.len(),
            tys == param_types(sig.params@),
            texts(rendered@) == type_name_texts(tys.take(i as int)),
        decreases sig.params.len() - i,
    {
        let s = sig.params[i].1.to_string();
        proof {
            assert(tys.take(i as int + 1) =~= tys.take(i as int).push(tys[i as int]));
            lemma_type_name_texts_push(tys.take(i as int), tys[i as int]);
            assert(texts(rendered@.push(s)) =~= texts(rendered@).push(s@));
        }
        rendered.push(s);
        i = i + 1;
    }
    proof {
        assert(tys.take(i as int) =~= tys);
    }
    let mut out = String::from_str("(");
    out.append(join(&rendered, ", ").as_str());
    out.append(") -> ");
    out.append(sig.return_type.to_string().as_str());
    out
}

/// Decides whether two signatures have the same parameter and return types.
fn signatures_match(a: &MethodSignature, b: &MethodSignature) -> (r: bool)
    ensures
        r == same_signature(*a, *b),
{
    let ghost pa = param_types(a.params@);
    let ghost pb = param_types(b.params@);
    proof {
        lemma_same_types_pointwise(pa, pb);
    }
    if a.params.len() != b.params.len() {
        return false;
    }
    let mut i: usize = 0;
    while i < a.params.len()
        invariant
            0 <= i <= a.params@.len(),
            a.params@.len() == b.params@.len(),
            pa == param_types(a.params@),
            pb == param_types(b.params@),
            same_types(pa, pb) <==> (pa.len() == pb.len() && forall|k: int| 0 <= k < pa.len() ==> same_type(#[trigger] pa[k], pb[k])),
            forall|k: int| 0 <= k < i ==> same_type(#[trigger] pa[k], pb[k]),
        decreases a.params.len() - i,
    {
        if !types_equal(&a.params[i].1, &b.params[i].1) {
            proof {
                assert(pa[i as int] == a.params@[i as int].1);
            }
            return false;
        }
        i = i + 1;
    }
    types_equal(&a.return_type, &b.return_type)
}

/// Reports each method of `own` (in order) that overrides a method of
/// `parent` with a different signature.
#[verifier::loop_isolation(false)]
fn check_type_overrides(name: &String, own: &TypeInfo, parent: &TypeInfo, errors: &mut Vec<SemanticError>)
    ensures
        reported(
            old(errors)@,
            final(errors)@,
            method_override_reports(name@, own.methods@, parent.methods@, own.methods.names()),
        ),
{
    let ghost e0 = errors@;
    let methods = own.methods.keys();
    let ghost ms = own.methods.names();
    let mut i: usize = 0;
    proof {
        assert(ms.take(0) =~= Seq::<Seq<char>>::empty());
    }
    while i < methods.len()
        invariant
            0 <= i <= methods@.len(),
            texts(methods@) == ms,
            ms.to_set() == own.methods@.dom(),
            reported(e0, errors@, method_override_reports(name@, own.methods@, parent.methods@, ms.take(i as int))),
        decreases methods.len() - i,
    {
        let m = &methods[i];
        proof {
            assert(ms[i as int] == m@);
            assert(ms.take(i as int + 1).drop_last() =~= ms.take(i as int));
            assert(own.methods@.contains_key(m@)) by {
                assert(ms.contains(m@));
                assert(ms.to_set().contains(m@));
            }
        }
        match own.methods.get(m.as_str()) {
            Some(own_sig) => match parent.methods.get(m.as_str()) {
                Some(parent_sig) => {
                    if !signatures_match(parent_sig, own_sig) {
                        let expected = signature_string(parent_sig);
                        let found = signature_string(own_sig);
                        let e = SemanticError::error(
                            SemanticErrorKind::InvalidOverride {
                                method: m.clone(),
                                in_type: name.clone(),
                                expected,
                                found,
                            },
                            own_sig.span,
                        );
                        proof {
                            lemma_reported_push(
                                e0,
                                errors@,
                                method_override_reports(name@, own.methods@, parent.methods@, ms.take(i as int)),
                                e,
                                (m@, name@, signature_text(*parent_sig), signature_text(*own_sig), own_sig.span),
                            );
                        }
                        errors.push(e);
                    }
                },
                None => {},
            },
            None => {},
        }
        i = i + 1;
    }
    proof {
        assert(ms.take(i as int) =~= ms);
    }
}

/// Checks that every method a type overrides keeps exactly the parameter and
/// return types of its parent's method, reporting each that does not (types
/// in registration order, then their methods in declaration order). Types
/// whose parent is not a registered type are skipped.
#[verifier::loop_isolation(false)]
pub fn check_overrides(registry: &TypeRegistry, errors: &mut Vec<SemanticError>)
    ensures
        reported(old(errors)@, final(errors)@, override_reports(registry.types@, registry.types.names())),
{
    let ghost types = registry.types@;
    let names = registry.types.keys();
    let ghost all = registry.types.names();
    let ghost e0 = errors@;
    let mut i: usize = 0;
    proof {
        assert(all.take(0) =~= Seq::<Seq<char>>::empty());
    }
    while i < names.len()
        invariant
            0 <= i <= names@.len(),
            types == registry.types@,
            texts(names@) == all,
            all.to_set() == types.dom(),
            reported(e0, errors@, override_reports(types, all.take(i as int))),
        decreases names.len() - i,
    {
        let name = &names[i];
        let ghost before = errors@;
        proof {
            assert(all[i as int] == name@);
            assert(all.take(i as int + 1).drop_last() =~= all.take(i as int));
            assert(types.contains_key(name@)) by {
                assert(all.contains(name@));
                assert(all.to_set().contains(name@));
            }
        }
        match registry.types.get(name.as_str()) {
            Some(info) => match &info.parent {
                Some(link) => match registry.types.get(link.name.as_str()) {
                    Some(parent_info) => {
                        check_type_overrides(name, info, parent_info, errors);
                    },
                    None => {
                        proof {
                            assert(reported(before, errors@, Seq::empty()));
                        }
                    },
                },
                None => {
                    proof {
                        assert(reported(before, errors@, Seq::empty()));
                    }
                },
            },
            None => {},
        }
        proof {
            lemma_reported_chain(e0, before, errors@, override_reports(types, all.take(i as int)), type_override_reports(types, name@));
        }
        i = i + 1;
    }
    proof {
        assert(all.take(i as int) =~= all);
    }
}


// ---------------------------------------------------------------------------
// Flattened member tables
// ---------------------------------------------------------------------------

/// `result` holds the names of `base` and `own`; under a name of `own` a copy
/// of its value there, under the other names a copy of the value in `base`.
pub open spec fn overlaid<V>(
    result: Map<Seq<char>, V>,
    base: Map<Seq<char>, V>,
    own: Map<Seq<char>, V>,
    copy: spec_fn(V, V) -> bool,
) -> bool {
    &&& result.dom() == base.dom().union(own.dom())
    &&& forall|k: Seq<char>| #[trigger] result.contains_key(k) ==> if own.contains_key(k) {
        copy(result[k], own[k])
    } else {
        copy(result[k], base[k])
    }
}

/// Copies of the attributes of `base`, overridden by copies of those of `own`.
fn overlay_attributes(base: &NameMap<AttributeInfo>, own: &NameMap<AttributeInfo>) -> (r: NameMap<AttributeInfo>)
    ensures
        overlaid(r@, base@, own@, |a: AttributeInfo, b: AttributeInfo| attribute_copy(a, b)),
{
    let mut out: NameMap<AttributeInfo> = NameMap::new();
    let keys = base.keys();
    let mut i: usize = 0;
    while i < keys.len()
        invariant
            0 <= i <= keys@.len(),
            texts(keys@) == base.names(),
            base.names().to_set() == base@.dom(),
            out@.dom() == texts(keys@).take(i as int).to_set(),
            forall|k: Seq<char>| #[trigger] out@.contains_key(k) ==> attribute_copy(out@[k], base@[k]),
        decreases keys.len() - i,
    {
        let k = &keys[i];
        proof {
            assert(texts(keys@)[i as int] == k@);
            assert(base@.contains_key(k@)) by {
                assert(base.names().contains(k@));
                assert(base.names().to_set().contains(k@));
            }
            assert(texts(keys@).take(i as int + 1) =~= texts(keys@).take(i as int).push(k@));
            lemma_push_contains(texts(keys@).take(i as int), k@);
        }
        match base.get(k.as_str()) {
            Some(v) => {
                out.insert(k.clone(), v.duplicate());
            },
            None => {},
        }
        proof {
            assert(out@.dom() =~= texts(keys@).take(i as int + 1).to_set());
        }
        i = i + 1;
    }
    proof {
        assert(texts(keys@).take(i as int) =~= texts(keys@));
        assert(out@.dom() =~= base@.dom());
    }
    let keys = own.keys();
    let ghost base_dom = out@.dom();
    let mut i: usize = 0;
    while i < keys.len()
        invariant
            0 <= i <= keys@.len(),
            texts(keys@) == own.names(),
            own.names().to_set() == own@.dom(),
            base_dom == base@.dom(),
            out@.dom() == base_dom.union(texts(keys@).take(i as int).to_set()),
            forall|k: Seq<char>| #[trigger] out@.contains_key(k) ==> if texts(keys@).take(i as int).contains(k) {
                attribute_copy(out@[k], own@[k])
            } else {
                attribute_copy(out@[k], base@[k])
            },
        decreases keys.len() - i,
    {
        let k = &keys[i];
        let ghost before = texts(keys@).take(i as int);
        proof {
            assert(texts(keys@)[i as int] == k@);
            assert(own@.contains_key(k@)) by {
                assert(own.names().contains(k@));
                assert(own.names().to_set().contains(k@));
            }
            assert(texts(keys@).take(i as int + 1) =~= before.push(k@));
            lemma_push_contains(before, k@);
        }
        match own.get(k.as_str()) {
            Some(v) => {
                out.insert(k.clone(), v.duplicate());
            },
            None => {},
        }
        proof {
            assert(out@.dom() =~= base_dom.union(texts(keys@).take(i as int + 1).to_set()));
        }
        i = i + 1;
    }
    proof {
        assert(texts(keys@).take(i as int) =~= texts(keys@));
        assert forall|k: Seq<char>| own@.contains_key(k) <==> texts(keys@).contains(k) by {
            assert(own.names().to_set().contains(k) <==> own.names().contains(k));
        }
        assert(out@.dom() =~= base@.dom().union(own@.dom()));
    }
    out
}

/// Copies of the signatures of `base`, overridden by copies of those of `own`.
fn overlay_methods(base: &NameMap<MethodSignature>, own: &NameMap<MethodSignature>) -> (r: NameMap<MethodSignature>)
    ensures
        overlaid(r@, base@, own@, |a: MethodSignature, b: MethodSignature| signature_copy(a, b)),
{
    let mut out: NameMap<MethodSignature> = NameMap::new();
    let keys = base.keys();
    let mut i: usize = 0;
    while i < keys.len()
        invariant
            0 <= i <= keys@.len(),
            texts(keys@) == base.names(),
            base.names().to_set() == base@.dom(),
            out@.dom() == texts(keys@).take(i as int).to_set(),
            forall|k: Seq<char>| #[trigger] out@.contains_key(k) ==> signature_copy(out@[k], base@[k]),
        decreases keys.len() - i,
    {
        let k = &keys[i];
        proof {
            assert(texts(keys@)[i as int] == k@);
            assert(base@.contains_key(k@)) by {
                assert(base.names().contains(k@));
                assert(base.names().to_set().contains(k@));
            }
            assert(texts(keys@).take(i as int + 1) =~= texts(keys@).take(i as int).push(k@));
            lemma_push_contains(texts(keys@).take(i as int), k@);
        }
        match base.get(k.as_str()) {
            Some(v) => {
                out.insert(k.clone(), v.duplicate());
            },
            None => {},
        }
        proof {
            assert(out@.dom() =~= texts(keys@).take(i as int + 1).to_set());
        }
        i = i + 1;
    }
    proof {
        assert(texts(keys@).take(i as int) =~= texts(keys@));
        assert(out@.dom() =~= base@.dom());
    }
    let keys = own.keys();
    let ghost base_dom = out@.dom();
    let mut i: usize = 0;
    while i < keys.len()
        invariant
            0 <= i <= keys@.len(),
            texts(keys@) == own.names(),
            own.names().to_set() == own@.dom(),
            base_dom == base@.dom(),
            out@.dom() == base_dom.union(texts(keys@).take(i as int).to_set()),
            forall|k: Seq<char>| #[trigger] out@.contains_key(k) ==> if texts(keys@).take(i as int).contains(k) {
                signature_copy(out@[k], own@[k])
            } else {
                signature_copy(out@[k], base@[k])
            },
        decreases keys.len() - i,
    {
        let k = &keys[i];
        let ghost before = texts(keys@).take(i as int);
        proof {
            assert(texts(keys@)[i as int] == k@);
            assert(own@.contains_key(k@)) by {
                assert(own.names().contains(k@));
                assert(own.names().to_set().contains(k@));
            }
            assert(texts(keys@).take(i as int + 1) =~= before.push(k@));
            lemma_push_contains(before, k@);
        }
        match own.get(k.as_str()) {
            Some(v) => {
                out.insert(k.clone(), v.duplicate());
            },
            None => {},
        }
        proof {
            assert(out@.dom() =~= base_dom.union(texts(keys@).take(i as int + 1).to_set()));
        }
        i = i + 1;
    }
    proof {
        assert(texts(keys@).take(i as int) =~= texts(keys@));
        assert forall|k: Seq<char>| own@.contains_key(k) <==> texts(keys@).contains(k) by {
            assert(own.names().to_set().contains(k) <==> own.names().contains(k));
        }
        assert(out@.dom() =~= base@.dom().union(own@.dom()));
    }
    out
}

/// `a` and `b` agree on everything but the member tables.
pub open spec fn same_but_tables(a: TypeInfo, b: TypeInfo) -> bool {
    &&& a.name == b.name
    &&& a.params == b.params
    &&& a.parent == b.parent
    &&& a.is_builtin_value == b.is_builtin_value
    &&& a.span == b.span
}

/// The registered type `n`, `was` before flattening and `now` after: when its
/// parent is a registered type, its attributes and methods are copies of the
/// parent's (as they are now) overridden by copies of its own, and its
/// flattened methods a copy of its methods; otherwise it is unchanged.
pub open spec fn flattened_at(now: Map<Seq<char>, TypeInfo>, was: Map<Seq<char>, TypeInfo>, n: Seq<char>) -> bool {
    match parent_name(was[n].parent) {
        Some(p) => if was.contains_key(p) {
            &&& same_but_tables(now[n], was[n])
            &&& overlaid(now[n].attributes@, now[p].attributes@, was[n].attributes@, |a: AttributeInfo, b: AttributeInfo| attribute_copy(a, b))
            &&& overlaid(now[n].methods@, now[p].methods@, was[n].methods@, |a: MethodSignature, b: MethodSignature| signature_copy(a, b))
            &&& overlaid(now[n].flattened_methods@, Map::empty(), now[n].methods@, |a: MethodSignature, b: MethodSignature| signature_copy(a, b))
        } else {
            now[n] == was[n]
        },
        None => now[n] == was[n],
    }
}

/// Replaces the member tables of the registered type `name`.
fn set_tables(
    registry: &mut TypeRegistry,
    name: &str,
    attributes: NameMap<AttributeInfo>,
    methods: NameMap<MethodSignature>,
    flattened_methods: NameMap<MethodSignature>,
)
    requires
        old(registry).types@.contains_key(name@),
    ensures
        final(registry).types@ == old(registry).types@.insert(
            name@,
            TypeInfo { attributes, methods, flattened_methods, ..old(registry).types@[name@] },
        ),
        final(registry).types.names() == old(registry).types.names(),
        final(registry).protocols == old(registry).protocols,
        final(registry).functions == old(registry).functions,
{
    let placeholder = TypeInfo {
        name: String::new(),
        params: Vec::new(),
        parent: None,
        attributes: NameMap::new(),
        methods: NameMap::new(),
        flattened_methods: NameMap::new(),
        is_builtin_value: false,
        span: SourceSpan::new(0, 0),
    };
    let taken = registry.types.swap_value(name, placeholder);
    match taken {
        Some(info) => {
            let mut info = info;
            info.attributes = attributes;
            info.methods = methods;
            info.flattened_methods = flattened_methods;
            registry.types.swap_value(name, info);
            proof {
                assert(registry.types@ =~= old(registry).types@.insert(
                    name@,
                    TypeInfo { attributes, methods, flattened_methods, ..old(registry).types@[name@] },
                ));
            }
        },
        None => {},
    }
}

/// Flattens the attribute and method tables of every type whose chain of
/// parent links ends, parents before children: a type with a registered
/// parent gets copies of the parent's (already flattened) tables overridden
/// by copies of its own, and its flattened methods become a copy of the
/// result. No diagnostic is added.
#[verifier::loop_isolation(false)]
#[verifier::rlimit(40)]
pub fn flatten_tables(registry: &mut TypeRegistry, errors: &mut Vec<SemanticError>)
    ensures
        final(registry).types@.dom() == old(registry).types@.dom(),
        final(registry).types.names() == old(registry).types.names(),
        final(registry).protocols == old(registry).protocols,
        final(registry).functions == old(registry).functions,
        final(errors)@ == old(errors)@,
        forall|n: Seq<char>| #[trigger] old(registry).types@.contains_key(n) ==> if chain_ends(old(registry).types@, n) {
            flattened_at(final(registry).types@, old(registry).types@, n)
        } else {
            final(registry).types@[n] == old(registry).types@[n]
        },
{
    let ghost types0 = registry.types@;
    let order = topological_order(registry);
    let ghost o = texts(order@);
    let mut i: usize = 0;
    while i < order.len()
        invariant
            0 <= i <= order@.len(),
            o == texts(order@),
            o.no_duplicates(),
            forall|n: Seq<char>| #[trigger] o.contains(n) <==> (types0.contains_key(n) && chain_ends(types0, n)),
            parents_first(types0, o),
            registry.types@.dom() == types0.dom(),
            registry.types.names() == old(registry).types.names(),
            registry.protocols == old(registry).protocols,
            registry.functions == old(registry).functions,
            errors@ == old(errors)@,
            forall|n: Seq<char>| #[trigger] types0.contains_key(n) ==> if o.take(i as int).contains(n) {
                flattened_at(registry.types@, types0, n)
            } else {
                registry.types@[n] == types0[n]
            },
        decreases order.len() - i,
    {
        let name = &order[i];
        let ghost cur = registry.types@;
        let ghost done = o.take(i as int);
        proof {
            assert(o[i as int] == name@);
            assert(o.contains(name@));
            assert(!done.contains(name@)) by {
                if done.contains(name@) {
                    let j = choose|j: int| 0 <= j < done.len() && done[j] == name@;
                    assert(o[j] == o[i as int]);
                }
            }
            assert(o.take(i as int + 1) =~= done.push(name@));
            lemma_push_contains(done, name@);
        }
        let mut tables: Option<(NameMap<AttributeInfo>, NameMap<MethodSignature>, NameMap<MethodSignature>)> = None;
        match registry.types.get(name.as_str()) {
            Some(info) => match &info.parent {
                Some(link) => match registry.types.get(link.name.as_str()) {
                    Some(parent_info) => {
                        let attributes = overlay_attributes(&parent_info.attributes, &info.attributes);
                        let methods = overlay_methods(&parent_info.methods, &info.methods);
                        let flattened = overlay_methods(&NameMap::new(), &methods);
                        tables = Some((attributes, methods, flattened));
                    },
                    None => {},
                },
                None => {},
            },
            None => {},
        }
        match tables {
            Some((attributes, methods, flattened)) => {
                set_tables(registry, name.as_str(), attributes, methods, flattened);
                proof {
                    let p = parent_name(types0[name@].parent)->Some_0;
                    assert(parent_step(types0, name@) == Some(p));
                    assert(done.contains(p)) by {
                        assert(o.take(i as int).contains(p));
                    }
                    assert(p != name@);
                    assert forall|m: Seq<char>| #[trigger] types0.contains_key(m) implies if o.take(i as int + 1).contains(m) {
                        flattened_at(registry.types@, types0, m)
                    } else {
                        registry.types@[m] == types0[m]
                    } by {
                        if m != name@ && done.contains(m) {
                            let k = choose|k: int| 0 <= k < done.len() && done[k] == m;
                            assert(o[k] == m);
                            match parent_step(types0, m) {
                                Some(q) => {
                                    if types0.contains_key(q) {
                                        assert(o.take(k).contains(q));
                                        let j = choose|j: int| 0 <= j < o.take(k).len() && o.take(k)[j] == q;
                                        assert(done[j] == q);
                                        assert(q != name@);
                                    }
                                },
                                None => {},
                            }
                        }
                    }
                }
            },
            None => {
                proof {
                    assert(cur[name@] == types0[name@]);
                }
            },
        }
        i = i + 1;
    }
    proof {
        assert(o.take(i as int) =~= o);
    }
}


// ---------------------------------------------------------------------------
// The whole pass
// ---------------------------------------------------------------------------

/// Every chain of parent links of `types` ends.
pub open spec fn acyclic(types: Map<Seq<char>, TypeInfo>) -> bool {
    forall|n: Seq<char>| types.contains_key(n) ==> chain_ends(types, n)
}

/// What `resolve_parent_links` does, from `a`/`ea` to `b`/`eb`.
pub open spec fn parents_resolved(a: TypeRegistry, b: TypeRegistry, ea: Seq<SemanticError>, eb: Seq<SemanticError>) -> bool {
    &&& b.types@ == cleared(a.types@, |n: Seq<char>| has_undefined_parent(a.types@, n))
    &&& b.types.names() == a.types.names()
    &&& b.protocols == a.protocols
    &&& b.functions == a.functions
    &&& eb == ea + parent_errors(
        a.types.names(),
        a.types@,
        |n: Seq<char>| has_undefined_parent(a.types@, n),
        |p: String| SemanticErrorKind::InheritFromUndefinedType(p),
    )
}

/// What `check_builtin_inheritance` does, from `a`/`ea` to `b`/`eb`.
pub open spec fn value_parents_rejected(a: TypeRegistry, b: TypeRegistry, ea: Seq<SemanticError>, eb: Seq<SemanticError>) -> bool {
    &&& b.types@ == cleared(a.types@, |n: Seq<char>| has_value_type_parent(a.types@, n))
    &&& b.types.names() == a.types.names()
    &&& b.protocols == a.protocols
    &&& b.functions == a.functions
    &&& eb == ea + parent_errors(
        a.types.names(),
        a.types@,
        |n: Seq<char>| has_value_type_parent(a.types@, n),
        |p: String| SemanticErrorKind::InheritFromBuiltinValueType(p),
    )
}

/// `e` reports a cycle of parent links of `types`, at the span of its first type.
pub open spec fn reports_cycle(types: Map<Seq<char>, TypeInfo>, e: SemanticError) -> bool {
    &&& e.severity == Severity::Error
    &&& e.kind matches SemanticErrorKind::InheritanceCycle(c)
    &&& is_cycle(types, texts(c@))
    &&& texts(c@).no_duplicates()
    &&& e.span == types[texts(c@)[0]].span
}

/// What the flattening does, from `a` to `b`.
pub open spec fn tables_flattened(a: TypeRegistry, b: TypeRegistry) -> bool {
    &&& b.types@.dom() == a.types@.dom()
    &&& b.types.names() == a.types.names()
    &&& b.protocols == a.protocols
    &&& b.functions == a.functions
    &&& forall|n: Seq<char>| #[trigger] a.types@.contains_key(n) ==> if chain_ends(a.types@, n) {
        flattened_at(b.types@, a.types@, n)
    } else {
        b.types@[n] == a.types@[n]
    }
}

/// The hierarchy pass took the registry from `r0` to `rf` and the errors from
/// `e0` to `ef`, through the registries `r1`, `r2` and the errors `e1` to
/// `e4` after each step.
pub open spec fn hierarchy_steps(
    r0: TypeRegistry,
    e0: Seq<SemanticError>,
    rf: TypeRegistry,
    ef: Seq<SemanticError>,
    r1: TypeRegistry,
    r2: TypeRegistry,
    e1: Seq<SemanticError>,
    e2: Seq<SemanticError>,
    e3: Seq<SemanticError>,
    e4: Seq<SemanticError>,
) -> bool {
    &&& parents_resolved(r0, r1, e0, e1)
    &&& value_parents_rejected(r1, r2, e1, e2)
    &&& (acyclic(r2.types@) ==> e3 == e2)
    &&& (!acyclic(r2.types@) ==> e3.len() == e2.len() + 1 && e3.drop_last() == e2 && reports_cycle(r2.types@, e3.last()))
    &&& (acyclic(r2.types@) ==> reported(e3, e4, override_reports(r2.types@, r2.types.names())))
    &&& (!acyclic(r2.types@) ==> e4 == e3)
    &&& variance_reported(e4, ef, variance_reports(r2, r2.protocols.names()))
    &&& (acyclic(r2.types@) ==> tables_flattened(r2, rf))
    &&& (!acyclic(r2.types@) ==> rf == r2)
}

/// Runs the hierarchy pass: rejects undefined parents, then value-type
/// parents; reports a cycle of parent links if there is one; when there is
/// none, checks overrides; always checks protocol extension; and when there
/// is no cycle, flattens the member tables. The registry after the first two
/// steps is the one every later step works on.
#[verifier::loop_isolation(false)]
pub fn run_hierarchy(registry: &mut TypeRegistry, errors: &mut Vec<SemanticError>)
    ensures
        exists|r1: TypeRegistry, r2: TypeRegistry, e1: Seq<SemanticError>, e2: Seq<SemanticError>, e3: Seq<SemanticError>, e4: Seq<SemanticError>|
            #[trigger] hierarchy_steps(*old(registry), old(errors)@, *final(registry), final(errors)@, r1, r2, e1, e2, e3, e4),
{
    resolve_parent_links(registry, errors);
    let ghost r1 = *registry;
    let ghost e1 = errors@;
    check_builtin_inheritance(registry, errors);
    let ghost r2 = *registry;
    let ghost e2 = errors@;
    let cycle = detect_cycles(registry);
    let has_cycle = cycle.is_some();
    match cycle {
        Some((path, span)) => {
            errors.push(SemanticError::error(SemanticErrorKind::InheritanceCycle(path), span));
            proof {
                assert(errors@.drop_last() =~= e2);
                let n = texts(path@)[0];
                assert(r2.types@.contains_key(texts(path@).last()));
                assert(!chain_ends(r2.types@, texts(path@).last())) by {
                    if chain_ends(r2.types@, texts(path@).last()) {
                        let fuel = choose|fuel: nat| ends_within(r2.types@, texts(path@).last(), fuel);
                        lemma_cycle_never_ends(r2.types@, texts(path@), texts(path@).len() - 1, fuel);
                    }
                }
            }
        },
        None => {},
    }
    let ghost e3 = errors@;
    if !has_cycle {
        check_overrides(registry, errors);
    }
    let ghost e4 = errors@;
    check_protocol_variance(registry, errors);
    if !has_cycle {
        flatten_tables(registry, errors);
    }
    proof {
        assert(parents_resolved(*old(registry), r1, old(errors)@, e1));
        assert(value_parents_rejected(r1, r2, e1, e2));
        assert(hierarchy_steps(*old(registry), old(errors)@, *registry, errors@, r1, r2, e1, e2, e3, e4));
    }
}

} // verus!
