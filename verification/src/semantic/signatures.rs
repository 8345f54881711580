//! Completing a function's signature once its body is typed: each
//! unannotated parameter is resolved from the types its uses asked of it,
//! the return type from the body, and the result is written back into the
//! registry.
use vstd::prelude::*;

use crate::ast::{BinaryOp, FunctionDecl, Param, SourceSpan, TypeRef, UnaryOp};
use crate::semantic::operators::{binary_accepts, boolean_or_unknown, is_arithmetic, is_comparison, numeric_or_unknown};
use crate::name_map::{map_get, NameMap};
use crate::semantic::conformance::{conformance_depth, conforms};
use crate::semantic::error::{SemanticError, SemanticErrorKind, Severity};
use crate::semantic::inference::{diagnosed, distinct_candidates, resolve_parameter_type, resolve_return_type, Diagnosis};
use crate::semantic::members::{resolve_type_ref, resolved_type};
use crate::semantic::registry::{FunctionSignature, TypeRegistry};
use crate::semantic::environment::{declared, Binding, Environment};
use crate::semantic::typed::{TypedExpr, TypedFunction, TypedKind};
use crate::semantic::types::{same_type, Type};

verus! {

/// The type of parameter `p`: its annotation when it has one; else the one
/// distinct type its uses asked of it (`Error` when none or several); else,
/// when nothing was recorded for it, still unknown.
pub open spec fn resolved_param(p: Param, constraints: Map<Seq<char>, Vec<Type>>) -> Type {
    match p.type_annotation {
        Some(a) => resolved_type(a),
        None => match map_get(constraints, p.name@) {
            Some(cs) => if distinct_candidates(cs@).len() == 1 {
                distinct_candidates(cs@)[0]
            } else {
                Type::Error
            },
            None => Type::Unknown,
        },
    }
}

/// The parameters that could not be resolved, in order: each with its name
/// and the distinct types asked of it (none, or several).
pub open spec fn param_faults(params: Seq<Param>, constraints: Map<Seq<char>, Vec<Type>>) -> Seq<(Seq<char>, Seq<Type>)>
    decreases params.len(),
{
    if params.len() == 0 {
        Seq::empty()
    } else {
        let rest = param_faults(params.drop_last(), constraints);
        let p = params.last();
        match p.type_annotation {
            Some(_) => rest,
            None => match map_get(constraints, p.name@) {
                Some(cs) => if distinct_candidates(cs@).len() != 1 {
                    rest.push((p.name@, distinct_candidates(cs@)))
                } else {
                    rest
                },
                None => rest,
            },
        }
    }
}

/// `e` reports the unresolved parameter `f` at `span`: `CannotInferType`
/// when nothing was asked of it, else `AmbiguousInference` with the types.
pub open spec fn reports_param_fault(e: SemanticError, f: (Seq<char>, Seq<Type>), span: SourceSpan) -> bool {
    &&& e.severity == Severity::Error
    &&& e.span == span
    &&& if f.1.len() == 0 {
        e.kind matches SemanticErrorKind::CannotInferType { symbol } && symbol@ == f.0
    } else {
        e.kind matches SemanticErrorKind::AmbiguousInference { symbol, candidates } && symbol@ == f.0
            && candidates@.len() == f.1.len() && forall|k: int| 0 <= k < f.1.len() ==> same_type(#[trigger] candidates@[k], f.1[k])
    }
}

/// `after` is `before` followed by one report for each of `fs`, at `span`.
pub open spec fn params_reported(before: Seq<SemanticError>, after: Seq<SemanticError>, fs: Seq<(Seq<char>, Seq<Type>)>, span: SourceSpan) -> bool {
    &&& after.len() == before.len() + fs.len()
    &&& after.take(before.len() as int) == before
    &&& forall|k: int| 0 <= k < fs.len() ==> reports_param_fault(after[before.len() + k], #[trigger] fs[k], span)
}

/// The return type that inference writes: the body's type when there is no
/// annotation and the body's type is known.
pub open spec fn inferred_return(ann: Option<TypeRef>, body: Type) -> Option<Type> {
    match ann {
        None => if body is Unknown || body is Error {
            None
        } else {
            Some(body)
        },
        Some(_) => None,
    }
}

/// `after` is `before` with the diagnostics of the return type of `name`:
/// `CannotInferType` when unannotated and the body's type is unknown or an
/// error; `TypeMismatch` when annotated and the body does not conform.
pub open spec fn return_checked(
    reg: TypeRegistry,
    name: Seq<char>,
    ann: Option<TypeRef>,
    body: Type,
    span: SourceSpan,
    before: Seq<SemanticError>,
    after: Seq<SemanticError>,
) -> bool {
    match ann {
        None => if body is Unknown || body is Error {
            after.len() == before.len() + 1 && after.drop_last() == before && after.last().span == span
                && after.last().severity == Severity::Error
                && (after.last().kind matches SemanticErrorKind::CannotInferType { symbol } && symbol@ == name)
        } else {
            after == before
        },
        Some(tr) => if conforms(reg, body, resolved_type(tr), conformance_depth(reg)) {
            after == before
        } else {
            diagnosed(before, after, seq![Diagnosis::Mismatch { expected: resolved_type(tr), found: body, span }])
        },
    }
}

/// `new` is `old` with the types of its first parameters replaced by
/// `resolved` (names kept) and, when `ret` is given, its return type replaced.
pub open spec fn signature_updated(old: FunctionSignature, new: FunctionSignature, resolved: Seq<Type>, ret: Option<Type>) -> bool {
    &&& new.span == old.span
    &&& new.params@.len() == old.params@.len()
    &&& forall|i: int| 0 <= i < old.params@.len() ==> {
        &&& (#[trigger] new.params@[i]).0 == old.params@[i].0
        &&& i < resolved.len() ==> same_type(new.params@[i].1, resolved[i])
        &&& i >= resolved.len() ==> new.params@[i].1 == old.params@[i].1
    }
    &&& match ret {
        Some(t) => same_type(new.return_type, t),
        None => new.return_type == old.return_type,
    }
}

/// The resolved types of `params`, in order.
pub open spec fn resolved_params(params: Seq<Param>, constraints: Map<Seq<char>, Vec<Type>>) -> Seq<Type> {
    params.map_values(|p: Param| resolved_param(p, constraints))
}

proof fn lemma_signature_updated_same(
    old: FunctionSignature,
    new: FunctionSignature,
    r1: Seq<Type>,
    r2: Seq<Type>,
    ret1: Option<Type>,
    ret2: Option<Type>,
)
    requires
        signature_updated(old, new, r1, ret1),
        r1.len() == r2.len(),
        forall|k: int| 0 <= k < r1.len() ==> same_type(#[trigger] r1[k], r2[k]),
        ret1 is None <==> ret2 is None,
        ret1 is Some ==> same_type(ret1->Some_0, ret2->Some_0),
    ensures
        signature_updated(old, new, r2, ret2),
{
    assert forall|i: int| 0 <= i < old.params@.len() && i < r2.len() implies same_type(#[trigger] new.params@[i].1, r2[i]) by {
        crate::semantic::types::lemma_same_type_transitive(new.params@[i].1, r1[i], r2[i]);
    }
    if ret1 is Some {
        crate::semantic::types::lemma_same_type_transitive(new.return_type, ret1->Some_0, ret2->Some_0);
    }
}

/// Writes resolved parameter types and, when given, the return type into the
/// signature of the global function `name`, if there is one.
fn update_signature(registry: &mut TypeRegistry, name: &str, resolved: &Vec<Type>, ret: Option<Type>)
    ensures
        final(registry).types == old(registry).types,
        final(registry).protocols == old(registry).protocols,
        match map_get(old(registry).functions@, name@) {
            None => final(registry).functions@ == old(registry).functions@,
            Some(sig) => final(registry).functions@ == old(registry).functions@.insert(name@, final(registry).functions@[name@])
                && signature_updated(sig, final(registry).functions@[name@], resolved@, ret),
        },
{
    let placeholder = FunctionSignature { params: Vec::new(), return_type: Type::Unknown, span: SourceSpan::new(0, 0) };
    let taken = registry.functions.swap_value(name, placeholder);
    match taken {
        Some(sig) => {
            let ghost original = sig;
            let mut sig = sig;
            let mut i: usize = 0;
            while i < sig.params.len()
                invariant
                    0 <= i <= sig.params@.len(),
                    sig.span == original.span,
                    sig.return_type == original.return_type,
                    sig.params@.len() == original.params@.len(),
                    forall|j: int| 0 <= j < original.params@.len() ==> {
                        &&& (#[trigger] sig.params@[j]).0 == original.params@[j].0
                        &&& j < i && j < resolved@.len() ==> same_type(sig.params@[j].1, resolved@[j])
                        &&& (j >= i || j >= resolved@.len()) ==> sig.params@[j].1 == original.params@[j].1
                    },
                decreases sig.params.len() - i,
            {
                if i < resolved.len() {
                    let param_name = sig.params[i].0.clone();
                    let t = resolved[i].duplicate();
                    sig.params.set(i, (param_name, t));
                }
                i = i + 1;
            }
            let ghost ret_v = ret;
            match ret {
                Some(t) => {
                    proof {
                        crate::semantic::types::lemma_same_type_reflexive(t);
                    }
                    sig.return_type = t;
                },
                None => {},
            }
            let ghost updated = sig;
            proof {
                assert(signature_updated(original, updated, resolved@, ret_v));
            }
            registry.functions.swap_value(name, sig);
            proof {
                assert(registry.functions@[name@] == updated);
                assert(registry.functions@ =~= old(registry).functions@.insert(name@, registry.functions@[name@]));
            }
        },
        None => {},
    }
}

/// Completes the signature of `func` once its body has been typed as `body`:
/// resolves each parameter (see `resolved_param`), reporting those that
/// cannot be resolved at the body; then resolves the return type (see
/// `return_checked`); writes both into the registry's signature of `func`;
/// and gives the typed declaration.
pub fn finish_function(
    registry: &mut TypeRegistry,
    func: FunctionDecl,
    body: TypedExpr,
    constraints: &NameMap<Vec<Type>>,
    errors: &mut Vec<SemanticError>,
) -> (r: TypedFunction)
    ensures
        ({
            let faults = param_faults(func.params@, constraints@);
            let mid = final(errors)@.take(old(errors)@.len() + faults.len() as int);
            &&& params_reported(old(errors)@, mid, faults, func.body.span)
            &&& return_checked(*old(registry), func.name@, func.return_type, body.anno, func.body.span, mid, final(errors)@)
        }),
        final(registry).types == old(registry).types,
        final(registry).protocols == old(registry).protocols,
        match map_get(old(registry).functions@, func.name@) {
            None => final(registry).functions@ == old(registry).functions@,
            Some(sig) => final(registry).functions@ == old(registry).functions@.insert(
                func.name@,
                final(registry).functions@[func.name@],
            ) && signature_updated(
                sig,
                final(registry).functions@[func.name@],
                resolved_params(func.params@, constraints@),
                inferred_return(func.return_type, body.anno),
            ),
        },
        r.name == func.name,
        r.params == func.params,
        r.return_type == func.return_type,
        r.body == body,
{
    let span = func.body.span;
    let ghost e0 = errors@;
    let mut resolved: Vec<Type> = Vec::new();
    let mut i: usize = 0;
    proof {
        assert(e0.take(e0.len() as int) =~= e0);
        assert(func.params@.take(0) =~= Seq::<Param>::empty());
    }
    while i < func.params.len()
        invariant
            0 <= i <= func.params@.len(),
            errors@.take(e0.len() as int) == e0,
            resolved@.len() == i,
            forall|k: int| 0 <= k < i ==> same_type(#[trigger] resolved@[k], resolved_param(func.params@[k], constraints@)),
            params_reported(e0, errors@, param_faults(func.params@.take(i as int), constraints@), span),
        decreases func.params.len() - i,
    {
        let p = &func.params[i];
        let ghost before = errors@;
        let ghost prev = param_faults(func.params@.take(i as int), constraints@);
        proof {
            assert(func.params@.take(i as int + 1).drop_last() =~= func.params@.take(i as int));
            assert(func.params@.take(i as int + 1).last() == *p);
        }
        let t = match &p.type_annotation {
            Some(a) => resolve_type_ref(a),
            None => match constraints.get(p.name.as_str()) {
                Some(cs) => resolve_parameter_type(p.name.as_str(), cs, span, errors),
                None => Type::Unknown,
            },
        };
        proof {
            let faults = param_faults(func.params@.take(i as int + 1), constraints@);
            crate::semantic::types::lemma_same_type_reflexive(t);
            if faults.len() == prev.len() + 1 {
                assert(errors@.drop_last() == before);
                assert(errors@.take(e0.len() as int) =~= e0) by {
                    assert(errors@.take(e0.len() as int) =~= before.take(e0.len() as int));
                }
                assert forall|k: int| 0 <= k < faults.len() implies reports_param_fault(errors@[e0.len() + k], #[trigger] faults[k], span) by {
                    if k < prev.len() {
                        assert(faults[k] == prev[k]);
                        assert(errors@[e0.len() + k] == before[e0.len() + k]);
                    }
                }
            }
        }
        resolved.push(t);
        i = i + 1;
    }
    proof {
        assert(func.params@.take(i as int) =~= func.params@);
        assert(errors@.take(e0.len() + param_faults(func.params@, constraints@).len() as int) =~= errors@);
    }
    let ghost mid = errors@;
    let ret = resolve_return_type(registry, func.name.as_str(), &func.return_type, &body.anno, span, errors);
    proof {
        let faults = param_faults(func.params@, constraints@);
        assert(errors@.take(e0.len() + faults.len() as int) =~= mid) by {
            match func.return_type {
                None => if body.anno is Unknown || body.anno is Error {
                    assert(errors@.take(mid.len() as int) =~= errors@.drop_last());
                },
                Some(tr) => if !conforms(*registry, body.anno, resolved_type(tr), conformance_depth(*registry)) {
                    assert(errors@.take(mid.len() as int) == mid);
                },
            }
        }
    }
    let ghost ret_v = ret;
    update_signature(registry, func.name.as_str(), &resolved, ret);
    proof {
        let rp = resolved_params(func.params@, constraints@);
        assert(rp.len() == resolved@.len());
        assert forall|k: int| 0 <= k < resolved@.len() implies same_type(#[trigger] resolved@[k], rp[k]) by {}
        match map_get(old(registry).functions@, func.name@) {
            Some(sig) => {
                lemma_signature_updated_same(
                    sig,
                    registry.functions@[func.name@],
                    resolved@,
                    rp,
                    ret_v,
                    inferred_return(func.return_type, body.anno),
                );
            },
            None => {},
        }
    }
    TypedFunction { name: func.name, params: func.params, return_type: func.return_type, body }
}

/// Records that the parameter `name`, if it is one whose type is being
/// inferred (it has an entry), is used where `ty` is required.
pub fn add_constraint_if_parameter(constraints: &mut NameMap<Vec<Type>>, name: &str, ty: Type)
    ensures
        old(constraints)@.contains_key(name@) ==> final(constraints)@ == old(constraints)@.insert(
            name@,
            final(constraints)@[name@],
        ) && final(constraints)@[name@]@ == old(constraints)@[name@]@.push(ty),
        !old(constraints)@.contains_key(name@) ==> final(constraints)@ == old(constraints)@,
{
    match constraints.swap_value(name, Vec::new()) {
        Some(candidates) => {
            let mut candidates = candidates;
            candidates.push(ty);
            let ghost pushed = candidates;
            constraints.swap_value(name, candidates);
            proof {
                assert(constraints@[name@] == pushed);
                assert(constraints@ =~= old(constraints)@.insert(name@, constraints@[name@]));
            }
        },
        None => {},
    }
}

/// Records a constraint when `expr` is a variable (see `add_constraint_if_parameter`).
pub fn constrain_if_variable(constraints: &mut NameMap<Vec<Type>>, expr: &TypedExpr, ty: Type)
    ensures
        match expr.kind {
            TypedKind::Variable(name) => (old(constraints)@.contains_key(name@) ==> final(constraints)@
                == old(constraints)@.insert(name@, final(constraints)@[name@]) && final(constraints)@[name@]@
                == old(constraints)@[name@]@.push(ty)) && (!old(constraints)@.contains_key(name@) ==> final(constraints)@
                == old(constraints)@),
            _ => final(constraints)@ == old(constraints)@,
        },
{
    match &expr.kind {
        TypedKind::Variable(name) => add_constraint_if_parameter(constraints, name.as_str(), ty),
        _ => {},
    }
}

/// The type a parameter is declared with before the body is inferred: its
/// annotation, else unknown.
pub open spec fn declared_param_type(p: Param) -> Type {
    match p.type_annotation {
        Some(a) => resolved_type(a),
        None => Type::Unknown,
    }
}

/// `scopes` after declaring each of `params`, in order, at line 0.
pub open spec fn params_declared(scopes: Seq<Map<Seq<char>, Binding>>, params: Seq<Param>) -> Seq<Map<Seq<char>, Binding>>
    decreases params.len(),
{
    if params.len() == 0 {
        scopes
    } else {
        declared(
            params_declared(scopes, params.drop_last()),
            params.last().name@,
            Binding { ty: declared_param_type(params.last()), span: SourceSpan { line: 0, col: 0 } },
        )
    }
}

/// The names of the parameters of `params` that have no annotation.
pub open spec fn unannotated_names(params: Seq<Param>) -> Set<Seq<char>> {
    Set::new(|n: Seq<char>| exists|i: int| 0 <= i < params.len() && params[i].type_annotation is None && #[trigger] params[i].name@ == n)
}

/// Opens the inference of `func`: an unannotated return type becomes unknown
/// in the registry's signature (so that recursive calls see a placeholder);
/// the environment holds `self` (for a method, at the body) and then each
/// parameter with its declared type; and each unannotated parameter gets an
/// empty list of constraints.
pub fn begin_function(registry: &mut TypeRegistry, func: &FunctionDecl, self_type: Option<Type>) -> (r: (
    Environment,
    NameMap<Vec<Type>>,
))
    ensures
        final(registry).types == old(registry).types,
        final(registry).protocols == old(registry).protocols,
        match (func.return_type, map_get(old(registry).functions@, func.name@)) {
            (None, Some(sig)) => final(registry).functions@ == old(registry).functions@.insert(
                func.name@,
                final(registry).functions@[func.name@],
            ) && final(registry).functions@[func.name@].params == sig.params && final(registry).functions@[func.name@].span
                == sig.span && final(registry).functions@[func.name@].return_type is Unknown,
            _ => final(registry).functions@ == old(registry).functions@,
        },
        r.0@ == params_declared(
            match self_type {
                Some(t) => declared(
                    seq![Map::<Seq<char>, Binding>::empty()],
                    "self"@,
                    Binding { ty: t, span: func.body.span },
                ),
                None => seq![Map::<Seq<char>, Binding>::empty()],
            },
            func.params@,
        ),
        r.1@.dom() == unannotated_names(func.params@),
        forall|n: Seq<char>| #[trigger] r.1@.contains_key(n) ==> r.1@[n]@.len() == 0,
{
    if func.return_type.is_none() {
        let placeholder = FunctionSignature { params: Vec::new(), return_type: Type::Unknown, span: SourceSpan::new(0, 0) };
        match registry.functions.swap_value(func.name.as_str(), placeholder) {
            Some(sig) => {
                let mut sig = sig;
                sig.return_type = Type::Unknown;
                let ghost updated = sig;
                registry.functions.swap_value(func.name.as_str(), sig);
                proof {
                    assert(registry.functions@[func.name@] == updated);
                    assert(registry.functions@ =~= old(registry).functions@.insert(func.name@, registry.functions@[func.name@]));
                }
            },
            None => {},
        }
    }
    let mut env = Environment::new();
    let ghost start = env@;
    match self_type {
        Some(t) => {
            proof {
                reveal_strlit("self");
            }
            env.declare("self", t, func.body.span);
        },
        None => {},
    }
    let ghost base = env@;
    let mut constraints: NameMap<Vec<Type>> = NameMap::new();
    let mut i: usize = 0;
    proof {
        assert(func.params@.take(0) =~= Seq::<Param>::empty());
        assert(constraints@.dom() =~= unannotated_names(func.params@.take(0)));
    }
    while i < func.params.len()
        invariant
            0 <= i <= func.params@.len(),
            env@ == params_declared(base, func.params@.take(i as int)),
            constraints@.dom() == unannotated_names(func.params@.take(i as int)),
            forall|n: Seq<char>| #[trigger] constraints@.contains_key(n) ==> constraints@[n]@.len() == 0,
        decreases func.params.len() - i,
    {
        let p = &func.params[i];
        proof {
            assert(func.params@.take(i as int + 1).drop_last() =~= func.params@.take(i as int));
            assert(func.params@.take(i as int + 1).last() == *p);
        }
        let ty = match &p.type_annotation {
            Some(a) => resolve_type_ref(a),
            None => Type::Unknown,
        };
        env.declare(p.name.as_str(), ty, SourceSpan::new(0, 0));
        if p.type_annotation.is_none() {
            constraints.insert(p.name.clone(), Vec::new());
        }
        proof {
            let prefix = func.params@.take(i as int + 1);
            assert(constraints@.dom() =~= unannotated_names(prefix)) by {
                assert forall|n: Seq<char>| unannotated_names(prefix).contains(n) implies #[trigger] constraints@.dom().contains(n) by {
                    let k = choose|k: int| 0 <= k < prefix.len() && prefix[k].type_annotation is None && #[trigger] prefix[k].name@ == n;
                    if k < i {
                        assert(func.params@.take(i as int)[k] == prefix[k]);
                        assert(unannotated_names(func.params@.take(i as int)).contains(n));
                    }
                }
                assert forall|n: Seq<char>| #[trigger] constraints@.dom().contains(n) implies unannotated_names(prefix).contains(n) by {
                    if n != p.name@ || p.type_annotation is Some {
                        assert(unannotated_names(func.params@.take(i as int)).contains(n));
                        let k = choose|k: int| 0 <= k < i && func.params@.take(i as int)[k].type_annotation is None
                            && #[trigger] func.params@.take(i as int)[k].name@ == n;
                        assert(prefix[k] == func.params@.take(i as int)[k]);
                    } else {
                        assert(prefix[i as int].name@ == n);
                    }
                }
            }
        }
        i = i + 1;
    }
    proof {
        assert(func.params@.take(i as int) =~= func.params@);
    }
    (env, constraints)
}

/// The types a call asks of the variable `name` through its first `n`
/// arguments: for each argument that is that variable, the type of the
/// parameter it is passed to, unless that is still unknown.
pub open spec fn asked_types(args: Seq<TypedExpr>, params: Seq<(String, Type)>, name: Seq<char>, n: nat) -> Seq<Type>
    decreases n,
{
    if n == 0 {
        Seq::empty()
    } else {
        let rest = asked_types(args, params, name, (n - 1) as nat);
        let k = n - 1;
        if (args[k].kind matches TypedKind::Variable(v) && v@ == name) && !(params[k].1 is Unknown) {
            rest.push(params[k].1)
        } else {
            rest
        }
    }
}

/// `after` binds the names `before` binds, each to its list followed by
/// copies of the types asked of it by the first `n` arguments.
pub open spec fn constraints_extended(
    before: Map<Seq<char>, Vec<Type>>,
    after: Map<Seq<char>, Vec<Type>>,
    args: Seq<TypedExpr>,
    params: Seq<(String, Type)>,
    n: nat,
) -> bool {
    &&& after.dom() == before.dom()
    &&& forall|k: Seq<char>| #[trigger] before.contains_key(k) ==> {
        let asked = asked_types(args, params, k, n);
        &&& after[k]@.len() == before[k]@.len() + asked.len()
        &&& forall|j: int| 0 <= j < before[k]@.len() ==> after[k]@[j] == before[k]@[j]
        &&& forall|j: int| 0 <= j < asked.len() ==> same_type(#[trigger] after[k]@[before[k]@.len() + j], asked[j])
    }
}

/// Records what a call asks of the parameters being inferred: when the
/// argument count matches, each argument that is a variable constrains it to
/// the type of its parameter, unless that is still unknown.
pub fn record_argument_constraints(
    constraints: &mut NameMap<Vec<Type>>,
    args: &Vec<TypedExpr>,
    params: &Vec<(String, Type)>,
)
    ensures
        args@.len() != params@.len() ==> final(constraints)@ == old(constraints)@,
        args@.len() == params@.len() ==> constraints_extended(
            old(constraints)@,
            final(constraints)@,
            args@,
            params@,
            args@.len(),
        ),
{
    if args.len() != params.len() {
        return;
    }
    let ghost c0 = constraints@;
    let mut i: usize = 0;
    while i < args.len()
        invariant
            0 <= i <= args@.len(),
            args@.len() == params@.len(),
            constraints_extended(c0, constraints@, args@, params@, i as nat),
        decreases args.len() - i,
    {
        let ghost before = constraints@;
        let wanted = &params[i].1;
        match &args[i].kind {
            TypedKind::Variable(name) => {
                if !matches!(wanted, Type::Unknown) {
                    let copy = wanted.duplicate();
                    add_constraint_if_parameter(constraints, name.as_str(), copy);
                    proof {
                        assert forall|k: Seq<char>| #[trigger] c0.contains_key(k) implies ({
                            let asked = asked_types(args@, params@, k, (i + 1) as nat);
                            &&& constraints@[k]@.len() == c0[k]@.len() + asked.len()
                            &&& forall|j: int| 0 <= j < c0[k]@.len() ==> constraints@[k]@[j] == c0[k]@[j]
                            &&& forall|j: int| 0 <= j < asked.len() ==> same_type(#[trigger] constraints@[k]@[c0[k]@.len() + j], asked[j])
                        }) by {
                            let prev = asked_types(args@, params@, k, i as nat);
                            let asked = asked_types(args@, params@, k, (i + 1) as nat);
                            if k == name@ {
                                assert(asked == prev.push(params@[i as int].1));
                                assert forall|j: int| 0 <= j < asked.len() implies same_type(#[trigger] constraints@[k]@[c0[k]@.len() + j], asked[j]) by {
                                    if j < prev.len() {
                                        assert(constraints@[k]@[c0[k]@.len() + j] == before[k]@[c0[k]@.len() + j]);
                                    } else {
                                        assert(constraints@[k]@[c0[k]@.len() + j] == copy);
                                    }
                                }
                            } else {
                                assert(asked == prev);
                            }
                        }
                        assert(constraints@.dom() =~= c0.dom());
                    }
                } else {
                    proof {
                        assert forall|k: Seq<char>| #[trigger] c0.contains_key(k) implies asked_types(args@, params@, k, (i + 1) as nat)
                            == asked_types(args@, params@, k, i as nat) by {}
                    }
                }
            },
            _ => {
                proof {
                    assert forall|k: Seq<char>| #[trigger] c0.contains_key(k) implies asked_types(args@, params@, k, (i + 1) as nat)
                        == asked_types(args@, params@, k, i as nat) by {}
                }
            },
        }
        i = i + 1;
    }
}

/// The recorded constraints, each list by its contents.
pub open spec fn constraint_lists(m: Map<Seq<char>, Vec<Type>>) -> Map<Seq<char>, Seq<Type>> {
    m.map_values(|v: Vec<Type>| v@)
}

/// `m` after `e`, when it is a variable whose constraints are recorded, is
/// constrained to `t`.
pub open spec fn constrained(m: Map<Seq<char>, Seq<Type>>, e: TypedExpr, t: Type) -> Map<Seq<char>, Seq<Type>> {
    match e.kind {
        TypedKind::Variable(n) => if m.contains_key(n@) {
            m.insert(n@, m[n@].push(t))
        } else {
            m
        },
        _ => m,
    }
}

/// The type the operands of `op` are required to have, when it is one type.
pub open spec fn operand_requirement(op: BinaryOp) -> Option<Type> {
    match op {
        BinaryOp::And | BinaryOp::Or => Some(Type::Boolean),
        BinaryOp::Concat | BinaryOp::ConcatSpace => None,
        _ => Some(Type::Number),
    }
}

/// Constrains `e` to `t` (see `constrained`).
fn constrain(constraints: &mut NameMap<Vec<Type>>, e: &TypedExpr, t: Type)
    ensures
        constraint_lists(final(constraints)@) == constrained(constraint_lists(old(constraints)@), *e, t),
{
    constrain_if_variable(constraints, e, t);
    proof {
        assert(constraint_lists(constraints@) =~= constrained(constraint_lists(old(constraints)@), *e, t));
    }
}

/// Records what a binary operator asks of its operands: when their types are
/// accepted and the operator requires one type of both, each operand that is
/// a variable is constrained to it, the left one first.
pub fn record_binary_constraints(constraints: &mut NameMap<Vec<Type>>, op: BinaryOp, left: &TypedExpr, right: &TypedExpr)
    ensures
        constraint_lists(final(constraints)@) == match operand_requirement(op) {
            Some(t) => if binary_accepts(op, left.anno, right.anno) {
                constrained(constrained(constraint_lists(old(constraints)@), *left, t), *right, t)
            } else {
                constraint_lists(old(constraints)@)
            },
            None => constraint_lists(old(constraints)@),
        },
        (is_comparison(op) || is_arithmetic(op)) && (left.anno is Number || left.anno is Unknown) && (right.anno is Number
            || right.anno is Unknown) ==> constraint_lists(final(constraints)@) == constrained(
            constrained(constraint_lists(old(constraints)@), *left, Type::Number),
            *right,
            Type::Number,
        ),
        (op is And || op is Or) && (left.anno is Boolean || left.anno is Unknown) && (right.anno is Boolean
            || right.anno is Unknown) ==> constraint_lists(final(constraints)@) == constrained(
            constrained(constraint_lists(old(constraints)@), *left, Type::Boolean),
            *right,
            Type::Boolean,
        ),
        (op is Concat || op is ConcatSpace) ==> constraint_lists(final(constraints)@) == constraint_lists(old(constraints)@),
{
    let accepted = match op {
        BinaryOp::And | BinaryOp::Or => matches!(left.anno, Type::Boolean | Type::Unknown) && matches!(
            right.anno,
            Type::Boolean | Type::Unknown
        ),
        BinaryOp::Concat | BinaryOp::ConcatSpace => false,
        _ => matches!(left.anno, Type::Number | Type::Unknown) && matches!(right.anno, Type::Number | Type::Unknown),
    };
    if accepted {
        match op {
            BinaryOp::And | BinaryOp::Or => {
                constrain(constraints, left, Type::Boolean);
                constrain(constraints, right, Type::Boolean);
            },
            _ => {
                constrain(constraints, left, Type::Number);
                constrain(constraints, right, Type::Number);
            },
        }
    }
}

/// Records what a unary operator asks of its operand: `-` a number, `!` a
/// boolean, when the operand's type is accepted and it is a variable.
pub fn record_unary_constraints(constraints: &mut NameMap<Vec<Type>>, op: UnaryOp, operand: &TypedExpr)
    ensures
        constraint_lists(final(constraints)@) == match op {
            UnaryOp::Negate => if numeric_or_unknown(operand.anno) {
                constrained(constraint_lists(old(constraints)@), *operand, Type::Number)
            } else {
                constraint_lists(old(constraints)@)
            },
            UnaryOp::Not => if boolean_or_unknown(operand.anno) {
                constrained(constraint_lists(old(constraints)@), *operand, Type::Boolean)
            } else {
                constraint_lists(old(constraints)@)
            },
        },
        op is Negate && (operand.anno is Number || operand.anno is Unknown) ==> constraint_lists(final(constraints)@)
            == constrained(constraint_lists(old(constraints)@), *operand, Type::Number),
        op is Not && (operand.anno is Boolean || operand.anno is Unknown) ==> constraint_lists(final(constraints)@)
            == constrained(constraint_lists(old(constraints)@), *operand, Type::Boolean),
{
    match op {
        UnaryOp::Negate => {
            if matches!(operand.anno, Type::Number | Type::Unknown) {
                constrain(constraints, operand, Type::Number);
            }
        },
        UnaryOp::Not => {
            if matches!(operand.anno, Type::Boolean | Type::Unknown) {
                constrain(constraints, operand, Type::Boolean);
            }
        },
    }
}

} // verus!
