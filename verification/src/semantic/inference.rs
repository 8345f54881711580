//! Rules of the inference and checking passes that decide from types alone:
//! the type of a literal and of a variable, conformance checks with their
//! diagnostics, the arguments of a call against its parameters, and whether
//! a type is iterable.
use vstd::prelude::*;

use crate::ast::{Literal, Pattern, SourceSpan, TypeRef};
use crate::name_map::map_get;
use crate::semantic::conformance::{conformance_depth, conforms, conforms_to, implements};
use crate::semantic::environment::{binding_alike, declared, lemma_declared_alike, resolve, scopes_alike, Binding, Environment};
use crate::semantic::error::{SemanticError, SemanticErrorKind, Severity};
use crate::semantic::registry::TypeRegistry;
use crate::semantic::members::{resolve_type_ref, resolved_type};
use crate::semantic::types::{same_type, types_equal, Type};

verus! {

/// The type of a literal.
pub open spec fn literal_type(lit: Literal) -> Type {
    match lit {
        Literal::Number(_) => Type::Number,
        Literal::String(_) => Type::String,
        Literal::Boolean(_) => Type::Boolean,
    }
}

/// The type of a literal.
pub fn infer_literal(lit: &Literal) -> (t: Type)
    ensures
        t == literal_type(*lit),
{
    match lit {
        Literal::Number(_) => Type::Number,
        Literal::String(_) => Type::String,
        Literal::Boolean(_) => Type::Boolean,
    }
}

/// `after` is `before` with one more error: the variable `name` is undefined, at `span`.
pub open spec fn undefined_reported(before: Seq<SemanticError>, after: Seq<SemanticError>, name: Seq<char>, span: SourceSpan) -> bool {
    &&& after.len() == before.len() + 1
    &&& after.drop_last() == before
    &&& after.last().severity == Severity::Error
    &&& after.last().span == span
    &&& after.last().kind matches SemanticErrorKind::UndefinedVariable(n)
    &&& n@ == name
}

/// The type of the variable `name`: that of its binding in the environment;
/// else, for a global function without parameters (a constant such as `PI`),
/// its return type; else `Error`, reporting `UndefinedVariable` at `span`.
/// Each type returned is a copy.
pub fn infer_variable(
    env: &Environment,
    registry: &TypeRegistry,
    name: &str,
    span: SourceSpan,
    errors: &mut Vec<SemanticError>,
) -> (t: Type)
    ensures
        match resolve(env@, name@) {
            Some(b) => same_type(t, b.ty) && final(errors)@ == old(errors)@,
            None => match map_get(registry.functions@, name@) {
                Some(f) => if f.params@.len() == 0 {
                    same_type(t, f.return_type) && final(errors)@ == old(errors)@
                } else {
                    t is Error && undefined_reported(old(errors)@, final(errors)@, name@, span)
                },
                None => t is Error && undefined_reported(old(errors)@, final(errors)@, name@, span),
            },
        },
{
    match env.lookup(name) {
        Some(binding) => binding.ty.duplicate(),
        None => {
            match registry.lookup_function(name) {
                Some(sig) => {
                    if sig.params.len() == 0 {
                        return sig.return_type.duplicate();
                    }
                },
                None => {},
            }
            errors.push(SemanticError::error(SemanticErrorKind::UndefinedVariable(name.to_string()), span));
            proof {
                assert(errors@.drop_last() =~= old(errors)@);
            }
            Type::Error
        },
    }
}

/// `e` reports that `found` does not conform to `expected`, at `span`.
pub open spec fn reports_not_conforming(e: SemanticError, found: Type, expected: Type, span: SourceSpan) -> bool {
    &&& e.severity == Severity::Error
    &&& e.span == span
    &&& e.kind matches SemanticErrorKind::NotConforming { found: f, expected: x }
    &&& same_type(f, found)
    &&& same_type(x, expected)
}

/// Checks that `actual` conforms to `expected`; if not, reports
/// `NotConforming` at `span`.
pub fn check_conformance(
    registry: &TypeRegistry,
    actual: &Type,
    expected: &Type,
    span: SourceSpan,
    errors: &mut Vec<SemanticError>,
)
    ensures
        conforms(*registry, *actual, *expected, conformance_depth(*registry)) ==> final(errors)@ == old(errors)@,
        !conforms(*registry, *actual, *expected, conformance_depth(*registry)) ==> final(errors)@.len() == old(errors)@.len() + 1
            && final(errors)@.drop_last() == old(errors)@ && reports_not_conforming(final(errors)@.last(), *actual, *expected, span),
{
    if !conforms_to(actual, expected, registry) {
        errors.push(
            SemanticError::error(
                SemanticErrorKind::NotConforming { found: actual.duplicate(), expected: expected.duplicate() },
                span,
            ),
        );
        proof {
            assert(errors@.drop_last() =~= old(errors)@);
        }
    }
}

/// The diagnostics for the arguments of types `args` (at `spans`) against the
/// parameters of types `params`: an arity mismatch at `callee_span` when the
/// counts differ, else one `NotConforming` for each argument that does not
/// conform to its parameter, in order. Each entry gives the found type, the
/// expected type and where.
pub open spec fn argument_faults(reg: TypeRegistry, params: Seq<Type>, args: Seq<Type>, spans: Seq<SourceSpan>) -> Seq<(Type, Type, SourceSpan)>
    decreases args.len(),
{
    if args.len() == 0 {
        Seq::empty()
    } else {
        let k = args.len() - 1;
        let rest = argument_faults(reg, params.take(k), args.take(k), spans.take(k));
        if conforms(reg, args[k], params[k], conformance_depth(reg)) {
            rest
        } else {
            rest.push((args[k], params[k], spans[k]))
        }
    }
}

/// `after` is `before` with the diagnostics of checking arguments of types
/// `args` (at `spans`) against parameters `params`: one `ArityMismatch` at
/// `callee_span` when the counts differ, else those of `argument_faults`.
pub open spec fn arguments_checked(
    reg: TypeRegistry,
    params: Seq<(String, Type)>,
    args: Seq<Type>,
    spans: Seq<SourceSpan>,
    callee_span: SourceSpan,
    before: Seq<SemanticError>,
    after: Seq<SemanticError>,
) -> bool {
    &&& args.len() != params.len() ==> after.len() == before.len() + 1 && after.drop_last() == before
        && after.last().span == callee_span && after.last().severity == Severity::Error
        && (after.last().kind matches SemanticErrorKind::ArityMismatch { expected, found } && expected == params.len()
        && found == args.len())
    &&& args.len() == params.len() ==> ({
        let faults = argument_faults(reg, params.map_values(|p: (String, Type)| p.1), args, spans);
        &&& after.len() == before.len() + faults.len()
        &&& after.take(before.len() as int) == before
        &&& forall|k: int| 0 <= k < faults.len() ==> reports_not_conforming(
            after[before.len() + k],
            #[trigger] faults[k].0,
            faults[k].1,
            faults[k].2,
        )
    })
}

/// Checks the arguments of a call against the parameters of its callee:
/// reports `ArityMismatch` at `callee_span` when the counts differ, and else
/// `NotConforming` at each argument that does not conform to its parameter.
#[verifier::loop_isolation(false)]
pub fn check_call_arguments(
    registry: &TypeRegistry,
    params: &Vec<(String, Type)>,
    args: &Vec<Type>,
    spans: &Vec<SourceSpan>,
    callee_span: SourceSpan,
    errors: &mut Vec<SemanticError>,
)
    requires
        spans@.len() == args@.len(),
    ensures
        arguments_checked(*registry, params@, args@, spans@, callee_span, old(errors)@, final(errors)@),
{
    if args.len() != params.len() {
        errors.push(
            SemanticError::error(SemanticErrorKind::ArityMismatch { expected: params.len(), found: args.len() }, callee_span),
        );
        proof {
            assert(errors@.drop_last() =~= old(errors)@);
        }
        return;
    }
    let ghost e0 = errors@;
    let ghost ps = params@.map_values(|p: (String, Type)| p.1);
    let mut i: usize = 0;
    proof {
        assert(ps.take(0) =~= Seq::<Type>::empty());
        assert(args@.take(0) =~= Seq::<Type>::empty());
    }
    while i < args.len()
        invariant
            0 <= i <= args@.len(),
            args@.len() == params@.len(),
            spans@.len() == args@.len(),
            ps == params@.map_values(|p: (String, Type)| p.1),
            ({
                let faults = argument_faults(*registry, ps.take(i as int), args@.take(i as int), spans@.take(i as int));
                &&& errors@.len() == e0.len() + faults.len()
                &&& errors@.take(e0.len() as int) == e0
                &&& forall|k: int| 0 <= k < faults.len() ==> reports_not_conforming(
                    errors@[e0.len() + k],
                    #[trigger] faults[k].0,
                    faults[k].1,
                    faults[k].2,
                )
            }),
        decreases args.len() - i,
    {
        let ghost before = errors@;
        let ghost prev = argument_faults(*registry, ps.take(i as int), args@.take(i as int), spans@.take(i as int));
        proof {
            assert(args@.take(i as int + 1).take(i as int) =~= args@.take(i as int));
            assert(ps.take(i as int + 1).take(i as int) =~= ps.take(i as int));
            assert(spans@.take(i as int + 1).take(i as int) =~= spans@.take(i as int));
            assert(ps[i as int] == params@[i as int].1);
        }
        check_conformance(registry, &args[i], &params[i].1, spans[i], errors);
        proof {
            let faults = argument_faults(*registry, ps.take(i as int + 1), args@.take(i as int + 1), spans@.take(i as int + 1));
            assert(errors@.take(e0.len() as int) =~= e0) by {
                assert(errors@.take(before.len() as int) =~= before);
                assert(before.take(e0.len() as int) =~= e0);
            }
            assert forall|k: int| 0 <= k < faults.len() implies reports_not_conforming(
                errors@[e0.len() + k],
                #[trigger] faults[k].0,
                faults[k].1,
                faults[k].2,
            ) by {
                if k < prev.len() {
                    assert(faults[k] == prev[k]);
                    assert(errors@[e0.len() + k] == before[e0.len() + k]);
                }
            }
        }
        i = i + 1;
    }
    proof {
        assert(ps.take(i as int) =~= ps);
        assert(args@.take(i as int) =~= args@);
        assert(spans@.take(i as int) =~= spans@);
    }
}

/// A named type that implements the protocol `Iterable`.
pub open spec fn iterable_type(reg: TypeRegistry, t: Type) -> bool {
    t matches Type::Named(n) && implements(reg, n@, "Iterable"@, conformance_depth(reg))
}

/// Is `ty` a named type that implements the protocol `Iterable`?
pub fn is_iterable(registry: &TypeRegistry, ty: &Type) -> (r: bool)
    ensures
        r == iterable_type(*registry, *ty),
{
    match ty {
        Type::Named(name) => registry.implements_protocol(name.as_str(), "Iterable"),
        _ => false,
    }
}

/// A diagnostic of the rules below, by what it says.
pub enum Diagnosis {
    /// `TypeMismatch`: an error.
    Mismatch { expected: Type, found: Type, span: SourceSpan },
    /// `UndefinedType`: an error.
    Undefined { name: Seq<char>, span: SourceSpan },
    /// `IndexOnNonVector`: an error.
    NotAVector { found: Type, span: SourceSpan },
    /// `UnreachableDowncast`: a warning.
    Unreachable { from: Type, to: Type, span: SourceSpan },
}

/// `e` is the diagnostic `d` (types up to `same_type`).
pub open spec fn reports_diagnosis(e: SemanticError, d: Diagnosis) -> bool {
    match d {
        Diagnosis::Mismatch { expected, found, span } => e.severity == Severity::Error && e.span == span
            && (e.kind matches SemanticErrorKind::TypeMismatch { expected: x, found: f } && same_type(x, expected)
            && same_type(f, found)),
        Diagnosis::Undefined { name, span } => e.severity == Severity::Error && e.span == span
            && (e.kind matches SemanticErrorKind::UndefinedType(n) && n@ == name),
        Diagnosis::NotAVector { found, span } => e.severity == Severity::Error && e.span == span
            && (e.kind matches SemanticErrorKind::IndexOnNonVector(f) && same_type(f, found)),
        Diagnosis::Unreachable { from, to, span } => e.severity == Severity::Warning && e.span == span
            && (e.kind matches SemanticErrorKind::UnreachableDowncast { from: f, to: t } && same_type(f, from)
            && same_type(t, to)),
    }
}

/// `after` is `before` followed by one diagnostic for each of `ds`, in order.
pub open spec fn diagnosed(before: Seq<SemanticError>, after: Seq<SemanticError>, ds: Seq<Diagnosis>) -> bool {
    &&& after.len() == before.len() + ds.len()
    &&& after.take(before.len() as int) == before
    &&& forall|k: int| 0 <= k < ds.len() ==> reports_diagnosis(after[before.len() + k], #[trigger] ds[k])
}

proof fn lemma_diagnosed_push(before: Seq<SemanticError>, after: Seq<SemanticError>, ds: Seq<Diagnosis>, e: SemanticError, d: Diagnosis)
    requires
        diagnosed(before, after, ds),
        reports_diagnosis(e, d),
    ensures
        diagnosed(before, after.push(e), ds.push(d)),
{
    assert(after.push(e).take(before.len() as int) =~= after.take(before.len() as int));
    assert forall|k: int| 0 <= k < ds.push(d).len() implies reports_diagnosis(after.push(e)[before.len() + k], #[trigger] ds.push(d)[k]) by {
        if k < ds.len() {
            assert(ds.push(d)[k] == ds[k]);
        }
    }
}

/// A builtin value type, which is not rooted at `Object`.
pub open spec fn value_type(t: Type) -> bool {
    t is Number || t is String || t is Boolean
}

/// The diagnostics for an `is` or `as` on an operand of type `found` (at
/// `operand_span`) against the written type named `target` (at `span`): a
/// mismatch when the operand is a value type, then an undefined type when
/// `target` names neither a type nor a protocol.
pub open spec fn receiver_and_target(reg: TypeRegistry, found: Type, operand_span: SourceSpan, target: Seq<char>, span: SourceSpan) -> Seq<Diagnosis> {
    let first: Seq<Diagnosis> = if value_type(found) {
        seq![Diagnosis::Mismatch { expected: Type::Object, found, span: operand_span }]
    } else {
        Seq::empty()
    };
    if reg.types@.contains_key(target) || reg.protocols@.contains_key(target) {
        first
    } else {
        first.push(Diagnosis::Undefined { name: target, span })
    }
}

fn check_receiver_and_target(
    registry: &TypeRegistry,
    found: &Type,
    operand_span: SourceSpan,
    target: &TypeRef,
    span: SourceSpan,
    errors: &mut Vec<SemanticError>,
)
    ensures
        diagnosed(old(errors)@, final(errors)@, receiver_and_target(*registry, *found, operand_span, target.name@, span)),
{
    proof {
        assert(old(errors)@.take(old(errors)@.len() as int) =~= old(errors)@);
    }
    match found {
        Type::Number | Type::String | Type::Boolean => {
            let e = SemanticError::error(
                SemanticErrorKind::TypeMismatch { expected: Type::Object, found: found.duplicate() },
                operand_span,
            );
            proof {
                crate::semantic::types::lemma_same_type_reflexive(Type::Object);
                lemma_diagnosed_push(
                    old(errors)@,
                    errors@,
                    Seq::empty(),
                    e,
                    Diagnosis::Mismatch { expected: Type::Object, found: *found, span: operand_span },
                );
                assert(Seq::<Diagnosis>::empty().push(Diagnosis::Mismatch { expected: Type::Object, found: *found, span: operand_span })
                    =~= seq![Diagnosis::Mismatch { expected: Type::Object, found: *found, span: operand_span }]);
            }
            errors.push(e);
        },
        _ => {},
    }
    let ghost mid = errors@;
    let ghost first: Seq<Diagnosis> = if value_type(*found) {
        seq![Diagnosis::Mismatch { expected: Type::Object, found: *found, span: operand_span }]
    } else {
        Seq::empty()
    };
    if !registry.types.contains_key(target.name.as_str()) && !registry.protocols.contains_key(target.name.as_str()) {
        let e = SemanticError::error(SemanticErrorKind::UndefinedType(target.name.clone()), span);
        proof {
            lemma_diagnosed_push(old(errors)@, mid, first, e, Diagnosis::Undefined { name: target.name@, span });
        }
        errors.push(e);
    }
}

/// Types `expr is T` (with `expr` typed `found` at `operand_span`): always
/// `Boolean`, after the diagnostics of `receiver_and_target`.
pub fn infer_type_test(
    registry: &TypeRegistry,
    found: &Type,
    operand_span: SourceSpan,
    target: &TypeRef,
    span: SourceSpan,
    errors: &mut Vec<SemanticError>,
) -> (t: Type)
    ensures
        t == Type::Boolean,
        diagnosed(old(errors)@, final(errors)@, receiver_and_target(*registry, *found, operand_span, target.name@, span)),
{
    check_receiver_and_target(registry, found, operand_span, target, span, errors);
    Type::Boolean
}

/// Types `expr as T` (with `expr` typed `found` at `operand_span`): the type
/// that `T` resolves to, after the diagnostics of `receiver_and_target` and a
/// warning at `operand_span` when neither type conforms to the other (the
/// downcast can never succeed).
pub fn infer_downcast(
    registry: &TypeRegistry,
    found: &Type,
    operand_span: SourceSpan,
    target: &TypeRef,
    span: SourceSpan,
    errors: &mut Vec<SemanticError>,
) -> (t: Type)
    ensures
        t == resolved_type(*target),
        ({
            let ds = receiver_and_target(*registry, *found, operand_span, target.name@, span);
            let d = conformance_depth(*registry);
            if !conforms(*registry, *found, t, d) && !conforms(*registry, t, *found, d) {
                diagnosed(old(errors)@, final(errors)@, ds.push(Diagnosis::Unreachable { from: *found, to: t, span: operand_span }))
            } else {
                diagnosed(old(errors)@, final(errors)@, ds)
            }
        }),
{
    check_receiver_and_target(registry, found, operand_span, target, span, errors);
    let target_type = resolve_type_ref(target);
    if !conforms_to(found, &target_type, registry) && !conforms_to(&target_type, found, registry) {
        let e = SemanticError::warning(
            SemanticErrorKind::UnreachableDowncast { from: found.duplicate(), to: target_type.duplicate() },
            operand_span,
        );
        proof {
            lemma_diagnosed_push(
                old(errors)@,
                errors@,
                receiver_and_target(*registry, *found, operand_span, target.name@, span),
                e,
                Diagnosis::Unreachable { from: *found, to: target_type, span: operand_span },
            );
        }
        errors.push(e);
    }
    target_type
}

/// Types `object[index]` (with the operands typed `object` at `object_span`
/// and `index` at `index_span`): the element type of a vector indexed by a
/// number (a copy); else `Error`, reporting a mismatch at the index when the
/// object is a vector, or that the object is no vector.
pub fn infer_index(
    object: &Type,
    index: &Type,
    object_span: SourceSpan,
    index_span: SourceSpan,
    errors: &mut Vec<SemanticError>,
) -> (t: Type)
    ensures
        match *object {
            Type::Vector(inner) => if index is Number {
                same_type(t, *inner) && final(errors)@ == old(errors)@
            } else {
                t is Error && diagnosed(
                    old(errors)@,
                    final(errors)@,
                    seq![Diagnosis::Mismatch { expected: Type::Number, found: *index, span: index_span }],
                )
            },
            _ => t is Error && diagnosed(old(errors)@, final(errors)@, seq![Diagnosis::NotAVector { found: *object, span: object_span }]),
        },
{
    proof {
        assert(old(errors)@.take(old(errors)@.len() as int) =~= old(errors)@);
        crate::semantic::types::lemma_same_type_reflexive(Type::Number);
    }
    match object {
        Type::Vector(inner) => {
            if matches!(index, Type::Number) {
                inner.duplicate()
            } else {
                let e = SemanticError::error(
                    SemanticErrorKind::TypeMismatch { expected: Type::Number, found: index.duplicate() },
                    index_span,
                );
                proof {
                    lemma_diagnosed_push(old(errors)@, errors@, Seq::empty(), e, Diagnosis::Mismatch { expected: Type::Number, found: *index, span: index_span });
                    assert(Seq::<Diagnosis>::empty().push(Diagnosis::Mismatch { expected: Type::Number, found: *index, span: index_span })
                        =~= seq![Diagnosis::Mismatch { expected: Type::Number, found: *index, span: index_span }]);
                }
                errors.push(e);
                Type::Error
            }
        },
        _ => {
            let e = SemanticError::error(SemanticErrorKind::IndexOnNonVector(object.duplicate()), object_span);
            proof {
                lemma_diagnosed_push(old(errors)@, errors@, Seq::empty(), e, Diagnosis::NotAVector { found: *object, span: object_span });
                assert(Seq::<Diagnosis>::empty().push(Diagnosis::NotAVector { found: *object, span: object_span })
                    =~= seq![Diagnosis::NotAVector { found: *object, span: object_span }]);
            }
            errors.push(e);
            Type::Error
        },
    }
}

/// Types `new T(args)` (with the arguments typed `args` at `spans`): when
/// `T` is a registered type, checks the arguments against its constructor
/// parameters as `check_call_arguments` does (arity reported at `span`) and
/// gives the type named `T`; otherwise reports `UndefinedType` at `span` and
/// gives `Error`.
pub fn infer_new(
    registry: &TypeRegistry,
    target: &TypeRef,
    args: &Vec<Type>,
    spans: &Vec<SourceSpan>,
    span: SourceSpan,
    errors: &mut Vec<SemanticError>,
) -> (t: Type)
    requires
        spans@.len() == args@.len(),
    ensures
        match map_get(registry.types@, target.name@) {
            Some(info) => t == Type::Named(target.name) && arguments_checked(
                *registry,
                info.params@,
                args@,
                spans@,
                span,
                old(errors)@,
                final(errors)@,
            ),
            None => t is Error && diagnosed(old(errors)@, final(errors)@, seq![Diagnosis::Undefined { name: target.name@, span }]),
        },
{
    match registry.lookup_type(target.name.as_str()) {
        Some(info) => {
            check_call_arguments(registry, &info.params, args, spans, span, errors);
            Type::Named(target.name.clone())
        },
        None => {
            let e = SemanticError::error(SemanticErrorKind::UndefinedType(target.name.clone()), span);
            proof {
                assert(old(errors)@.take(old(errors)@.len() as int) =~= old(errors)@);
                lemma_diagnosed_push(old(errors)@, errors@, Seq::empty(), e, Diagnosis::Undefined { name: target.name@, span });
                assert(Seq::<Diagnosis>::empty().push(Diagnosis::Undefined { name: target.name@, span })
                    =~= seq![Diagnosis::Undefined { name: target.name@, span }]);
            }
            errors.push(e);
            Type::Error
        },
    }
}

/// The distinct candidate types of `cs`, in the order first seen, leaving out
/// `Unknown` and `Error` (two candidates are the same when `same_type`).
pub open spec fn distinct_candidates(cs: Seq<Type>) -> Seq<Type>
    decreases cs.len(),
{
    if cs.len() == 0 {
        Seq::empty()
    } else {
        let rest = distinct_candidates(cs.drop_last());
        let t = cs.last();
        if t is Unknown || t is Error || exists|k: int| 0 <= k < rest.len() && same_type(#[trigger] rest[k], t) {
            rest
        } else {
            rest.push(t)
        }
    }
}

/// Finds a type among `found` that is the same as `t`.
fn contains_type(found: &Vec<Type>, t: &Type) -> (r: bool)
    ensures
        r == exists|k: int| 0 <= k < found@.len() && same_type(#[trigger] found@[k], *t),
{
    let mut i: usize = 0;
    while i < found.len()
        invariant
            0 <= i <= found@.len(),
            forall|k: int| 0 <= k < i ==> !same_type(#[trigger] found@[k], *t),
        decreases found.len() - i,
    {
        if types_equal(&found[i], t) {
            return true;
        }
        i = i + 1;
    }
    false
}

/// The type of a parameter written without a type, from the types its uses
/// require (`candidates`): the one distinct candidate (see
/// `distinct_candidates`) when there is exactly one; otherwise `Error`, with
/// `CannotInferType` when there is none and `AmbiguousInference` (listing the
/// distinct candidates) when there are several, each at `span`.
#[verifier::loop_isolation(false)]
pub fn resolve_parameter_type(name: &str, candidates: &Vec<Type>, span: SourceSpan, errors: &mut Vec<SemanticError>) -> (t: Type)
    ensures
        ({
            let unique = distinct_candidates(candidates@);
            &&& unique.len() == 1 ==> same_type(t, unique[0]) && final(errors)@ == old(errors)@
            &&& unique.len() != 1 ==> t is Error && final(errors)@.len() == old(errors)@.len() + 1
                && final(errors)@.drop_last() == old(errors)@ && final(errors)@.last().span == span
                && final(errors)@.last().severity == Severity::Error
            &&& unique.len() == 0 ==> (final(errors)@.last().kind matches SemanticErrorKind::CannotInferType { symbol }
                && symbol@ == name@)
            &&& unique.len() > 1 ==> (final(errors)@.last().kind matches SemanticErrorKind::AmbiguousInference { symbol, candidates: listed }
                && symbol@ == name@ && listed@.len() == unique.len()
                && forall|k: int| 0 <= k < unique.len() ==> same_type(#[trigger] listed@[k], unique[k]))
        }),
{
    let mut unique: Vec<Type> = Vec::new();
    let mut i: usize = 0;
    proof {
        assert(candidates@.take(0) =~= Seq::<Type>::empty());
    }
    while i < candidates.len()
        invariant
            0 <= i <= candidates@.len(),
            unique@.len() == distinct_candidates(candidates@.take(i as int)).len(),
            forall|k: int| 0 <= k < unique@.len() ==> same_type(#[trigger] unique@[k], distinct_candidates(candidates@.take(i as int))[k]),
            forall|k: int| 0 <= k < unique@.len() ==> same_type(distinct_candidates(candidates@.take(i as int))[k], #[trigger] unique@[k]),
        decreases candidates.len() - i,
    {
        let c = &candidates[i];
        let ghost before = distinct_candidates(candidates@.take(i as int));
        proof {
            assert(candidates@.take(i as int + 1).drop_last() =~= candidates@.take(i as int));
            assert(candidates@.take(i as int + 1).last() == *c);
        }
        let skip = matches!(c, Type::Unknown | Type::Error) || contains_type(&unique, c);
        proof {
            // Being the same type does not depend on which copy is compared.
            if exists|k: int| 0 <= k < before.len() && same_type(#[trigger] before[k], *c) {
                let k = choose|k: int| 0 <= k < before.len() && same_type(#[trigger] before[k], *c);
                crate::semantic::types::lemma_same_type_transitive(unique@[k], before[k], *c);
            }
            if exists|k: int| 0 <= k < unique@.len() && same_type(#[trigger] unique@[k], *c) {
                let k = choose|k: int| 0 <= k < unique@.len() && same_type(#[trigger] unique@[k], *c);
                crate::semantic::types::lemma_same_type_transitive(before[k], unique@[k], *c);
            }
        }
        if !skip {
            let copy = c.duplicate();
            proof {
                crate::semantic::types::lemma_same_type_symmetric(copy, *c);
            }
            unique.push(copy);
        }
        i = i + 1;
    }
    proof {
        assert(candidates@.take(i as int) =~= candidates@);
    }
    if unique.len() == 1 {
        let t = unique[0].duplicate();
        proof {
            crate::semantic::types::lemma_same_type_transitive(t, unique@[0], distinct_candidates(candidates@)[0]);
        }
        t
    } else if unique.len() == 0 {
        errors.push(SemanticError::error(SemanticErrorKind::CannotInferType { symbol: name.to_string() }, span));
        proof {
            assert(errors@.drop_last() =~= old(errors)@);
        }
        Type::Error
    } else {
        errors.push(
            SemanticError::error(SemanticErrorKind::AmbiguousInference { symbol: name.to_string(), candidates: unique }, span),
        );
        proof {
            assert(errors@.drop_last() =~= old(errors)@);
        }
        Type::Error
    }
}

/// After inferring a function's body (typed `body`): without a return
/// annotation, the type to record as its return type, which is the body's
/// type (a copy), unless that is `Unknown` or `Error`, which reports
/// `CannotInferType` for the function at `span` and records nothing; with an
/// annotation, nothing to record, and a `TypeMismatch` at `span` when the
/// body's type does not conform to the annotated one.
pub fn resolve_return_type(
    registry: &TypeRegistry,
    name: &str,
    annotation: &Option<TypeRef>,
    body: &Type,
    span: SourceSpan,
    errors: &mut Vec<SemanticError>,
) -> (r: Option<Type>)
    ensures
        match *annotation {
            None => if body is Unknown || body is Error {
                r is None && final(errors)@.len() == old(errors)@.len() + 1 && final(errors)@.drop_last() == old(errors)@
                    && final(errors)@.last().span == span && final(errors)@.last().severity == Severity::Error
                    && (final(errors)@.last().kind matches SemanticErrorKind::CannotInferType { symbol } && symbol@ == name@)
            } else {
                r matches Some(t) && same_type(t, *body) && final(errors)@ == old(errors)@
            },
            Some(tr) => r is None && if conforms(*registry, *body, resolved_type(tr), conformance_depth(*registry)) {
                final(errors)@ == old(errors)@
            } else {
                diagnosed(
                    old(errors)@,
                    final(errors)@,
                    seq![Diagnosis::Mismatch { expected: resolved_type(tr), found: *body, span }],
                )
            },
        },
{
    match annotation {
        None => {
            if matches!(body, Type::Unknown | Type::Error) {
                errors.push(SemanticError::error(SemanticErrorKind::CannotInferType { symbol: name.to_string() }, span));
                proof {
                    assert(errors@.drop_last() =~= old(errors)@);
                }
                None
            } else {
                Some(body.duplicate())
            }
        },
        Some(tr) => {
            let annotated = resolve_type_ref(tr);
            if !conforms_to(body, &annotated, registry) {
                let e = SemanticError::error(
                    SemanticErrorKind::TypeMismatch { expected: annotated.duplicate(), found: body.duplicate() },
                    span,
                );
                proof {
                    assert(old(errors)@.take(old(errors)@.len() as int) =~= old(errors)@);
                    lemma_diagnosed_push(old(errors)@, errors@, Seq::empty(), e, Diagnosis::Mismatch { expected: annotated, found: *body, span });
                    assert(Seq::<Diagnosis>::empty().push(Diagnosis::Mismatch { expected: annotated, found: *body, span })
                        =~= seq![Diagnosis::Mismatch { expected: annotated, found: *body, span }]);
                }
                errors.push(e);
            }
            None
        },
    }
}

/// What a call is made on, once its callee has been typed.
pub enum Callee {
    /// A bare name: a global function.
    Function(String),
    /// `object.method(..)`, with the object typed.
    Method { object: Type, method: String },
    /// Anything else.
    Other,
}

/// `after` is `before` with one `UndefinedFunction` error at `span`, for a
/// call with `arity` arguments (the name it reports is `unknown`).
pub open spec fn undefined_call_reported(before: Seq<SemanticError>, after: Seq<SemanticError>, arity: nat, span: SourceSpan) -> bool {
    &&& after.len() == before.len() + 1
    &&& after.drop_last() == before
    &&& after.last().span == span
    &&& after.last().severity == Severity::Error
    &&& after.last().kind matches SemanticErrorKind::UndefinedFunction { name, arity: a }
    &&& name@ == "unknown"@
    &&& a == arity
}

/// The type of a call (with its arguments typed `args` at `spans`): for a
/// registered global function, or a method found in the flattened table of
/// the object's named type, its return type (a copy), with the arguments
/// checked against its parameters (`arguments_checked`, arity at
/// `callee_span`); for a method not found, `Error` and `UnknownMember` at
/// `callee_span`; for anything else, `Error` and `UndefinedFunction` at
/// `callee_span`.
pub fn infer_call(
    registry: &TypeRegistry,
    callee: &Callee,
    args: &Vec<Type>,
    spans: &Vec<SourceSpan>,
    callee_span: SourceSpan,
    errors: &mut Vec<SemanticError>,
) -> (t: Type)
    requires
        spans@.len() == args@.len(),
    ensures
        match *callee {
            Callee::Function(name) => match map_get(registry.functions@, name@) {
                Some(f) => same_type(t, f.return_type) && arguments_checked(
                    *registry,
                    f.params@,
                    args@,
                    spans@,
                    callee_span,
                    old(errors)@,
                    final(errors)@,
                ),
                None => t is Error && undefined_call_reported(old(errors)@, final(errors)@, args@.len(), callee_span),
            },
            Callee::Method { object, method } => match crate::semantic::members::named_info(registry.types@, object) {
                Some(info) if info.flattened_methods@.contains_key(method@) => same_type(
                    t,
                    info.flattened_methods@[method@].return_type,
                ) && arguments_checked(
                    *registry,
                    info.flattened_methods@[method@].params@,
                    args@,
                    spans@,
                    callee_span,
                    old(errors)@,
                    final(errors)@,
                ),
                _ => t is Error && final(errors)@.len() == old(errors)@.len() + 1 && final(errors)@.drop_last() == old(errors)@
                    && final(errors)@.last().span == callee_span && final(errors)@.last().severity == Severity::Error
                    && (final(errors)@.last().kind matches SemanticErrorKind::UnknownMember { ty, member } && same_type(ty, object)
                    && member@ == method@),
            },
            Callee::Other => t is Error && undefined_call_reported(old(errors)@, final(errors)@, args@.len(), callee_span),
        },
{
    match callee {
        Callee::Function(name) => {
            match registry.lookup_function(name.as_str()) {
                Some(sig) => {
                    check_call_arguments(registry, &sig.params, args, spans, callee_span, errors);
                    return sig.return_type.duplicate();
                },
                None => {},
            }
        },
        Callee::Method { object, method } => {
            match crate::semantic::members::lookup_method(registry, object, method.as_str()) {
                Some(sig) => {
                    check_call_arguments(registry, &sig.params, args, spans, callee_span, errors);
                    return sig.return_type.duplicate();
                },
                None => {
                    errors.push(
                        SemanticError::error(
                            SemanticErrorKind::UnknownMember { ty: object.duplicate(), member: method.clone() },
                            callee_span,
                        ),
                    );
                    proof {
                        assert(errors@.drop_last() =~= old(errors)@);
                    }
                    return Type::Error;
                },
            }
        },
        Callee::Other => {},
    }
    errors.push(
        SemanticError::error(
            SemanticErrorKind::UndefinedFunction { name: String::from_str("unknown"), arity: args.len() },
            callee_span,
        ),
    );
    proof {
        assert(errors@.drop_last() =~= old(errors)@);
    }
    Type::Error
}

/// `after` is `before` with one more error of kind `kind` at `span`.
pub open spec fn one_error(before: Seq<SemanticError>, after: Seq<SemanticError>, span: SourceSpan) -> bool {
    &&& after.len() == before.len() + 1
    &&& after.drop_last() == before
    &&& after.last().span == span
    &&& after.last().severity == Severity::Error
}

/// The type of `self`: inside a method, the type that owns it (a copy);
/// elsewhere `Error`, reporting `self` as an undefined variable at `span`.
pub fn infer_self_ref(self_type: &Option<Type>, span: SourceSpan, errors: &mut Vec<SemanticError>) -> (t: Type)
    ensures
        match *self_type {
            Some(s) => same_type(t, s) && final(errors)@ == old(errors)@,
            None => t is Error && undefined_reported(old(errors)@, final(errors)@, "self"@, span),
        },
{
    match self_type {
        Some(s) => s.duplicate(),
        None => {
            errors.push(SemanticError::error(SemanticErrorKind::UndefinedVariable(String::from_str("self")), span));
            proof {
                reveal_strlit("self");
                assert(errors@.drop_last() =~= old(errors)@);
            }
            Type::Error
        },
    }
}

/// The method that `base` stands for inside the method `method` of the type
/// `owner`: the method of that name in the own table of the owner's parent.
pub open spec fn base_method(reg: TypeRegistry, owner: Option<String>, method: Option<String>) -> Option<crate::semantic::registry::MethodSignature> {
    match (owner, method) {
        (Some(o), Some(m)) => match map_get(reg.types@, o@) {
            Some(info) => match info.parent {
                Some(link) => match map_get(reg.types@, link.name@) {
                    Some(parent) => map_get(parent.methods@, m@),
                    None => None,
                },
                None => None,
            },
            None => None,
        },
        _ => None,
    }
}

/// The type of `base`: the return type of the parent's method of the same
/// name (a copy); else `Error`, reporting `BaseOutsideOverridingMethod` at `span`.
pub fn infer_base_ref(
    registry: &TypeRegistry,
    owner: &Option<String>,
    method: &Option<String>,
    span: SourceSpan,
    errors: &mut Vec<SemanticError>,
) -> (t: Type)
    ensures
        match base_method(*registry, *owner, *method) {
            Some(sig) => same_type(t, sig.return_type) && final(errors)@ == old(errors)@,
            None => t is Error && one_error(old(errors)@, final(errors)@, span)
                && final(errors)@.last().kind is BaseOutsideOverridingMethod,
        },
{
    match (owner, method) {
        (Some(o), Some(m)) => match registry.lookup_type(o.as_str()) {
            Some(info) => match &info.parent {
                Some(link) => match registry.lookup_type(link.name.as_str()) {
                    Some(parent) => match parent.methods.get(m.as_str()) {
                        Some(sig) => {
                            return sig.return_type.duplicate();
                        },
                        None => {},
                    },
                    None => {},
                },
                None => {},
            },
            None => {},
        },
        _ => {},
    }
    errors.push(SemanticError::error(SemanticErrorKind::BaseOutsideOverridingMethod, span));
    proof {
        assert(errors@.drop_last() =~= old(errors)@);
    }
    Type::Error
}

/// Reports `NonBooleanCondition` at `span` when a condition's type is not `Boolean`.
pub fn check_condition(cond: &Type, span: SourceSpan, errors: &mut Vec<SemanticError>)
    ensures
        cond is Boolean ==> final(errors)@ == old(errors)@,
        !(cond is Boolean) ==> one_error(old(errors)@, final(errors)@, span) && (final(errors)@.last().kind matches SemanticErrorKind::NonBooleanCondition(
            c,
        ) && same_type(c, *cond)),
{
    if !matches!(cond, Type::Boolean) {
        errors.push(SemanticError::error(SemanticErrorKind::NonBooleanCondition(cond.duplicate()), span));
        proof {
            assert(errors@.drop_last() =~= old(errors)@);
        }
    }
}

/// The type of the loop variable of a `for` over a value of type `iterable`:
/// the element type of an `Iterable<T>` or `Vector<T>`; for a named type that
/// implements `Iterable`, the return type of its own `current` method (each a
/// copy). Otherwise `Error`, reporting `NotIterable` at `span`.
pub fn for_element_type(registry: &TypeRegistry, iterable: &Type, span: SourceSpan, errors: &mut Vec<SemanticError>) -> (t: Type)
    ensures
        match *iterable {
            Type::Iterable(inner) => same_type(t, *inner) && final(errors)@ == old(errors)@,
            Type::Vector(inner) => same_type(t, *inner) && final(errors)@ == old(errors)@,
            _ => if iterable_type(*registry, *iterable) && (match crate::semantic::members::named_info(registry.types@, *iterable) {
                Some(info) => info.methods@.contains_key("current"@),
                None => false,
            }) {
                same_type(t, crate::semantic::members::named_info(registry.types@, *iterable)->Some_0.methods@["current"@].return_type)
                    && final(errors)@ == old(errors)@
            } else {
                t is Error && one_error(old(errors)@, final(errors)@, span) && (final(errors)@.last().kind matches SemanticErrorKind::NotIterable(
                    x,
                ) && same_type(x, *iterable))
            },
        },
{
    match iterable {
        Type::Iterable(inner) => {
            return inner.duplicate();
        },
        Type::Vector(inner) => {
            return inner.duplicate();
        },
        _ => {},
    }
    if is_iterable(registry, iterable) {
        match crate::semantic::members::iterable_element_type(registry, iterable) {
            Some(t) => {
                return t;
            },
            None => {},
        }
    }
    errors.push(SemanticError::error(SemanticErrorKind::NotIterable(iterable.duplicate()), span));
    proof {
        assert(errors@.drop_last() =~= old(errors)@);
    }
    Type::Error
}

/// The type of the member read `object.member`, where `object` has type
/// `object_type`: that of the attribute with a declared type, else the return
/// type of the method, of the named type (a copy); else `Error`, reporting
/// `UnknownMember` at `span` (the object's).
pub fn infer_member(
    registry: &TypeRegistry,
    object_type: &Type,
    member: &str,
    span: SourceSpan,
    errors: &mut Vec<SemanticError>,
) -> (t: Type)
    ensures
        ({
            let unknown = t is Error && one_error(old(errors)@, final(errors)@, span) && (final(errors)@.last().kind matches SemanticErrorKind::UnknownMember {
                ty,
                member: m,
            } && same_type(ty, *object_type) && m@ == member@);
            match crate::semantic::members::named_info(registry.types@, *object_type) {
                Some(info) => if info.attributes@.contains_key(member@) && info.attributes@[member@].declared_type is Some {
                    same_type(t, info.attributes@[member@].declared_type->Some_0) && final(errors)@ == old(errors)@
                } else if info.flattened_methods@.contains_key(member@) {
                    same_type(t, info.flattened_methods@[member@].return_type) && final(errors)@ == old(errors)@
                } else {
                    unknown
                },
                None => unknown,
            }
        }),
{
    match crate::semantic::members::lookup_member(registry, object_type, member) {
        Some((_, t)) => t,
        None => {
            errors.push(
                SemanticError::error(
                    SemanticErrorKind::UnknownMember { ty: object_type.duplicate(), member: member.to_string() },
                    span,
                ),
            );
            proof {
                assert(errors@.drop_last() =~= old(errors)@);
            }
            Type::Error
        },
    }
}

/// The type a `let` binding (or an attribute) is declared with: its
/// annotation, reporting `TypeMismatch` at `span` when the initializer's type
/// `init` does not conform to it; else the initializer's type (a copy).
pub fn binding_type(
    registry: &TypeRegistry,
    annotation: &Option<TypeRef>,
    init: &Type,
    span: SourceSpan,
    errors: &mut Vec<SemanticError>,
) -> (t: Type)
    ensures
        match *annotation {
            Some(tr) => t == resolved_type(tr) && if conforms(*registry, *init, resolved_type(tr), conformance_depth(*registry)) {
                final(errors)@ == old(errors)@
            } else {
                diagnosed(old(errors)@, final(errors)@, seq![Diagnosis::Mismatch { expected: resolved_type(tr), found: *init, span }])
            },
            None => same_type(t, *init) && final(errors)@ == old(errors)@,
        },
{
    match annotation {
        Some(tr) => {
            let annotated = resolve_type_ref(tr);
            if !conforms_to(init, &annotated, registry) {
                let e = SemanticError::error(
                    SemanticErrorKind::TypeMismatch { expected: annotated.duplicate(), found: init.duplicate() },
                    span,
                );
                proof {
                    assert(old(errors)@.take(old(errors)@.len() as int) =~= old(errors)@);
                    lemma_diagnosed_push(old(errors)@, errors@, Seq::empty(), e, Diagnosis::Mismatch { expected: annotated, found: *init, span });
                    assert(Seq::<Diagnosis>::empty().push(Diagnosis::Mismatch { expected: annotated, found: *init, span })
                        =~= seq![Diagnosis::Mismatch { expected: annotated, found: *init, span }]);
                }
                errors.push(e);
            }
            annotated
        },
        None => init.duplicate(),
    }
}

/// Reports `TypeMismatch` at `span` when an assigned value of type `value`
/// does not conform to the type `target` of what it is assigned to.
pub fn check_assigned_value(
    registry: &TypeRegistry,
    target: &Type,
    value: &Type,
    span: SourceSpan,
    errors: &mut Vec<SemanticError>,
)
    ensures
        conforms(*registry, *value, *target, conformance_depth(*registry)) ==> final(errors)@ == old(errors)@,
        !conforms(*registry, *value, *target, conformance_depth(*registry)) ==> diagnosed(
            old(errors)@,
            final(errors)@,
            seq![Diagnosis::Mismatch { expected: *target, found: *value, span }],
        ),
{
    if !conforms_to(value, target, registry) {
        let e = SemanticError::error(
            SemanticErrorKind::TypeMismatch { expected: target.duplicate(), found: value.duplicate() },
            span,
        );
        proof {
            assert(old(errors)@.take(old(errors)@.len() as int) =~= old(errors)@);
            lemma_diagnosed_push(old(errors)@, errors@, Seq::empty(), e, Diagnosis::Mismatch { expected: *target, found: *value, span });
            assert(Seq::<Diagnosis>::empty().push(Diagnosis::Mismatch { expected: *target, found: *value, span })
                =~= seq![Diagnosis::Mismatch { expected: *target, found: *value, span }]);
        }
        errors.push(e);
    }
}

/// Checks the arguments of types `args` given to the constructor of the
/// parent type `parent`, when it is registered, reporting at `span` (the
/// inheriting declaration's) as a call would (see `arguments_checked`).
pub fn check_parent_arguments(
    registry: &TypeRegistry,
    parent: &str,
    args: &Vec<Type>,
    span: SourceSpan,
    errors: &mut Vec<SemanticError>,
)
    ensures
        match map_get(registry.types@, parent@) {
            Some(info) => arguments_checked(
                *registry,
                info.params@,
                args@,
                Seq::new(args@.len(), |i: int| span),
                span,
                old(errors)@,
                final(errors)@,
            ),
            None => final(errors)@ == old(errors)@,
        },
{
    match registry.lookup_type(parent) {
        Some(info) => {
            let mut spans: Vec<SourceSpan> = Vec::new();
            let mut i: usize = 0;
            while i < args.len()
                invariant
                    0 <= i <= args@.len(),
                    spans@ =~= Seq::new(i as nat, |k: int| span),
                decreases args.len() - i,
            {
                spans.push(span);
                i = i + 1;
            }
            check_call_arguments(registry, &info.params, args, &spans, span, errors);
        },
        None => {},
    }
}

/// The environment of a case body and whether the pattern catches every
/// value: a wildcard catches all; a variable catches all and binds the
/// scrutinee's type; a literal must have the scrutinee's type; a type pattern
/// needs a scrutinee that is not a builtin value type and binds its alias, if
/// any, to the written type. Bindings are made at `span`.
pub open spec fn pattern_outcome(
    pattern: Pattern,
    scrutinee: Type,
    env: Seq<Map<Seq<char>, Binding>>,
    span: SourceSpan,
) -> (Seq<Map<Seq<char>, Binding>>, bool, Seq<Diagnosis>) {
    match pattern {
        Pattern::Wildcard => (env, true, Seq::empty()),
        Pattern::Literal(lit) => (env, false, if same_type(literal_type(lit), scrutinee) {
            Seq::empty()
        } else {
            seq![Diagnosis::Mismatch { expected: scrutinee, found: literal_type(lit), span }]
        }),
        Pattern::Variable(name) => (declared(env, name@, Binding { ty: scrutinee, span }), true, Seq::empty()),
        Pattern::Type(tr, alias) => (
            match alias {
                Some(a) => declared(env, a@, Binding { ty: resolved_type(tr), span }),
                None => env,
            },
            false,
            if scrutinee is Number || scrutinee is String || scrutinee is Boolean {
                seq![Diagnosis::Mismatch { expected: Type::Object, found: scrutinee, span }]
            } else {
                Seq::empty()
            },
        ),
    }
}

/// Checks a `match` pattern against the scrutinee's type `scrutinee` and
/// gives the environment of the case body (a copy of `env` with the
/// pattern's binding) and whether the pattern catches every value (see
/// `pattern_outcome`).
pub fn infer_pattern(
    pattern: &Pattern,
    scrutinee: &Type,
    env: &Environment,
    span: SourceSpan,
    errors: &mut Vec<SemanticError>,
) -> (r: (Environment, bool))
    ensures
        ({
            let (scopes, catch_all, ds) = pattern_outcome(*pattern, *scrutinee, env@, span);
            &&& scopes_alike(r.0@, scopes)
            &&& r.1 == catch_all
            &&& diagnosed(old(errors)@, final(errors)@, ds)
        }),
{
    let mut case_env = env.clone();
    proof {
        assert(old(errors)@.take(old(errors)@.len() as int) =~= old(errors)@);
        crate::semantic::types::lemma_same_type_reflexive(*scrutinee);
    }
    match pattern {
        Pattern::Wildcard => (case_env, true),
        Pattern::Literal(lit) => {
            let lit_type = infer_literal(lit);
            if !types_equal(&lit_type, scrutinee) {
                let e = SemanticError::error(
                    SemanticErrorKind::TypeMismatch { expected: scrutinee.duplicate(), found: lit_type.duplicate() },
                    span,
                );
                proof {
                    lemma_diagnosed_push(
                        old(errors)@,
                        errors@,
                        Seq::empty(),
                        e,
                        Diagnosis::Mismatch { expected: *scrutinee, found: lit_type, span },
                    );
                    assert(Seq::<Diagnosis>::empty().push(Diagnosis::Mismatch { expected: *scrutinee, found: lit_type, span })
                        =~= seq![Diagnosis::Mismatch { expected: *scrutinee, found: lit_type, span }]);
                }
                errors.push(e);
            }
            (case_env, false)
        },
        Pattern::Variable(name) => {
            let ghost before = case_env@;
            let b = scrutinee.duplicate();
            case_env.declare(name.as_str(), b, span);
            proof {
                lemma_declared_alike(before, env@, name@, Binding { ty: b, span }, Binding { ty: *scrutinee, span });
            }
            (case_env, true)
        },
        Pattern::Type(tr, alias) => {
            if matches!(scrutinee, Type::Number | Type::String | Type::Boolean) {
                let e = SemanticError::error(
                    SemanticErrorKind::TypeMismatch { expected: Type::Object, found: scrutinee.duplicate() },
                    span,
                );
                proof {
                    lemma_diagnosed_push(
                        old(errors)@,
                        errors@,
                        Seq::empty(),
                        e,
                        Diagnosis::Mismatch { expected: Type::Object, found: *scrutinee, span },
                    );
                    assert(Seq::<Diagnosis>::empty().push(Diagnosis::Mismatch { expected: Type::Object, found: *scrutinee, span })
                        =~= seq![Diagnosis::Mismatch { expected: Type::Object, found: *scrutinee, span }]);
                }
                errors.push(e);
            }
            let target = resolve_type_ref(tr);
            match alias {
                Some(a) => {
                    let ghost before = case_env@;
                    proof {
                        crate::semantic::types::lemma_same_type_reflexive(target);
                    }
                    case_env.declare(a.as_str(), target, span);
                    proof {
                        lemma_declared_alike(before, env@, a@, Binding { ty: target, span }, Binding { ty: target, span });
                    }
                },
                None => {},
            }
            (case_env, false)
        },
    }
}

/// Warns, at `span`, of a `match` none of whose patterns catches every value.
pub fn check_exhaustive(has_catch_all: bool, span: SourceSpan, errors: &mut Vec<SemanticError>)
    ensures
        has_catch_all ==> final(errors)@ == old(errors)@,
        !has_catch_all ==> final(errors)@.len() == old(errors)@.len() + 1 && final(errors)@.drop_last() == old(errors)@
            && final(errors)@.last().span == span && final(errors)@.last().severity == Severity::Warning
            && final(errors)@.last().kind is NonExhaustiveMatch,
{
    if !has_catch_all {
        errors.push(SemanticError::warning(SemanticErrorKind::NonExhaustiveMatch, span));
        proof {
            assert(errors@.drop_last() =~= old(errors)@);
        }
    }
}

} // verus!
