//! The checking pass over the typed tree: every node whose type is still
//! unknown, every attribute read from outside its own type, and every `let`
//! or attribute annotation that its initializer does not conform to.
use vstd::prelude::*;

use crate::ast::SourceSpan;
use crate::semantic::conformance::{conformance_depth, conforms};
use crate::semantic::error::{SemanticError, SemanticErrorKind, Severity};
use crate::semantic::inference::{check_conformance, reports_not_conforming};
use crate::semantic::members::{attribute_owner, named_info, resolve_type_ref, resolved_type};
use crate::semantic::registry::TypeRegistry;
use crate::semantic::typed::{
    TypedAttribute, TypedBinding, TypedCase, TypedDeclaration, TypedDeclarationKind, TypedElif, TypedExpr, TypedFunction,
    TypedKind, TypedMember, TypedMemberKind, TypedProgram, TypedTarget,
};
use crate::semantic::types::{lemma_same_type_reflexive, same_type, types_equal, Type};
use crate::ast::{Param, TypeRef};
use crate::name_map::map_get;

verus! {

/// A problem that the checking pass reports.
pub enum CheckFault {
    /// `CannotInferType` for an expression whose type is still unknown.
    Unresolved(SourceSpan),
    /// `UnknownMember`: the attribute `member` of `owner` read from outside `owner`.
    Hidden { owner: Type, member: Seq<char>, span: SourceSpan },
    /// `NotConforming`: an initializer of type `found` under the annotation `expected`.
    Annotation { found: Type, expected: Type, span: SourceSpan },
}

/// `e` is the error that reports `f` (types up to `same_type`).
pub open spec fn reports_fault(e: SemanticError, f: CheckFault) -> bool {
    match f {
        CheckFault::Unresolved(span) => e.severity == Severity::Error && e.span == span
            && (e.kind matches SemanticErrorKind::CannotInferType { symbol } && symbol@ == "expression"@),
        CheckFault::Hidden { owner, member, span } => e.severity == Severity::Error && e.span == span
            && (e.kind matches SemanticErrorKind::UnknownMember { ty, member: m } && same_type(ty, owner) && m@ == member),
        CheckFault::Annotation { found, expected, span } => reports_not_conforming(e, found, expected, span),
    }
}

/// `after` is `before` followed by one error reporting each of `fs`, in order.
pub open spec fn faults_reported(before: Seq<SemanticError>, after: Seq<SemanticError>, fs: Seq<CheckFault>) -> bool {
    &&& after.len() == before.len() + fs.len()
    &&& after.take(before.len() as int) == before
    &&& forall|k: int| 0 <= k < fs.len() ==> reports_fault(after[before.len() + k], #[trigger] fs[k])
}

/// The annotation fault of an initializer `init` written under `ann`: one
/// when its type does not conform to the annotated type.
pub open spec fn annotation_faults(reg: TypeRegistry, ann: Option<TypeRef>, init: TypedExpr) -> Seq<CheckFault> {
    match ann {
        Some(a) => if conforms(reg, init.anno, resolved_type(a), conformance_depth(reg)) {
            Seq::empty()
        } else {
            seq![CheckFault::Annotation { found: init.anno, expected: resolved_type(a), span: init.span }]
        },
        None => Seq::empty(),
    }
}

/// The privacy fault of reading `member` from `object`: one when `member` is
/// an attribute of the type of `object` and `object` is not `self`.
pub open spec fn privacy_faults(reg: TypeRegistry, object: TypedExpr, member: Seq<char>) -> Seq<CheckFault> {
    match named_info(reg.types@, object.anno) {
        Some(info) => if info.attributes@.contains_key(member) && !(object.kind is SelfRef) {
            seq![CheckFault::Hidden { owner: object.anno, member, span: object.span }]
        } else {
            Seq::empty()
        },
        None => Seq::empty(),
    }
}

/// The faults of an expression, in pre-order: its own unresolved type first,
/// then those of its parts from left to right (for a member read, those of the
/// object and then the privacy fault; for a `let` binding, its annotation
/// fault before those of its initializer).
pub open spec fn check_faults(reg: TypeRegistry, e: TypedExpr) -> Seq<CheckFault>
    decreases e,
{
    let own = if e.anno is Unknown { seq![CheckFault::Unresolved(e.span)] } else { Seq::empty() };
    own + match e.kind {
        TypedKind::Literal(_) => Seq::empty(),
        TypedKind::Variable(_) => Seq::empty(),
        TypedKind::SelfRef => Seq::empty(),
        TypedKind::BaseRef => Seq::empty(),
        TypedKind::Unary { op: _, expr } => check_faults(reg, *expr),
        TypedKind::Binary { op: _, left, right } => check_faults(reg, *left) + check_faults(reg, *right),
        TypedKind::Let { bindings, body } => binding_faults(reg, bindings@) + check_faults(reg, *body),
        TypedKind::Assign { target, value } => target_faults(reg, target) + check_faults(reg, *value),
        TypedKind::Block(items) => all_faults(reg, items@),
        TypedKind::If { condition, then_branch, elifs, else_branch } => check_faults(reg, *condition)
            + check_faults(reg, *then_branch) + elif_faults(reg, elifs@) + check_faults(reg, *else_branch),
        TypedKind::While { condition, body } => check_faults(reg, *condition) + check_faults(reg, *body),
        TypedKind::For { var: _, iterable, body } => check_faults(reg, *iterable) + check_faults(reg, *body),
        TypedKind::Call { callee, args } => check_faults(reg, *callee) + all_faults(reg, args@),
        TypedKind::Member { object, member } => check_faults(reg, *object) + privacy_faults(reg, *object, member@),
        TypedKind::New { type_ref: _, args } => all_faults(reg, args@),
        TypedKind::TypeTest { expr, type_ref: _ } => check_faults(reg, *expr),
        TypedKind::Downcast { expr, type_ref: _ } => check_faults(reg, *expr),
        TypedKind::VectorLiteral(items) => all_faults(reg, items@),
        TypedKind::Comprehension { expr, var: _, iterable } => check_faults(reg, *expr) + check_faults(reg, *iterable),
        TypedKind::Index { object, index } => check_faults(reg, *object) + check_faults(reg, *index),
        TypedKind::Match { value, cases } => check_faults(reg, *value) + case_faults(reg, cases@),
    }
}

/// The faults of a sequence of expressions, one after another.
pub open spec fn all_faults(reg: TypeRegistry, es: Seq<TypedExpr>) -> Seq<CheckFault>
    decreases es,
{
    if es.len() == 0 {
        Seq::empty()
    } else {
        all_faults(reg, es.drop_last()) + check_faults(reg, es.last())
    }
}

/// The faults of `let` bindings: for each, its annotation fault and then
/// those of its initializer.
pub open spec fn binding_faults(reg: TypeRegistry, bs: Seq<TypedBinding>) -> Seq<CheckFault>
    decreases bs,
{
    if bs.len() == 0 {
        Seq::empty()
    } else {
        binding_faults(reg, bs.drop_last()) + annotation_faults(reg, bs.last().type_annotation, bs.last().initializer)
            + check_faults(reg, bs.last().initializer)
    }
}

/// The faults of `elif` branches: condition, then body, of each.
pub open spec fn elif_faults(reg: TypeRegistry, es: Seq<TypedElif>) -> Seq<CheckFault>
    decreases es,
{
    if es.len() == 0 {
        Seq::empty()
    } else {
        elif_faults(reg, es.drop_last()) + check_faults(reg, es.last().condition) + check_faults(reg, es.last().body)
    }
}

/// The faults of the bodies of `match` cases.
pub open spec fn case_faults(reg: TypeRegistry, cs: Seq<TypedCase>) -> Seq<CheckFault>
    decreases cs,
{
    if cs.len() == 0 {
        Seq::empty()
    } else {
        case_faults(reg, cs.drop_last()) + check_faults(reg, cs.last().body)
    }
}

/// The faults of an assignment target: those of the expressions inside it.
pub open spec fn target_faults(reg: TypeRegistry, t: TypedTarget) -> Seq<CheckFault>
    decreases t,
{
    match t {
        TypedTarget::Variable(_) => Seq::empty(),
        TypedTarget::Member { object, field: _ } => check_faults(reg, *object),
        TypedTarget::Index { object, index } => check_faults(reg, *object) + check_faults(reg, *index),
    }
}

proof fn lemma_reported_none(a: Seq<SemanticError>)
    ensures
        faults_reported(a, a, Seq::empty()),
{
    assert(a.take(a.len() as int) =~= a);
}

proof fn lemma_reported_one(a: Seq<SemanticError>, e: SemanticError, f: CheckFault)
    requires
        reports_fault(e, f),
    ensures
        faults_reported(a, a.push(e), seq![f]),
{
    assert(a.push(e).take(a.len() as int) =~= a);
    assert(a.push(e)[a.len() as int] == e);
}

proof fn lemma_reported_then(
    a: Seq<SemanticError>,
    b: Seq<SemanticError>,
    c: Seq<SemanticError>,
    f1: Seq<CheckFault>,
    f2: Seq<CheckFault>,
)
    requires
        faults_reported(a, b, f1),
        faults_reported(b, c, f2),
    ensures
        faults_reported(a, c, f1 + f2),
{
    assert(c.take(a.len() as int) =~= a) by {
        assert(c.take(a.len() as int) =~= c.take(b.len() as int).take(a.len() as int));
        assert(b.take(a.len() as int) =~= a);
    }
    assert forall|k: int| 0 <= k < (f1 + f2).len() implies reports_fault(c[a.len() + k], #[trigger] (f1 + f2)[k]) by {
        if k < f1.len() {
            assert(c[a.len() + k] == c.take(b.len() as int)[a.len() + k]);
            assert(reports_fault(b[a.len() + k], f1[k]));
        } else {
            let j = k - f1.len();
            assert(a.len() + k == b.len() + j);
            assert(reports_fault(c[b.len() + j], f2[j]));
        }
    }
}

/// Reports the faults of `expr` (see `check_faults`), in pre-order.
#[verifier::rlimit(60)]
pub fn check_expr(registry: &TypeRegistry, expr: &TypedExpr, errors: &mut Vec<SemanticError>)
    ensures
        faults_reported(old(errors)@, final(errors)@, check_faults(*registry, *expr)),
    decreases expr, 1int,
{
    let ghost e0 = errors@;
    if matches!(expr.anno, Type::Unknown) {
        errors.push(
            SemanticError::error(SemanticErrorKind::CannotInferType { symbol: String::from_str("expression") }, expr.span),
        );
        proof {
            reveal_strlit("expression");
            lemma_reported_one(e0, errors@.last(), CheckFault::Unresolved(expr.span));
            assert(errors@ =~= e0.push(errors@.last()));
        }
    } else {
        proof {
            lemma_reported_none(e0);
        }
    }
    let ghost own = if expr.anno is Unknown { seq![CheckFault::Unresolved(expr.span)] } else { Seq::<CheckFault>::empty() };
    let ghost e1 = errors@;
    proof {
        assert(faults_reported(e0, e1, own));
    }
    match &expr.kind {
        TypedKind::Literal(_) | TypedKind::Variable(_) | TypedKind::SelfRef | TypedKind::BaseRef => {
            proof {
                assert(own + Seq::<CheckFault>::empty() =~= own);
            }
        },
        TypedKind::Unary { op: _, expr: inner } => {
            check_expr(registry, inner, errors);
            proof {
                lemma_reported_then(e0, e1, errors@, own, check_faults(*registry, **inner));
            }
        },
        TypedKind::Binary { op: _, left, right } => {
            check_expr(registry, left, errors);
            let ghost e2 = errors@;
            check_expr(registry, right, errors);
            proof {
                let fl = check_faults(*registry, **left);
                let fr = check_faults(*registry, **right);
                lemma_reported_then(e1, e2, errors@, fl, fr);
                lemma_reported_then(e0, e1, errors@, own, fl + fr);
            }
        },
        TypedKind::Let { bindings, body } => {
            proof {
                assert forall|i: int| 0 <= i < bindings@.len() implies decreases_to!(*expr => #[trigger] bindings@[i]) by {
                    assert(decreases_to!(*expr => expr.kind));
                    assert(decreases_to!(expr.kind => *bindings));
                    assert(decreases_to!(*bindings => bindings@));
                    assert(decreases_to!(bindings@ => bindings@[i]));
                }
            }
            check_bindings(registry, expr, bindings, errors);
            let ghost e2 = errors@;
            check_expr(registry, body, errors);
            proof {
                let fb = binding_faults(*registry, bindings@);
                let fy = check_faults(*registry, **body);
                lemma_reported_then(e1, e2, errors@, fb, fy);
                lemma_reported_then(e0, e1, errors@, own, fb + fy);
            }
        },
        TypedKind::Assign { target, value } => {
            proof {
                assert(decreases_to!(*expr => expr.kind));
                assert(decreases_to!(expr.kind => *target));
            }
            check_assign_target(registry, target, errors);
            let ghost e2 = errors@;
            check_expr(registry, value, errors);
            proof {
                let ft = target_faults(*registry, *target);
                let fv = check_faults(*registry, **value);
                lemma_reported_then(e1, e2, errors@, ft, fv);
                lemma_reported_then(e0, e1, errors@, own, ft + fv);
            }
        },
        TypedKind::Block(items) => {
            proof {
                assert forall|i: int| 0 <= i < items@.len() implies decreases_to!(*expr => #[trigger] items@[i]) by {
                    assert(decreases_to!(*expr => expr.kind));
                    assert(decreases_to!(expr.kind => *items));
                    assert(decreases_to!(*items => items@));
                    assert(decreases_to!(items@ => items@[i]));
                }
            }
            check_all(registry, expr, items, errors);
            proof {
                lemma_reported_then(e0, e1, errors@, own, all_faults(*registry, items@));
            }
        },
        TypedKind::If { condition, then_branch, elifs, else_branch } => {
            check_expr(registry, condition, errors);
            let ghost e2 = errors@;
            check_expr(registry, then_branch, errors);
            let ghost e3 = errors@;
            proof {
                assert forall|i: int| 0 <= i < elifs@.len() implies decreases_to!(*expr => #[trigger] elifs@[i]) by {
                    assert(decreases_to!(*expr => expr.kind));
                    assert(decreases_to!(expr.kind => *elifs));
                    assert(decreases_to!(*elifs => elifs@));
                    assert(decreases_to!(elifs@ => elifs@[i]));
                }
            }
            check_elifs(registry, expr, elifs, errors);
            let ghost e4 = errors@;
            check_expr(registry, else_branch, errors);
            proof {
                let fc = check_faults(*registry, **condition);
                let ft = check_faults(*registry, **then_branch);
                let fe = elif_faults(*registry, elifs@);
                let fo = check_faults(*registry, **else_branch);
                lemma_reported_then(e1, e2, e3, fc, ft);
                lemma_reported_then(e1, e3, e4, fc + ft, fe);
                lemma_reported_then(e1, e4, errors@, fc + ft + fe, fo);
                lemma_reported_then(e0, e1, errors@, own, fc + ft + fe + fo);
            }
        },
        TypedKind::While { condition, body } => {
            check_expr(registry, condition, errors);
            let ghost e2 = errors@;
            check_expr(registry, body, errors);
            proof {
                let fc = check_faults(*registry, **condition);
                let fb = check_faults(*registry, **body);
                lemma_reported_then(e1, e2, errors@, fc, fb);
                lemma_reported_then(e0, e1, errors@, own, fc + fb);
            }
        },
        TypedKind::For { var: _, iterable, body } => {
            check_expr(registry, iterable, errors);
            let ghost e2 = errors@;
            check_expr(registry, body, errors);
            proof {
                let fi = check_faults(*registry, **iterable);
                let fb = check_faults(*registry, **body);
                lemma_reported_then(e1, e2, errors@, fi, fb);
                lemma_reported_then(e0, e1, errors@, own, fi + fb);
            }
        },
        TypedKind::Call { callee, args } => {
            check_expr(registry, callee, errors);
            let ghost e2 = errors@;
            proof {
                assert forall|i: int| 0 <= i < args@.len() implies decreases_to!(*expr => #[trigger] args@[i]) by {
                    assert(decreases_to!(*expr => expr.kind));
                    assert(decreases_to!(expr.kind => *args));
                    assert(decreases_to!(*args => args@));
                    assert(decreases_to!(args@ => args@[i]));
                }
            }
            check_all(registry, expr, args, errors);
            proof {
                let fc = check_faults(*registry, **callee);
                let fa = all_faults(*registry, args@);
                lemma_reported_then(e1, e2, errors@, fc, fa);
                lemma_reported_then(e0, e1, errors@, own, fc + fa);
            }
        },
        TypedKind::Member { object, member } => {
            check_expr(registry, object, errors);
            let ghost e2 = errors@;
            check_privacy(registry, object, member, errors);
            proof {
                let fo = check_faults(*registry, **object);
                let fp = privacy_faults(*registry, **object, member@);
                lemma_reported_then(e1, e2, errors@, fo, fp);
                lemma_reported_then(e0, e1, errors@, own, fo + fp);
            }
        },
        TypedKind::New { type_ref: _, args } => {
            proof {
                assert forall|i: int| 0 <= i < args@.len() implies decreases_to!(*expr => #[trigger] args@[i]) by {
                    assert(decreases_to!(*expr => expr.kind));
                    assert(decreases_to!(expr.kind => *args));
                    assert(decreases_to!(*args => args@));
                    assert(decreases_to!(args@ => args@[i]));
                }
            }
            check_all(registry, expr, args, errors);
            proof {
                lemma_reported_then(e0, e1, errors@, own, all_faults(*registry, args@));
            }
        },
        TypedKind::TypeTest { expr: inner, type_ref: _ } => {
            check_expr(registry, inner, errors);
            proof {
                lemma_reported_then(e0, e1, errors@, own, check_faults(*registry, **inner));
            }
        },
        TypedKind::Downcast { expr: inner, type_ref: _ } => {
            check_expr(registry, inner, errors);
            proof {
                lemma_reported_then(e0, e1, errors@, own, check_faults(*registry, **inner));
            }
        },
        TypedKind::VectorLiteral(items) => {
            proof {
                assert forall|i: int| 0 <= i < items@.len() implies decreases_to!(*expr => #[trigger] items@[i]) by {
                    assert(decreases_to!(*expr => expr.kind));
                    assert(decreases_to!(expr.kind => *items));
                    assert(decreases_to!(*items => items@));
                    assert(decreases_to!(items@ => items@[i]));
                }
            }
            check_all(registry, expr, items, errors);
            proof {
                lemma_reported_then(e0, e1, errors@, own, all_faults(*registry, items@));
            }
        },
        TypedKind::Comprehension { expr: inner, var: _, iterable } => {
            check_expr(registry, inner, errors);
            let ghost e2 = errors@;
            check_expr(registry, iterable, errors);
            proof {
                let fx = check_faults(*registry, **inner);
                let fi = check_faults(*registry, **iterable);
                lemma_reported_then(e1, e2, errors@, fx, fi);
                lemma_reported_then(e0, e1, errors@, own, fx + fi);
            }
        },
        TypedKind::Index { object, index } => {
            check_expr(registry, object, errors);
            let ghost e2 = errors@;
            check_expr(registry, index, errors);
            proof {
                let fo = check_faults(*registry, **object);
                let fi = check_faults(*registry, **index);
                lemma_reported_then(e1, e2, errors@, fo, fi);
                lemma_reported_then(e0, e1, errors@, own, fo + fi);
            }
        },
        TypedKind::Match { value, cases } => {
            check_expr(registry, value, errors);
            let ghost e2 = errors@;
            proof {
                assert forall|i: int| 0 <= i < cases@.len() implies decreases_to!(*expr => #[trigger] cases@[i]) by {
                    assert(decreases_to!(*expr => expr.kind));
                    assert(decreases_to!(expr.kind => *cases));
                    assert(decreases_to!(*cases => cases@));
                    assert(decreases_to!(cases@ => cases@[i]));
                }
            }
            check_cases(registry, expr, cases, errors);
            proof {
                let fv = check_faults(*registry, **value);
                let fc = case_faults(*registry, cases@);
                lemma_reported_then(e1, e2, errors@, fv, fc);
                lemma_reported_then(e0, e1, errors@, own, fv + fc);
            }
        },
    }
}

/// Reports the faults of each of `items`, in order.
fn check_all(registry: &TypeRegistry, parent: &TypedExpr, items: &Vec<TypedExpr>, errors: &mut Vec<SemanticError>)
    requires
        forall|i: int| 0 <= i < items@.len() ==> decreases_to!(*parent => #[trigger] items@[i]),
    ensures
        faults_reported(old(errors)@, final(errors)@, all_faults(*registry, items@)),
    decreases parent, 0int,
{
    let ghost e0 = errors@;
    proof {
        lemma_reported_none(e0);
        assert(items@.take(0) =~= Seq::<TypedExpr>::empty());
    }
    let mut i: usize = 0;
    while i < items.len()
        invariant
            0 <= i <= items@.len(),
            forall|j: int| 0 <= j < items@.len() ==> decreases_to!(*parent => #[trigger] items@[j]),
            faults_reported(e0, errors@, all_faults(*registry, items@.take(i as int))),
        decreases items.len() - i,
    {
        let ghost before = errors@;
        check_expr(registry, &items[i], errors);
        proof {
            assert(items@.take(i as int + 1).drop_last() =~= items@.take(i as int));
            lemma_reported_then(
                e0,
                before,
                errors@,
                all_faults(*registry, items@.take(i as int)),
                check_faults(*registry, items@[i as int]),
            );
        }
        i = i + 1;
    }
    proof {
        assert(items@.take(items@.len() as int) =~= items@);
    }
}

/// Reports the faults of each of `bindings`, in order.
fn check_bindings(registry: &TypeRegistry, parent: &TypedExpr, bindings: &Vec<TypedBinding>, errors: &mut Vec<SemanticError>)
    requires
        forall|i: int| 0 <= i < bindings@.len() ==> decreases_to!(*parent => #[trigger] bindings@[i]),
    ensures
        faults_reported(old(errors)@, final(errors)@, binding_faults(*registry, bindings@)),
    decreases parent, 0int,
{
    let ghost e0 = errors@;
    proof {
        lemma_reported_none(e0);
        assert(bindings@.take(0) =~= Seq::<TypedBinding>::empty());
    }
    let mut i: usize = 0;
    while i < bindings.len()
        invariant
            0 <= i <= bindings@.len(),
            forall|j: int| 0 <= j < bindings@.len() ==> decreases_to!(*parent => #[trigger] bindings@[j]),
            faults_reported(e0, errors@, binding_faults(*registry, bindings@.take(i as int))),
        decreases bindings.len() - i,
    {
        let ghost before = errors@;
        check_let_binding(registry, &bindings[i], errors);
        proof {
            let b = bindings@[i as int];
            assert(bindings@.take(i as int + 1).drop_last() =~= bindings@.take(i as int));
            lemma_reported_then(
                e0,
                before,
                errors@,
                binding_faults(*registry, bindings@.take(i as int)),
                annotation_faults(*registry, b.type_annotation, b.initializer) + check_faults(*registry, b.initializer),
            );
            assert(binding_faults(*registry, bindings@.take(i as int))
                + (annotation_faults(*registry, b.type_annotation, b.initializer) + check_faults(*registry, b.initializer))
                =~= binding_faults(*registry, bindings@.take(i as int + 1)));
        }
        i = i + 1;
    }
    proof {
        assert(bindings@.take(bindings@.len() as int) =~= bindings@);
    }
}

/// Reports the faults of each `elif` branch: its condition, then its body.
fn check_elifs(registry: &TypeRegistry, parent: &TypedExpr, elifs: &Vec<TypedElif>, errors: &mut Vec<SemanticError>)
    requires
        forall|i: int| 0 <= i < elifs@.len() ==> decreases_to!(*parent => #[trigger] elifs@[i]),
    ensures
        faults_reported(old(errors)@, final(errors)@, elif_faults(*registry, elifs@)),
    decreases parent, 0int,
{
    let ghost e0 = errors@;
    proof {
        lemma_reported_none(e0);
        assert(elifs@.take(0) =~= Seq::<TypedElif>::empty());
    }
    let mut i: usize = 0;
    while i < elifs.len()
        invariant
            0 <= i <= elifs@.len(),
            forall|j: int| 0 <= j < elifs@.len() ==> decreases_to!(*parent => #[trigger] elifs@[j]),
            faults_reported(e0, errors@, elif_faults(*registry, elifs@.take(i as int))),
        decreases elifs.len() - i,
    {
        let ghost before = errors@;
        let branch = &elifs[i];
        proof {
            assert(decreases_to!(elifs@[i as int] => elifs@[i as int].condition));
            assert(decreases_to!(elifs@[i as int] => elifs@[i as int].body));
        }
        check_expr(registry, &branch.condition, errors);
        let ghost mid = errors@;
        check_expr(registry, &branch.body, errors);
        proof {
            let fc = check_faults(*registry, branch.condition);
            let fb = check_faults(*registry, branch.body);
            let prev = elif_faults(*registry, elifs@.take(i as int));
            assert(elifs@.take(i as int + 1).drop_last() =~= elifs@.take(i as int));
            lemma_reported_then(e0, before, mid, prev, fc);
            lemma_reported_then(e0, mid, errors@, prev + fc, fb);
        }
        i = i + 1;
    }
    proof {
        assert(elifs@.take(elifs@.len() as int) =~= elifs@);
    }
}

/// Reports the faults of the body of each `match` case.
fn check_cases(registry: &TypeRegistry, parent: &TypedExpr, cases: &Vec<TypedCase>, errors: &mut Vec<SemanticError>)
    requires
        forall|i: int| 0 <= i < cases@.len() ==> decreases_to!(*parent => #[trigger] cases@[i]),
    ensures
        faults_reported(old(errors)@, final(errors)@, case_faults(*registry, cases@)),
    decreases parent, 0int,
{
    let ghost e0 = errors@;
    proof {
        lemma_reported_none(e0);
        assert(cases@.take(0) =~= Seq::<TypedCase>::empty());
    }
    let mut i: usize = 0;
    while i < cases.len()
        invariant
            0 <= i <= cases@.len(),
            forall|j: int| 0 <= j < cases@.len() ==> decreases_to!(*parent => #[trigger] cases@[j]),
            faults_reported(e0, errors@, case_faults(*registry, cases@.take(i as int))),
        decreases cases.len() - i,
    {
        let ghost before = errors@;
        proof {
            assert(decreases_to!(cases@[i as int] => cases@[i as int].body));
        }
        check_expr(registry, &cases[i].body, errors);
        proof {
            assert(cases@.take(i as int + 1).drop_last() =~= cases@.take(i as int));
            lemma_reported_then(
                e0,
                before,
                errors@,
                case_faults(*registry, cases@.take(i as int)),
                check_faults(*registry, cases@[i as int].body),
            );
        }
        i = i + 1;
    }
    proof {
        assert(cases@.take(cases@.len() as int) =~= cases@);
    }
}

/// Reports `NotConforming` at the initializer when its type does not conform
/// to the written annotation (see `annotation_faults`).
fn check_annotation(registry: &TypeRegistry, ann: &Option<TypeRef>, init: &TypedExpr, errors: &mut Vec<SemanticError>)
    ensures
        faults_reported(old(errors)@, final(errors)@, annotation_faults(*registry, *ann, *init)),
{
    let ghost e0 = errors@;
    match ann {
        Some(a) => {
            let expected = resolve_type_ref(a);
            check_conformance(registry, &init.anno, &expected, init.span, errors);
            proof {
                if conforms(*registry, init.anno, expected, conformance_depth(*registry)) {
                    lemma_reported_none(e0);
                } else {
                    lemma_reported_one(
                        e0,
                        errors@.last(),
                        CheckFault::Annotation { found: init.anno, expected, span: init.span },
                    );
                    assert(errors@ =~= e0.push(errors@.last()));
                }
            }
        },
        None => {
            proof {
                lemma_reported_none(e0);
            }
        },
    }
}

/// Reports `UnknownMember` at `object` when `member` is an attribute of the
/// type of `object` and `object` is not `self` (see `privacy_faults`).
fn check_privacy(registry: &TypeRegistry, object: &TypedExpr, member: &String, errors: &mut Vec<SemanticError>)
    ensures
        faults_reported(old(errors)@, final(errors)@, privacy_faults(*registry, *object, member@)),
{
    let ghost e0 = errors@;
    proof {
        lemma_same_type_reflexive(object.anno);
    }
    match attribute_owner(registry, &object.anno, member.as_str()) {
        Some(owner) => {
            let hidden = match &object.kind {
                TypedKind::SelfRef => !types_equal(&object.anno, &owner),
                _ => true,
            };
            if hidden {
                errors.push(
                    SemanticError::error(SemanticErrorKind::UnknownMember { ty: owner, member: member.clone() }, object.span),
                );
                proof {
                    lemma_reported_one(
                        e0,
                        errors@.last(),
                        CheckFault::Hidden { owner: object.anno, member: member@, span: object.span },
                    );
                    assert(errors@ =~= e0.push(errors@.last()));
                }
            } else {
                proof {
                    lemma_reported_none(e0);
                }
            }
        },
        None => {
            proof {
                lemma_reported_none(e0);
            }
        },
    }
}

/// Checks a `let` binding: its annotation against the type of its
/// initializer, then the initializer itself.
pub fn check_let_binding(registry: &TypeRegistry, binding: &TypedBinding, errors: &mut Vec<SemanticError>)
    ensures
        faults_reported(
            old(errors)@,
            final(errors)@,
            annotation_faults(*registry, binding.type_annotation, binding.initializer) + check_faults(*registry, binding.initializer),
        ),
    decreases binding, 0int,
{
    let ghost e0 = errors@;
    check_annotation(registry, &binding.type_annotation, &binding.initializer, errors);
    let ghost e1 = errors@;
    check_expr(registry, &binding.initializer, errors);
    proof {
        lemma_reported_then(
            e0,
            e1,
            errors@,
            annotation_faults(*registry, binding.type_annotation, binding.initializer),
            check_faults(*registry, binding.initializer),
        );
    }
}

/// Checks the expressions inside an assignment target.
pub fn check_assign_target(registry: &TypeRegistry, target: &TypedTarget, errors: &mut Vec<SemanticError>)
    ensures
        faults_reported(old(errors)@, final(errors)@, target_faults(*registry, *target)),
    decreases target, 0int,
{
    let ghost e0 = errors@;
    match target {
        TypedTarget::Variable(_) => {
            proof {
                lemma_reported_none(e0);
            }
        },
        TypedTarget::Member { object, field: _ } => {
            check_expr(registry, object, errors);
        },
        TypedTarget::Index { object, index } => {
            check_expr(registry, object, errors);
            let ghost e1 = errors@;
            check_expr(registry, index, errors);
            proof {
                lemma_reported_then(e0, e1, errors@, check_faults(*registry, **object), check_faults(*registry, **index));
            }
        },
    }
}

/// Checks an attribute: its annotation against the type of its initializer,
/// then the initializer itself.
pub fn check_attribute(registry: &TypeRegistry, attr: &TypedAttribute, errors: &mut Vec<SemanticError>)
    ensures
        faults_reported(
            old(errors)@,
            final(errors)@,
            annotation_faults(*registry, attr.type_annotation, attr.initializer) + check_faults(*registry, attr.initializer),
        ),
{
    let ghost e0 = errors@;
    check_annotation(registry, &attr.type_annotation, &attr.initializer, errors);
    let ghost e1 = errors@;
    check_expr(registry, &attr.initializer, errors);
    proof {
        lemma_reported_then(
            e0,
            e1,
            errors@,
            annotation_faults(*registry, attr.type_annotation, attr.initializer),
            check_faults(*registry, attr.initializer),
        );
    }
}

/// The fault of a registered type `found` under the written annotation `ann`,
/// reported at `span`.
pub open spec fn registered_fault(reg: TypeRegistry, ann: Option<TypeRef>, found: Type, span: SourceSpan) -> Seq<CheckFault> {
    match ann {
        Some(a) => if conforms(reg, found, resolved_type(a), conformance_depth(reg)) {
            Seq::empty()
        } else {
            seq![CheckFault::Annotation { found, expected: resolved_type(a), span }]
        },
        None => Seq::empty(),
    }
}

/// The faults of the first `n` parameters against the registered parameter
/// types, position by position.
pub open spec fn parameter_faults(reg: TypeRegistry, params: Seq<Param>, registered: Seq<(String, Type)>, n: nat, span: SourceSpan) -> Seq<CheckFault>
    decreases n,
{
    if n == 0 {
        Seq::empty()
    } else {
        parameter_faults(reg, params, registered, (n - 1) as nat, span)
            + registered_fault(reg, params[n - 1].type_annotation, registered[n - 1].1, span)
    }
}

/// The faults of a function or method against its registered signature: the
/// return annotation, then each annotated parameter (as far as both lists
/// go), all at the body; then those of the body.
pub open spec fn function_faults(reg: TypeRegistry, func: TypedFunction, registered: Seq<(String, Type)>, ret: Type) -> Seq<CheckFault> {
    let n = if func.params@.len() < registered.len() { func.params@.len() } else { registered.len() };
    registered_fault(reg, func.return_type, ret, func.body.span) + parameter_faults(reg, func.params@, registered, n, func.body.span)
        + check_faults(reg, func.body)
}

/// Reports `NotConforming` at `span` when the registered type `found` does
/// not conform to the annotation `ann`.
fn check_registered(registry: &TypeRegistry, ann: &Option<TypeRef>, found: &Type, span: SourceSpan, errors: &mut Vec<SemanticError>)
    ensures
        faults_reported(old(errors)@, final(errors)@, registered_fault(*registry, *ann, *found, span)),
{
    let ghost e0 = errors@;
    match ann {
        Some(a) => {
            let expected = resolve_type_ref(a);
            check_conformance(registry, found, &expected, span, errors);
            proof {
                if conforms(*registry, *found, expected, conformance_depth(*registry)) {
                    lemma_reported_none(e0);
                } else {
                    lemma_reported_one(e0, errors@.last(), CheckFault::Annotation { found: *found, expected, span });
                    assert(errors@ =~= e0.push(errors@.last()));
                }
            }
        },
        None => {
            proof {
                lemma_reported_none(e0);
            }
        },
    }
}

/// Checks a declaration against its registered signature (see `function_faults`).
fn check_signature(
    registry: &TypeRegistry,
    func: &TypedFunction,
    registered: &Vec<(String, Type)>,
    ret: &Type,
    errors: &mut Vec<SemanticError>,
)
    ensures
        faults_reported(old(errors)@, final(errors)@, function_faults(*registry, *func, registered@, *ret)),
{
    let ghost e0 = errors@;
    let span = func.body.span;
    check_registered(registry, &func.return_type, ret, span, errors);
    let ghost e1 = errors@;
    let n: usize = if func.params.len() < registered.len() { func.params.len() } else { registered.len() };
    let mut i: usize = 0;
    proof {
        lemma_reported_none(e1);
    }
    while i < n
        invariant
            0 <= i <= n,
            n <= func.params@.len(),
            n <= registered@.len(),
            faults_reported(e1, errors@, parameter_faults(*registry, func.params@, registered@, i as nat, span)),
        decreases n - i,
    {
        let ghost before = errors@;
        check_registered(registry, &func.params[i].type_annotation, &registered[i].1, span, errors);
        proof {
            lemma_reported_then(
                e1,
                before,
                errors@,
                parameter_faults(*registry, func.params@, registered@, i as nat, span),
                registered_fault(*registry, func.params@[i as int].type_annotation, registered@[i as int].1, span),
            );
        }
        i = i + 1;
    }
    let ghost e2 = errors@;
    check_expr(registry, &func.body, errors);
    proof {
        let fr = registered_fault(*registry, func.return_type, *ret, span);
        let fp = parameter_faults(*registry, func.params@, registered@, n as nat, span);
        lemma_reported_then(e0, e1, e2, fr, fp);
        lemma_reported_then(e0, e2, errors@, fr + fp, check_faults(*registry, func.body));
    }
}

/// Checks a global function against its registered signature, which must
/// exist: its annotations, then its body (see `function_faults`).
pub fn check_function(registry: &TypeRegistry, func: &TypedFunction, errors: &mut Vec<SemanticError>)
    requires
        map_get(registry.functions@, func.name@) is Some,
    ensures
        faults_reported(
            old(errors)@,
            final(errors)@,
            function_faults(
                *registry,
                *func,
                registry.functions@[func.name@].params@,
                registry.functions@[func.name@].return_type,
            ),
        ),
{
    match registry.lookup_function(func.name.as_str()) {
        Some(sig) => check_signature(registry, func, &sig.params, &sig.return_type, errors),
        None => {},
    }
}

/// Checks a method of the type `owner_name` against its signature in the
/// type's flattened method table, which must exist (see `function_faults`).
pub fn check_method(registry: &TypeRegistry, owner_name: &str, method: &TypedFunction, errors: &mut Vec<SemanticError>)
    requires
        map_get(registry.types@, owner_name@) is Some,
        registry.types@[owner_name@].flattened_methods@.contains_key(method.name@),
    ensures
        faults_reported(
            old(errors)@,
            final(errors)@,
            function_faults(
                *registry,
                *method,
                registry.types@[owner_name@].flattened_methods@[method.name@].params@,
                registry.types@[owner_name@].flattened_methods@[method.name@].return_type,
            ),
        ),
{
    match registry.lookup_type(owner_name) {
        Some(info) => match info.flattened_methods.get(method.name.as_str()) {
            Some(sig) => check_signature(registry, method, &sig.params, &sig.return_type, errors),
            None => {},
        },
        None => {},
    }
}

/// Every function declaration of `ds` has a registered signature, and every
/// method of a type declaration is in its type's flattened method table.
pub open spec fn declarations_registered(reg: TypeRegistry, ds: Seq<TypedDeclaration>) -> bool {
    forall|i: int| 0 <= i < ds.len() ==> match (#[trigger] ds[i]).kind {
        TypedDeclarationKind::Function(f) => map_get(reg.functions@, f.name@) is Some,
        TypedDeclarationKind::Type(t) => members_registered(reg, t.name@, t.members@),
        TypedDeclarationKind::Protocol(_) => true,
    }
}

/// Every method of `ms` is in the flattened method table of the type `owner`.
pub open spec fn members_registered(reg: TypeRegistry, owner: Seq<char>, ms: Seq<TypedMember>) -> bool {
    forall|j: int| 0 <= j < ms.len() ==> match (#[trigger] ms[j]).kind {
        TypedMemberKind::Method(m) => map_get(reg.types@, owner) is Some && reg.types@[owner].flattened_methods@.contains_key(m.name@),
        TypedMemberKind::Attribute(_) => true,
    }
}

/// The faults of the members of the type `owner`, in order: for an attribute
/// those of `check_attribute`, for a method those against its signature in
/// the flattened table.
pub open spec fn member_faults(reg: TypeRegistry, owner: Seq<char>, ms: Seq<TypedMember>) -> Seq<CheckFault>
    decreases ms.len(),
{
    if ms.len() == 0 {
        Seq::empty()
    } else {
        member_faults(reg, owner, ms.drop_last()) + match ms.last().kind {
            TypedMemberKind::Attribute(a) => annotation_faults(reg, a.type_annotation, a.initializer) + check_faults(
                reg,
                a.initializer,
            ),
            TypedMemberKind::Method(m) => function_faults(
                reg,
                m,
                reg.types@[owner].flattened_methods@[m.name@].params@,
                reg.types@[owner].flattened_methods@[m.name@].return_type,
            ),
        }
    }
}

/// The faults of declarations, in order: functions against their registered
/// signatures, the members of types; protocols have none.
pub open spec fn declaration_faults(reg: TypeRegistry, ds: Seq<TypedDeclaration>) -> Seq<CheckFault>
    decreases ds.len(),
{
    if ds.len() == 0 {
        Seq::empty()
    } else {
        declaration_faults(reg, ds.drop_last()) + match ds.last().kind {
            TypedDeclarationKind::Function(f) => function_faults(
                reg,
                f,
                reg.functions@[f.name@].params@,
                reg.functions@[f.name@].return_type,
            ),
            TypedDeclarationKind::Type(t) => member_faults(reg, t.name@, t.members@),
            TypedDeclarationKind::Protocol(_) => Seq::empty(),
        }
    }
}

/// The faults of a whole program: those of its declarations, then those of
/// its entry expression.
pub open spec fn program_faults(reg: TypeRegistry, p: TypedProgram) -> Seq<CheckFault> {
    declaration_faults(reg, p.declarations@) + check_faults(reg, p.entry)
}

/// Checks the members of the type `owner` (see `member_faults`).
fn check_members(registry: &TypeRegistry, owner: &str, members: &Vec<TypedMember>, errors: &mut Vec<SemanticError>)
    requires
        members_registered(*registry, owner@, members@),
    ensures
        faults_reported(old(errors)@, final(errors)@, member_faults(*registry, owner@, members@)),
{
    let ghost e0 = errors@;
    proof {
        lemma_reported_none(e0);
        assert(members@.take(0) =~= Seq::<TypedMember>::empty());
    }
    let mut i: usize = 0;
    while i < members.len()
        invariant
            0 <= i <= members@.len(),
            members_registered(*registry, owner@, members@),
            faults_reported(e0, errors@, member_faults(*registry, owner@, members@.take(i as int))),
        decreases members.len() - i,
    {
        let ghost before = errors@;
        let member = &members[i];
        proof {
            assert(members@.take(i as int + 1).drop_last() =~= members@.take(i as int));
            assert(members@.take(i as int + 1).last() == *member);
        }
        match &member.kind {
            TypedMemberKind::Attribute(attr) => {
                check_attribute(registry, attr, errors);
            },
            TypedMemberKind::Method(method) => {
                proof {
                    assert(match members@[i as int].kind {
                        TypedMemberKind::Method(m) => map_get(registry.types@, owner@) is Some
                            && registry.types@[owner@].flattened_methods@.contains_key(m.name@),
                        TypedMemberKind::Attribute(_) => true,
                    });
                }
                check_method(registry, owner, method, errors);
            },
        }
        proof {
            let prev = member_faults(*registry, owner@, members@.take(i as int));
            let now = member_faults(*registry, owner@, members@.take(i as int + 1));
            let piece = now.subrange(prev.len() as int, now.len() as int);
            assert(now =~= prev + piece);
            lemma_reported_then(e0, before, errors@, prev, piece);
        }
        i = i + 1;
    }
    proof {
        assert(members@.take(members@.len() as int) =~= members@);
    }
}

/// The checking pass over a whole program: each declaration in order, then
/// the entry expression (see `program_faults`). Every function and method
/// must have its signature registered.
pub fn check_program(registry: &TypeRegistry, program: &TypedProgram, errors: &mut Vec<SemanticError>)
    requires
        declarations_registered(*registry, program.declarations@),
    ensures
        faults_reported(old(errors)@, final(errors)@, program_faults(*registry, *program)),
{
    let ghost e0 = errors@;
    let decls = &program.declarations;
    proof {
        lemma_reported_none(e0);
        assert(decls@.take(0) =~= Seq::<TypedDeclaration>::empty());
    }
    let mut i: usize = 0;
    while i < decls.len()
        invariant
            0 <= i <= decls@.len(),
            decls@ == program.declarations@,
            declarations_registered(*registry, decls@),
            faults_reported(e0, errors@, declaration_faults(*registry, decls@.take(i as int))),
        decreases decls.len() - i,
    {
        let ghost before = errors@;
        let decl = &decls[i];
        proof {
            assert(decls@.take(i as int + 1).drop_last() =~= decls@.take(i as int));
            assert(decls@.take(i as int + 1).last() == *decl);
        }
        proof {
            assert(match decls@[i as int].kind {
                TypedDeclarationKind::Function(f) => map_get(registry.functions@, f.name@) is Some,
                TypedDeclarationKind::Type(t) => members_registered(*registry, t.name@, t.members@),
                TypedDeclarationKind::Protocol(_) => true,
            });
        }
        match &decl.kind {
            TypedDeclarationKind::Function(func) => {
                check_function(registry, func, errors);
            },
            TypedDeclarationKind::Type(ty) => {
                check_members(registry, ty.name.as_str(), &ty.members, errors);
            },
            TypedDeclarationKind::Protocol(_) => {
                proof {
                    lemma_reported_none(errors@);
                }
            },
        }
        proof {
            let prev = declaration_faults(*registry, decls@.take(i as int));
            let now = declaration_faults(*registry, decls@.take(i as int + 1));
            let piece = now.subrange(prev.len() as int, now.len() as int);
            assert(now =~= prev + piece);
            lemma_reported_then(e0, before, errors@, prev, piece);
        }
        i = i + 1;
    }
    proof {
        assert(decls@.take(decls@.len() as int) =~= decls@);
    }
    let ghost e1 = errors@;
    check_expr(registry, &program.entry, errors);
    proof {
        lemma_reported_then(
            e0,
            e1,
            errors@,
            declaration_faults(*registry, program.declarations@),
            check_faults(*registry, program.entry),
        );
    }
}

/// Every node of `e` has a resolved type (none is still unknown).
pub open spec fn fully_typed(e: TypedExpr) -> bool
    decreases e,
{
    !(e.anno is Unknown) && match e.kind {
        TypedKind::Literal(_) => true,
        TypedKind::Variable(_) => true,
        TypedKind::SelfRef => true,
        TypedKind::BaseRef => true,
        TypedKind::Unary { op: _, expr } => fully_typed(*expr),
        TypedKind::Binary { op: _, left, right } => fully_typed(*left) && fully_typed(*right),
        TypedKind::Let { bindings, body } => bindings_typed(bindings@) && fully_typed(*body),
        TypedKind::Assign { target, value } => target_typed(target) && fully_typed(*value),
        TypedKind::Block(items) => all_typed(items@),
        TypedKind::If { condition, then_branch, elifs, else_branch } => fully_typed(*condition) && fully_typed(*then_branch)
            && elifs_typed(elifs@) && fully_typed(*else_branch),
        TypedKind::While { condition, body } => fully_typed(*condition) && fully_typed(*body),
        TypedKind::For { var: _, iterable, body } => fully_typed(*iterable) && fully_typed(*body),
        TypedKind::Call { callee, args } => fully_typed(*callee) && all_typed(args@),
        TypedKind::Member { object, member: _ } => fully_typed(*object),
        TypedKind::New { type_ref: _, args } => all_typed(args@),
        TypedKind::TypeTest { expr, type_ref: _ } => fully_typed(*expr),
        TypedKind::Downcast { expr, type_ref: _ } => fully_typed(*expr),
        TypedKind::VectorLiteral(items) => all_typed(items@),
        TypedKind::Comprehension { expr, var: _, iterable } => fully_typed(*expr) && fully_typed(*iterable),
        TypedKind::Index { object, index } => fully_typed(*object) && fully_typed(*index),
        TypedKind::Match { value, cases } => fully_typed(*value) && cases_typed(cases@),
    }
}

/// Every expression of `es` is fully typed.
pub open spec fn all_typed(es: Seq<TypedExpr>) -> bool
    decreases es,
{
    es.len() == 0 || (all_typed(es.drop_last()) && fully_typed(es.last()))
}

/// Every initializer of `bs` is fully typed.
pub open spec fn bindings_typed(bs: Seq<TypedBinding>) -> bool
    decreases bs,
{
    bs.len() == 0 || (bindings_typed(bs.drop_last()) && fully_typed(bs.last().initializer))
}

/// Every condition and body of `es` is fully typed.
pub open spec fn elifs_typed(es: Seq<TypedElif>) -> bool
    decreases es,
{
    es.len() == 0 || (elifs_typed(es.drop_last()) && fully_typed(es.last().condition) && fully_typed(es.last().body))
}

/// Every case body of `cs` is fully typed.
pub open spec fn cases_typed(cs: Seq<TypedCase>) -> bool
    decreases cs,
{
    cs.len() == 0 || (cases_typed(cs.drop_last()) && fully_typed(cs.last().body))
}

/// Every expression inside the target `t` is fully typed.
pub open spec fn target_typed(t: TypedTarget) -> bool
    decreases t,
{
    match t {
        TypedTarget::Variable(_) => true,
        TypedTarget::Member { object, field: _ } => fully_typed(*object),
        TypedTarget::Index { object, index } => fully_typed(*object) && fully_typed(*index),
    }
}

/// An expression on which the checks report nothing is fully typed.
pub proof fn lemma_unfaulted_is_typed(reg: TypeRegistry, e: TypedExpr)
    requires
        check_faults(reg, e).len() == 0,
    ensures
        fully_typed(e),
    decreases e,
{
    match e.kind {
        TypedKind::Literal(_) => {},
        TypedKind::Variable(_) => {},
        TypedKind::SelfRef => {},
        TypedKind::BaseRef => {},
        TypedKind::Unary { op: _, expr } => {
            lemma_unfaulted_is_typed(reg, *expr);
        },
        TypedKind::Binary { op: _, left, right } => {
            lemma_unfaulted_is_typed(reg, *left);
            lemma_unfaulted_is_typed(reg, *right);
        },
        TypedKind::Let { bindings, body } => {
            lemma_unfaulted_bindings(reg, bindings@);
            lemma_unfaulted_is_typed(reg, *body);
        },
        TypedKind::Assign { target, value } => {
            lemma_unfaulted_target(reg, target);
            lemma_unfaulted_is_typed(reg, *value);
        },
        TypedKind::Block(items) => {
            lemma_unfaulted_all(reg, items@);
        },
        TypedKind::If { condition, then_branch, elifs, else_branch } => {
            lemma_unfaulted_is_typed(reg, *condition);
            lemma_unfaulted_is_typed(reg, *then_branch);
            lemma_unfaulted_elifs(reg, elifs@);
            lemma_unfaulted_is_typed(reg, *else_branch);
        },
        TypedKind::While { condition, body } => {
            lemma_unfaulted_is_typed(reg, *condition);
            lemma_unfaulted_is_typed(reg, *body);
        },
        TypedKind::For { var: _, iterable, body } => {
            lemma_unfaulted_is_typed(reg, *iterable);
            lemma_unfaulted_is_typed(reg, *body);
        },
        TypedKind::Call { callee, args } => {
            lemma_unfaulted_is_typed(reg, *callee);
            lemma_unfaulted_all(reg, args@);
        },
        TypedKind::Member { object, member: _ } => {
            lemma_unfaulted_is_typed(reg, *object);
        },
        TypedKind::New { type_ref: _, args } => {
            lemma_unfaulted_all(reg, args@);
        },
        TypedKind::TypeTest { expr, type_ref: _ } => {
            lemma_unfaulted_is_typed(reg, *expr);
        },
        TypedKind::Downcast { expr, type_ref: _ } => {
            lemma_unfaulted_is_typed(reg, *expr);
        },
        TypedKind::VectorLiteral(items) => {
            lemma_unfaulted_all(reg, items@);
        },
        TypedKind::Comprehension { expr, var: _, iterable } => {
            lemma_unfaulted_is_typed(reg, *expr);
            lemma_unfaulted_is_typed(reg, *iterable);
        },
        TypedKind::Index { object, index } => {
            lemma_unfaulted_is_typed(reg, *object);
            lemma_unfaulted_is_typed(reg, *index);
        },
        TypedKind::Match { value, cases } => {
            lemma_unfaulted_is_typed(reg, *value);
            lemma_unfaulted_cases(reg, cases@);
        },
    }
}

proof fn lemma_unfaulted_all(reg: TypeRegistry, es: Seq<TypedExpr>)
    requires
        all_faults(reg, es).len() == 0,
    ensures
        all_typed(es),
    decreases es,
{
    if es.len() > 0 {
        lemma_unfaulted_all(reg, es.drop_last());
        lemma_unfaulted_is_typed(reg, es.last());
    }
}

proof fn lemma_unfaulted_bindings(reg: TypeRegistry, bs: Seq<TypedBinding>)
    requires
        binding_faults(reg, bs).len() == 0,
    ensures
        bindings_typed(bs),
    decreases bs,
{
    if bs.len() > 0 {
        lemma_unfaulted_bindings(reg, bs.drop_last());
        lemma_unfaulted_is_typed(reg, bs.last().initializer);
    }
}

proof fn lemma_unfaulted_elifs(reg: TypeRegistry, es: Seq<TypedElif>)
    requires
        elif_faults(reg, es).len() == 0,
    ensures
        elifs_typed(es),
    decreases es,
{
    if es.len() > 0 {
        lemma_unfaulted_elifs(reg, es.drop_last());
        lemma_unfaulted_is_typed(reg, es.last().condition);
        lemma_unfaulted_is_typed(reg, es.last().body);
    }
}

proof fn lemma_unfaulted_cases(reg: TypeRegistry, cs: Seq<TypedCase>)
    requires
        case_faults(reg, cs).len() == 0,
    ensures
        cases_typed(cs),
    decreases cs,
{
    if cs.len() > 0 {
        lemma_unfaulted_cases(reg, cs.drop_last());
        lemma_unfaulted_is_typed(reg, cs.last().body);
    }
}

proof fn lemma_unfaulted_target(reg: TypeRegistry, t: TypedTarget)
    requires
        target_faults(reg, t).len() == 0,
    ensures
        target_typed(t),
    decreases t,
{
    match t {
        TypedTarget::Variable(_) => {},
        TypedTarget::Member { object, field: _ } => {
            lemma_unfaulted_is_typed(reg, *object);
        },
        TypedTarget::Index { object, index } => {
            lemma_unfaulted_is_typed(reg, *object);
            lemma_unfaulted_is_typed(reg, *index);
        },
    }
}

/// Every initializer and method body among the members `ms` is fully typed.
pub open spec fn members_typed(ms: Seq<TypedMember>) -> bool {
    forall|j: int| 0 <= j < ms.len() ==> match (#[trigger] ms[j]).kind {
        TypedMemberKind::Attribute(a) => fully_typed(a.initializer),
        TypedMemberKind::Method(m) => fully_typed(m.body),
    }
}

/// Every function body, attribute initializer and method body among the
/// declarations `ds` is fully typed.
pub open spec fn declarations_typed(ds: Seq<TypedDeclaration>) -> bool {
    forall|i: int| 0 <= i < ds.len() ==> match (#[trigger] ds[i]).kind {
        TypedDeclarationKind::Function(f) => fully_typed(f.body),
        TypedDeclarationKind::Type(t) => members_typed(t.members@),
        TypedDeclarationKind::Protocol(_) => true,
    }
}

/// Every expression of `p` (entry, bodies, initializers) is fully typed.
pub open spec fn program_typed(p: TypedProgram) -> bool {
    declarations_typed(p.declarations@) && fully_typed(p.entry)
}

proof fn lemma_unfaulted_members(reg: TypeRegistry, owner: Seq<char>, ms: Seq<TypedMember>)
    requires
        member_faults(reg, owner, ms).len() == 0,
    ensures
        members_typed(ms),
    decreases ms.len(),
{
    if ms.len() > 0 {
        lemma_unfaulted_members(reg, owner, ms.drop_last());
        match ms.last().kind {
            TypedMemberKind::Attribute(a) => {
                lemma_unfaulted_is_typed(reg, a.initializer);
            },
            TypedMemberKind::Method(m) => {
                lemma_unfaulted_is_typed(reg, m.body);
            },
        }
        assert forall|j: int| 0 <= j < ms.len() - 1 implies (#[trigger] ms[j]) == ms.drop_last()[j] by {}
    }
}

proof fn lemma_unfaulted_declarations(reg: TypeRegistry, ds: Seq<TypedDeclaration>)
    requires
        declaration_faults(reg, ds).len() == 0,
    ensures
        declarations_typed(ds),
    decreases ds.len(),
{
    if ds.len() > 0 {
        lemma_unfaulted_declarations(reg, ds.drop_last());
        match ds.last().kind {
            TypedDeclarationKind::Function(f) => {
                lemma_unfaulted_is_typed(reg, f.body);
            },
            TypedDeclarationKind::Type(t) => {
                lemma_unfaulted_members(reg, t.name@, t.members@);
            },
            TypedDeclarationKind::Protocol(_) => {},
        }
        assert forall|i: int| 0 <= i < ds.len() - 1 implies (#[trigger] ds[i]) == ds.drop_last()[i] by {}
    }
}

/// A program on which the checking pass reports nothing has a resolved type
/// at every node of its entry expression, its function bodies, its attribute
/// initializers and its method bodies.
pub proof fn lemma_unfaulted_program_is_typed(reg: TypeRegistry, p: TypedProgram)
    requires
        program_faults(reg, p).len() == 0,
    ensures
        program_typed(p),
{
    lemma_unfaulted_declarations(reg, p.declarations@);
    lemma_unfaulted_is_typed(reg, p.entry);
}

} // verus!
