//! Protocol extension in the hierarchy pass: a protocol that extends another
//! keeps every method of it, each with parameter types that the parent's
//! conform to (contravariance) and a return type that conforms to the
//! parent's (covariance).
use vstd::prelude::*;

use crate::ast::SourceSpan;
use crate::name_map::NameMap;
use crate::semantic::conformance::{conformance_depth, conforms, conforms_to};
use crate::semantic::error::{SemanticError, SemanticErrorKind, Severity};
use crate::semantic::registry::{MethodSignature, ProtocolInfo, TypeRegistry};
use crate::semantic::types::{type_name_text, Type};
use crate::text::{decimal, decimal_text, texts};

verus! {

/// A diagnostic of protocol extension.
pub enum VarianceReport {
    /// A protocol extends a name that is not a registered protocol.
    Undefined { name: Seq<char>, span: SourceSpan },
    /// A method breaks the rules of extension, for the reason given.
    Invalid { method: Seq<char>, reason: Seq<char>, span: SourceSpan },
}

/// `e` is the error that reports `r`.
pub open spec fn reports_variance(e: SemanticError, r: VarianceReport) -> bool {
    &&& e.severity == Severity::Error
    &&& match r {
        VarianceReport::Undefined { name, span } => e.span == span && (e.kind matches SemanticErrorKind::UndefinedType(n)
            && n@ == name),
        VarianceReport::Invalid { method, reason, span } => e.span == span && (e.kind matches SemanticErrorKind::InvalidProtocolVariance { method: m, reason: why }
            && m@ == method && why@ == reason),
    }
}

/// `after` is `before` followed by one error for each report of `reports`, in order.
pub open spec fn variance_reported(before: Seq<SemanticError>, after: Seq<SemanticError>, reports: Seq<VarianceReport>) -> bool {
    &&& after.len() == before.len() + reports.len()
    &&& forall|k: int| 0 <= k < before.len() ==> #[trigger] after[k] == before[k]
    &&& forall|k: int| 0 <= k < reports.len() ==> reports_variance(after[before.len() + k], #[trigger] reports[k])
}

/// The first position from `i` on where the parent's parameter type does not
/// conform to the extension's.
pub open spec fn first_bad_param(reg: TypeRegistry, parent: Seq<(String, Type)>, own: Seq<(String, Type)>, i: int) -> Option<int>
    decreases parent.len() - i,
{
    if i < 0 || i >= parent.len() {
        None
    } else if !conforms(reg, parent[i].1, own[i].1, conformance_depth(reg)) {
        Some(i)
    } else {
        first_bad_param(reg, parent, own, i + 1)
    }
}

/// The reason an extension's signature `own` breaks the parent's signature
/// `parent`, if it does.
pub open spec fn signature_fault(reg: TypeRegistry, parent: MethodSignature, own: MethodSignature) -> Option<Seq<char>> {
    if own.params@.len() != parent.params@.len() {
        Some("parameter count mismatch: expected "@ + decimal_text(parent.params@.len()) + ", found "@ + decimal_text(
            own.params@.len(),
        ))
    } else {
        match first_bad_param(reg, parent.params@, own.params@, 0) {
            Some(k) => {
                let p = type_name_text(parent.params@[k].1);
                Some("parameter type mismatch: expected "@ + p + " (or supertype) for parameter of type "@ + p + ", but got "@
                    + type_name_text(own.params@[k].1))
            },
            None => if !conforms(reg, own.return_type, parent.return_type, conformance_depth(reg)) {
                Some("return type mismatch: expected "@ + type_name_text(parent.return_type) + " (or subtype) but got "@
                    + type_name_text(own.return_type))
            } else {
                None
            },
        }
    }
}

/// The reports for the methods `ms` (in order) of the parent protocol `pn` of
/// the protocol `proto`.
pub open spec fn method_variance_reports(reg: TypeRegistry, proto: ProtocolInfo, pn: Seq<char>, ms: Seq<Seq<char>>) -> Seq<VarianceReport>
    decreases ms.len(),
{
    if ms.len() == 0 {
        Seq::empty()
    } else {
        let rest = method_variance_reports(reg, proto, pn, ms.drop_last());
        let m = ms.last();
        let parent = reg.protocols@[pn].methods@[m];
        if !proto.methods@.contains_key(m) {
            rest.push(
                VarianceReport::Invalid {
                    method: m,
                    reason: "method `"@ + m + "` is required by parent protocol `"@ + pn + "` but not defined"@,
                    span: proto.span,
                },
            )
        } else {
            match signature_fault(reg, parent, proto.methods@[m]) {
                Some(reason) => rest.push(VarianceReport::Invalid { method: m, reason, span: proto.methods@[m].span }),
                None => rest,
            }
        }
    }
}

/// The reports for the parents `parents` (in order) of the protocol `proto`.
pub open spec fn parent_variance_reports(reg: TypeRegistry, proto: ProtocolInfo, parents: Seq<Seq<char>>) -> Seq<VarianceReport>
    decreases parents.len(),
{
    if parents.len() == 0 {
        Seq::empty()
    } else {
        let rest = parent_variance_reports(reg, proto, parents.drop_last());
        let pn = parents.last();
        if !reg.protocols@.contains_key(pn) {
            rest.push(VarianceReport::Undefined { name: pn, span: proto.span })
        } else {
            rest + method_variance_reports(reg, proto, pn, reg.protocols@[pn].methods.names())
        }
    }
}

/// The reports for the protocols `names`, in order.
pub open spec fn variance_reports(reg: TypeRegistry, names: Seq<Seq<char>>) -> Seq<VarianceReport>
    decreases names.len(),
{
    if names.len() == 0 {
        Seq::empty()
    } else {
        let proto = reg.protocols@[names.last()];
        variance_reports(reg, names.drop_last()) + parent_variance_reports(reg, proto, texts(proto.extends@))
    }
}

proof fn lemma_variance_push(before: Seq<SemanticError>, after: Seq<SemanticError>, reports: Seq<VarianceReport>, e: SemanticError, x: VarianceReport)
    requires
        variance_reported(before, after, reports),
        reports_variance(e, x),
    ensures
        variance_reported(before, after.push(e), reports.push(x)),
{
    assert forall|k: int| 0 <= k < reports.push(x).len() implies reports_variance(after.push(e)[before.len() + k], #[trigger] reports.push(x)[k]) by {
        if k < reports.len() {
            assert(reports.push(x)[k] == reports[k]);
        }
    }
    assert forall|k: int| 0 <= k < before.len() implies #[trigger] after.push(e)[k] == before[k] by {
        assert(after[k] == before[k]);
    }
}

proof fn lemma_variance_chain(a: Seq<SemanticError>, b: Seq<SemanticError>, c: Seq<SemanticError>, r1: Seq<VarianceReport>, r2: Seq<VarianceReport>)
    requires
        variance_reported(a, b, r1),
        variance_reported(b, c, r2),
    ensures
        variance_reported(a, c, r1 + r2),
{
    assert forall|k: int| 0 <= k < a.len() implies #[trigger] c[k] == a[k] by {
        assert(c[k] == b[k]);
        assert(b[k] == a[k]);
    }
    assert forall|k: int| 0 <= k < (r1 + r2).len() implies reports_variance(c[a.len() + k], #[trigger] (r1 + r2)[k]) by {
        if k < r1.len() {
            assert(r1[k] == (r1 + r2)[k]);
            assert(c[a.len() + k] == b[a.len() + k]);
        } else {
            assert(r2[k - r1.len()] == (r1 + r2)[k]);
        }
    }
}

/// Finds the reason `own` breaks `parent`, if it does (see `signature_fault`).
#[verifier::loop_isolation(false)]
fn find_signature_fault(registry: &TypeRegistry, parent: &MethodSignature, own: &MethodSignature) -> (r: Option<String>)
    ensures
        match r {
            Some(s) => signature_fault(*registry, *parent, *own) == Some(s@),
            None => signature_fault(*registry, *parent, *own) is None,
        },
{
    if own.params.len() != parent.params.len() {
        let mut reason = String::from_str("parameter count mismatch: expected ");
        reason.append(decimal(parent.params.len()).as_str());
        reason.append(", found ");
        reason.append(decimal(own.params.len()).as_str());
        return Some(reason);
    }
    let mut i: usize = 0;
    while i < parent.params.len()
        invariant
            0 <= i <= parent.params@.len(),
            own.params@.len() == parent.params@.len(),
            first_bad_param(*registry, parent.params@, own.params@, 0) == first_bad_param(
                *registry,
                parent.params@,
                own.params@,
                i as int,
            ),
        decreases parent.params.len() - i,
    {
        if !conforms_to(&parent.params[i].1, &own.params[i].1, registry) {
            let p = parent.params[i].1.to_string();
            let mut reason = String::from_str("parameter type mismatch: expected ");
            reason.append(p.as_str());
            reason.append(" (or supertype) for parameter of type ");
            reason.append(p.as_str());
            reason.append(", but got ");
            reason.append(own.params[i].1.to_string().as_str());
            return Some(reason);
        }
        i = i + 1;
    }
    if !conforms_to(&own.return_type, &parent.return_type, registry) {
        let mut reason = String::from_str("return type mismatch: expected ");
        reason.append(parent.return_type.to_string().as_str());
        reason.append(" (or subtype) but got ");
        reason.append(own.return_type.to_string().as_str());
        return Some(reason);
    }
    None
}

/// Checks one parent protocol `pn` of the protocol `proto`.
#[verifier::loop_isolation(false)]
fn check_parent_methods(
    registry: &TypeRegistry,
    proto: &ProtocolInfo,
    pn: &String,
    parent_methods: &NameMap<MethodSignature>,
    errors: &mut Vec<SemanticError>,
)
    requires
        registry.protocols@.contains_key(pn@),
        *parent_methods == registry.protocols@[pn@].methods,
    ensures
        variance_reported(old(errors)@, final(errors)@, method_variance_reports(*registry, *proto, pn@, parent_methods.names())),
{
    let ghost e0 = errors@;
    let names = parent_methods.keys();
    let ghost ms = parent_methods.names();
    let mut i: usize = 0;
    proof {
        assert(ms.take(0) =~= Seq::<Seq<char>>::empty());
    }
    while i < names.len()
        invariant
            0 <= i <= names@.len(),
            texts(names@) == ms,
            ms.to_set() == parent_methods@.dom(),
            variance_reported(e0, errors@, method_variance_reports(*registry, *proto, pn@, ms.take(i as int))),
        decreases names.len() - i,
    {
        let m = &names[i];
        let ghost before = method_variance_reports(*registry, *proto, pn@, ms.take(i as int));
        proof {
            assert(ms[i as int] == m@);
            assert(ms.take(i as int + 1).drop_last() =~= ms.take(i as int));
            assert(parent_methods@.contains_key(m@)) by {
                assert(ms.contains(m@));
                assert(ms.to_set().contains(m@));
            }
        }
        match parent_methods.get(m.as_str()) {
            Some(parent_sig) => match proto.methods.get(m.as_str()) {
                None => {
                    let mut reason = String::from_str("method `");
                    reason.append(m.as_str());
                    reason.append("` is required by parent protocol `");
                    reason.append(pn.as_str());
                    reason.append("` but not defined");
                    let e = SemanticError::error(
                        SemanticErrorKind::InvalidProtocolVariance { method: m.clone(), reason },
                        proto.span,
                    );
                    proof {
                        lemma_variance_push(
                            e0,
                            errors@,
                            before,
                            e,
                            VarianceReport::Invalid {
                                method: m@,
                                reason: "method `"@ + m@ + "` is required by parent protocol `"@ + pn@ + "` but not defined"@,
                                span: proto.span,
                            },
                        );
                    }
                    errors.push(e);
                },
                Some(own_sig) => match find_signature_fault(registry, parent_sig, own_sig) {
                    Some(reason) => {
                        let ghost why = reason@;
                        let e = SemanticError::error(
                            SemanticErrorKind::InvalidProtocolVariance { method: m.clone(), reason },
                            own_sig.span,
                        );
                        proof {
                            lemma_variance_push(
                                e0,
                                errors@,
                                before,
                                e,
                                VarianceReport::Invalid { method: m@, reason: why, span: own_sig.span },
                            );
                        }
                        errors.push(e);
                    },
                    None => {},
                },
            },
            None => {},
        }
        i = i + 1;
    }
    proof {
        assert(ms.take(i as int) =~= ms);
    }
}

/// Checks every protocol (in registration order) against the protocols it
/// extends (in the order written): each parent must be a registered protocol
/// (else `UndefinedType` at the protocol), and each of the parent's methods
/// must be kept (else an `InvalidProtocolVariance` at the protocol) with a
/// signature that `signature_fault` finds nothing wrong with (else an
/// `InvalidProtocolVariance` at the method).
#[verifier::loop_isolation(false)]
pub fn check_protocol_variance(registry: &TypeRegistry, errors: &mut Vec<SemanticError>)
    ensures
        variance_reported(old(errors)@, final(errors)@, variance_reports(*registry, registry.protocols.names())),
{
    let ghost e0 = errors@;
    let names = registry.protocols.keys();
    let ghost all = registry.protocols.names();
    let mut i: usize = 0;
    proof {
        assert(all.take(0) =~= Seq::<Seq<char>>::empty());
    }
    while i < names.len()
        invariant
            0 <= i <= names@.len(),
            texts(names@) == all,
            all.to_set() == registry.protocols@.dom(),
            variance_reported(e0, errors@, variance_reports(*registry, all.take(i as int))),
        decreases names.len() - i,
    {
        let name = &names[i];
        let ghost mid = errors@;
        proof {
            assert(all[i as int] == name@);
            assert(all.take(i as int + 1).drop_last() =~= all.take(i as int));
            assert(registry.protocols@.contains_key(name@)) by {
                assert(all.contains(name@));
                assert(all.to_set().contains(name@));
            }
        }
        match registry.protocols.get(name.as_str()) {
            Some(proto) => {
                let ghost parents = texts(proto.extends@);
                let mut j: usize = 0;
                proof {
                    assert(parents.take(0) =~= Seq::<Seq<char>>::empty());
                    assert(variance_reported(mid, errors@, Seq::empty()));
                }
                while j < proto.extends.len()
                    invariant
                        0 <= j <= proto.extends@.len(),
                        parents == texts(proto.extends@),
                        variance_reported(mid, errors@, parent_variance_reports(*registry, *proto, parents.take(j as int))),
                    decreases proto.extends.len() - j,
                {
                    let pn = &proto.extends[j];
                    let ghost before_parent = errors@;
                    proof {
                        assert(parents[j as int] == pn@);
                        assert(parents.take(j as int + 1).drop_last() =~= parents.take(j as int));
                    }
                    match registry.protocols.get(pn.as_str()) {
                        None => {
                            let e = SemanticError::error(SemanticErrorKind::UndefinedType(pn.clone()), proto.span);
                            proof {
                                lemma_variance_push(
                                    mid,
                                    errors@,
                                    parent_variance_reports(*registry, *proto, parents.take(j as int)),
                                    e,
                                    VarianceReport::Undefined { name: pn@, span: proto.span },
                                );
                            }
                            errors.push(e);
                        },
                        Some(parent) => {
                            check_parent_methods(registry, proto, pn, &parent.methods, errors);
                            proof {
                                lemma_variance_chain(
                                    mid,
                                    before_parent,
                                    errors@,
                                    parent_variance_reports(*registry, *proto, parents.take(j as int)),
                                    method_variance_reports(*registry, *proto, pn@, parent.methods.names()),
                                );
                            }
                        },
                    }
                    j = j + 1;
                }
                proof {
                    assert(parents.take(j as int) =~= parents);
                    lemma_variance_chain(
                        e0,
                        mid,
                        errors@,
                        variance_reports(*registry, all.take(i as int)),
                        parent_variance_reports(*registry, *proto, parents),
                    );
                }
            },
            None => {},
        }
        i = i + 1;
    }
    proof {
        assert(all.take(i as int) =~= all);
    }
}

} // verus!
