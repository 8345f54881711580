//! The outcome of semantic analysis: after the passes have run, the
//! diagnostics decide between a verified program (with its warnings) and
//! the list of hard errors.
use vstd::prelude::*;

use crate::semantic::check::{
    check_program, declarations_registered, lemma_unfaulted_program_is_typed, program_faults, program_typed, reports_fault,
};
use crate::semantic::error::{SemanticError, Severity};
use crate::semantic::hierarchy::{hierarchy_steps, run_hierarchy};
use crate::semantic::registry::TypeRegistry;
use crate::semantic::typed::TypedProgram;

verus! {

/// The result of a successful analysis: the registry with every resolved
/// signature, the typed program, and the warnings that were emitted.
#[derive(Debug)]
pub struct VerifiedProgram {
    pub registry: TypeRegistry,
    pub typed_program: TypedProgram,
    pub warnings: Vec<SemanticError>,
}

/// `e` is a hard error (not a warning).
pub open spec fn is_hard(e: SemanticError) -> bool {
    e.severity == Severity::Error
}

/// The hard errors of `es`, in order.
pub open spec fn hard_errors(es: Seq<SemanticError>) -> Seq<SemanticError> {
    es.filter(|e: SemanticError| is_hard(e))
}

/// The warnings of `es`, in order.
pub open spec fn warnings_of(es: Seq<SemanticError>) -> Seq<SemanticError> {
    es.filter(|e: SemanticError| !is_hard(e))
}

/// Does any of `errors` have the severity of an error?
pub fn has_hard_error(errors: &Vec<SemanticError>) -> (r: bool)
    ensures
        r == exists|i: int| 0 <= i < errors@.len() && is_hard(#[trigger] errors@[i]),
{
    let mut i: usize = 0;
    while i < errors.len()
        invariant
            0 <= i <= errors@.len(),
            forall|k: int| 0 <= k < i ==> !is_hard(#[trigger] errors@[k]),
        decreases errors.len() - i,
    {
        match errors[i].severity {
            Severity::Error => {
                return true;
            },
            Severity::Warning => {},
        }
        i = i + 1;
    }
    false
}

/// Separates the diagnostics of the passes: with no hard error the analysis
/// succeeds with `registry`, `typed_program` and the warnings; else it fails
/// with the hard errors. Both keep the order in which they were reported.
pub fn conclude(
    registry: TypeRegistry,
    typed_program: TypedProgram,
    errors: Vec<SemanticError>,
) -> (r: Result<VerifiedProgram, Vec<SemanticError>>)
    ensures
        match r {
            Ok(v) => hard_errors(errors@).len() == 0 && v.warnings@ == warnings_of(errors@) && v.registry == registry
                && v.typed_program == typed_program,
            Err(es) => hard_errors(errors@).len() > 0 && es@ == hard_errors(errors@),
        },
{
    let ghost all = errors@;
    let mut rest = errors;
    let mut hard: Vec<SemanticError> = Vec::new();
    let mut warnings: Vec<SemanticError> = Vec::new();
    let mut taken: usize = 0;
    let total: usize = rest.len();
    proof {
        reveal(Seq::filter);
        assert(all.take(0) =~= Seq::<SemanticError>::empty());
        assert(all.skip(0) =~= all);
    }
    while rest.len() > 0
        invariant
            0 <= taken <= all.len(),
            rest@ == all.skip(taken as int),
            rest@.len() + taken == all.len(),
            all.len() == total,
            hard@ == hard_errors(all.take(taken as int)),
            warnings@ == warnings_of(all.take(taken as int)),
        decreases rest.len(),
    {
        let e = rest.remove(0);
        proof {
            assert(all.take(taken as int + 1).drop_last() =~= all.take(taken as int));
            assert(all.take(taken as int + 1).last() == e);
            assert(rest@ =~= all.skip(taken as int + 1));
        }
        let ghost prefix = all.take(taken as int + 1);
        proof {
            reveal(Seq::filter);
            assert(hard_errors(prefix) == if is_hard(e) {
                hard_errors(prefix.drop_last()).push(e)
            } else {
                hard_errors(prefix.drop_last())
            });
            assert(warnings_of(prefix) == if !is_hard(e) {
                warnings_of(prefix.drop_last()).push(e)
            } else {
                warnings_of(prefix.drop_last())
            });
        }
        match e.severity {
            Severity::Error => {
                hard.push(e);
            },
            Severity::Warning => {
                warnings.push(e);
            },
        }
        taken = taken + 1;
    }
    proof {
        assert(all.take(taken as int) =~= all);
    }
    if hard.len() == 0 {
        Ok(VerifiedProgram { registry, typed_program, warnings })
    } else {
        Err(hard)
    }
}

/// Keeping the elements that all pass keeps them all; keeping those that
/// none passes keeps nothing.
proof fn lemma_filter_uniform(s: Seq<SemanticError>, pred: spec_fn(SemanticError) -> bool)
    ensures
        (forall|i: int| 0 <= i < s.len() ==> pred(#[trigger] s[i])) ==> s.filter(pred) == s,
        (forall|i: int| 0 <= i < s.len() ==> !pred(#[trigger] s[i])) ==> s.filter(pred) == Seq::<SemanticError>::empty(),
    decreases s.len(),
{
    reveal(Seq::filter);
    if s.len() > 0 {
        lemma_filter_uniform(s.drop_last(), pred);
        if forall|i: int| 0 <= i < s.len() ==> pred(#[trigger] s[i]) {
            assert(forall|i: int| 0 <= i < s.drop_last().len() ==> pred(#[trigger] s.drop_last()[i]) == pred(s[i]));
            assert(s.drop_last().push(s.last()) =~= s);
        }
        if forall|i: int| 0 <= i < s.len() ==> !pred(#[trigger] s[i]) {
            assert(forall|i: int| 0 <= i < s.drop_last().len() ==> pred(#[trigger] s.drop_last()[i]) == pred(s[i]));
        }
    }
}

/// The end of analysis once the program is typed: the checking pass over
/// `typed_program` (every function and method registered), then the split of
/// all diagnostics. With no hard error, before or from the checks, the
/// analysis succeeds with the warnings; else it fails with the hard errors
/// reported before, followed by those of the checks.
pub fn finish_analysis(
    registry: TypeRegistry,
    typed_program: TypedProgram,
    errors: Vec<SemanticError>,
) -> (r: Result<VerifiedProgram, Vec<SemanticError>>)
    requires
        declarations_registered(registry, typed_program.declarations@),
    ensures
        ({
            let faults = program_faults(registry, typed_program);
            let hard = hard_errors(errors@);
            match r {
                Ok(v) => hard.len() == 0 && faults.len() == 0 && v.warnings@ == warnings_of(errors@) && v.registry == registry
                    && v.typed_program == typed_program && program_typed(v.typed_program),
                Err(es) => hard.len() + faults.len() > 0 && es@.len() == hard.len() + faults.len() && es@.take(
                    hard.len() as int,
                ) == hard && forall|k: int| 0 <= k < faults.len() ==> reports_fault(es@[hard.len() + k], #[trigger] faults[k]),
            }
        }),
{
    let ghost e0 = errors@;
    let mut errors = errors;
    check_program(&registry, &typed_program, &mut errors);
    proof {
        let faults = program_faults(registry, typed_program);
        let checked = errors@;
        let tail = checked.skip(e0.len() as int);
        assert(checked =~= e0 + tail);
        assert forall|i: int| 0 <= i < tail.len() implies is_hard(#[trigger] tail[i]) by {
            assert(tail[i] == checked[e0.len() + i]);
            assert(reports_fault(checked[e0.len() + i], faults[i]));
        }
        assert forall|i: int| 0 <= i < tail.len() implies reports_fault(#[trigger] tail[i], faults[i]) by {
            assert(tail[i] == checked[e0.len() + i]);
        }
        lemma_filter_uniform(tail, |e: SemanticError| is_hard(e));
        lemma_filter_uniform(tail, |e: SemanticError| !is_hard(e));
        Seq::filter_distributes_over_add(e0, tail, |e: SemanticError| is_hard(e));
        Seq::filter_distributes_over_add(e0, tail, |e: SemanticError| !is_hard(e));
        assert(hard_errors(checked) =~= hard_errors(e0) + tail);
        assert(warnings_of(checked) =~= warnings_of(e0));
        if faults.len() == 0 {
            lemma_unfaulted_program_is_typed(registry, typed_program);
        }
    }
    conclude(registry, typed_program, errors)
}

/// The diagnostics a stage hands on, whether it stopped or not.
pub open spec fn stage_errors(r: Result<Vec<SemanticError>, Vec<SemanticError>>) -> Seq<SemanticError> {
    match r {
        Ok(es) => es@,
        Err(es) => es@,
    }
}

/// The hierarchy stage of analysis: runs the hierarchy pass on the collected
/// registry; a hard error among the diagnostics so far stops the analysis
/// (`Err` with all of them, warnings included), since a broken hierarchy
/// would only produce misleading errors later; else `Ok` with them.
pub fn hierarchy_stage(registry: &mut TypeRegistry, errors: Vec<SemanticError>) -> (r: Result<
    Vec<SemanticError>,
    Vec<SemanticError>,
>)
    ensures
        exists|r1: TypeRegistry, r2: TypeRegistry, e1: Seq<SemanticError>, e2: Seq<SemanticError>, e3: Seq<SemanticError>, e4: Seq<SemanticError>|
            #[trigger] hierarchy_steps(*old(registry), errors@, *final(registry), stage_errors(r), r1, r2, e1, e2, e3, e4),
        r is Err <==> exists|i: int| 0 <= i < stage_errors(r).len() && is_hard(#[trigger] stage_errors(r)[i]),
{
    let mut errors = errors;
    let ghost e0 = errors@;
    run_hierarchy(registry, &mut errors);
    proof {
        let (r1, r2, e1, e2, e3, e4) = choose|
            r1: TypeRegistry,
            r2: TypeRegistry,
            e1: Seq<SemanticError>,
            e2: Seq<SemanticError>,
            e3: Seq<SemanticError>,
            e4: Seq<SemanticError>,
        | #[trigger] hierarchy_steps(*old(registry), e0, *registry, errors@, r1, r2, e1, e2, e3, e4);
        assert(hierarchy_steps(*old(registry), e0, *registry, errors@, r1, r2, e1, e2, e3, e4));
    }
    let stop = has_hard_error(&errors);
    let ghost fin = errors@;
    let r = if stop {
        Err(errors)
    } else {
        Ok(errors)
    };
    proof {
        assert(stage_errors(r) == fin);
        assert(r is Err <==> exists|i: int| 0 <= i < fin.len() && is_hard(#[trigger] fin[i]));
    }
    r
}

} // verus!
