//! The typing rules of the inference pass for unary and binary operators: the
//! type of the result from the types of the operands, and the diagnostic for
//! operands an operator does not accept.
use vstd::prelude::*;

use crate::ast::{BinaryOp, SourceSpan, UnaryOp};
use crate::semantic::error::{SemanticError, SemanticErrorKind, Severity};
use crate::semantic::types::{same_type, Type};

verus! {

/// `t` is a number, or not inferred yet.
pub open spec fn numeric_or_unknown(t: Type) -> bool {
    t is Number || t is Unknown
}

/// `t` is a boolean, or not inferred yet.
pub open spec fn boolean_or_unknown(t: Type) -> bool {
    t is Boolean || t is Unknown
}

/// `t` can be concatenated: a number, a string, a boolean, or not inferred yet.
pub open spec fn printable_or_unknown(t: Type) -> bool {
    t is Number || t is String || t is Boolean || t is Unknown
}

/// The operands of `op` have acceptable types.
pub open spec fn binary_accepts(op: BinaryOp, l: Type, r: Type) -> bool {
    match op {
        BinaryOp::Add | BinaryOp::Subtract | BinaryOp::Multiply | BinaryOp::Divide | BinaryOp::Modulo
        | BinaryOp::Power | BinaryOp::Equal | BinaryOp::NotEqual | BinaryOp::Less | BinaryOp::LessEqual
        | BinaryOp::Greater | BinaryOp::GreaterEqual => numeric_or_unknown(l) && numeric_or_unknown(r),
        BinaryOp::And | BinaryOp::Or => boolean_or_unknown(l) && boolean_or_unknown(r),
        BinaryOp::Concat | BinaryOp::ConcatSpace => printable_or_unknown(l) && printable_or_unknown(r),
    }
}

/// `op` compares: `==`, `!=`, `<`, `<=`, `>`, `>=`.
pub open spec fn is_comparison(op: BinaryOp) -> bool {
    op is Equal || op is NotEqual || op is Less || op is LessEqual || op is Greater || op is GreaterEqual
}

/// `op` is arithmetic: `+`, `-`, `*`, `/`, `%`, `^`.
pub open spec fn is_arithmetic(op: BinaryOp) -> bool {
    op is Add || op is Subtract || op is Multiply || op is Divide || op is Modulo || op is Power
}

/// A comparison of two numbers (or operands not inferred yet) is a boolean,
/// an arithmetic operation on them a number, and only arithmetic gives a
/// number.
pub proof fn lemma_binary_result_by_kind(op: BinaryOp, l: Type, r: Type)
    ensures
        is_comparison(op) && (l is Number || l is Unknown) && (r is Number || r is Unknown) ==> binary_result(op, l, r)
            is Boolean,
        is_arithmetic(op) && (l is Number || l is Unknown) && (r is Number || r is Unknown) ==> binary_result(op, l, r)
            is Number,
        binary_result(op, l, r) is Number ==> is_arithmetic(op),
        (is_comparison(op) || is_arithmetic(op)) && !((l is Number || l is Unknown) && (r is Number || r is Unknown))
            ==> binary_result(op, l, r) is Error,
        (op is And || op is Or) ==> binary_result(op, l, r) == if (l is Boolean || l is Unknown) && (r is Boolean
            || r is Unknown) {
            Type::Boolean
        } else {
            Type::Error
        },
        (op is Concat || op is ConcatSpace) ==> binary_result(op, l, r) == if (l is Number || l is String || l is Boolean
            || l is Unknown) && (r is Number || r is String || r is Boolean || r is Unknown) {
            Type::String
        } else {
            Type::Error
        },
{
}

/// Negation asks for a number and gives one, logical not asks for a boolean
/// and gives one (an operand not inferred yet is accepted by both); any other
/// operand is an error.
pub proof fn lemma_unary_result_by_kind(op: UnaryOp, t: Type)
    ensures
        op is Negate ==> unary_result(op, t) == if t is Number || t is Unknown {
            Type::Number
        } else {
            Type::Error
        },
        op is Not ==> unary_result(op, t) == if t is Boolean || t is Unknown {
            Type::Boolean
        } else {
            Type::Error
        },
{
}

/// The type of `l op r`: `Number` for arithmetic, `Boolean` for comparisons
/// and logic, `String` for concatenation, and `Error` when the operands are
/// not accepted.
pub open spec fn binary_result(op: BinaryOp, l: Type, r: Type) -> Type {
    if !binary_accepts(op, l, r) {
        Type::Error
    } else {
        match op {
            BinaryOp::Add | BinaryOp::Subtract | BinaryOp::Multiply | BinaryOp::Divide | BinaryOp::Modulo
            | BinaryOp::Power => Type::Number,
            BinaryOp::Concat | BinaryOp::ConcatSpace => Type::String,
            _ => Type::Boolean,
        }
    }
}

/// How a binary operator is named in its diagnostic: `@` and `@@` for the
/// concatenations, the operator's variant name for the others.
pub open spec fn binary_op_text(op: BinaryOp) -> Seq<char> {
    match op {
        BinaryOp::Or => "Or"@,
        BinaryOp::And => "And"@,
        BinaryOp::Equal => "Equal"@,
        BinaryOp::NotEqual => "NotEqual"@,
        BinaryOp::Less => "Less"@,
        BinaryOp::LessEqual => "LessEqual"@,
        BinaryOp::Greater => "Greater"@,
        BinaryOp::GreaterEqual => "GreaterEqual"@,
        BinaryOp::Add => "Add"@,
        BinaryOp::Subtract => "Subtract"@,
        BinaryOp::Multiply => "Multiply"@,
        BinaryOp::Divide => "Divide"@,
        BinaryOp::Modulo => "Modulo"@,
        BinaryOp::Power => "Power"@,
        BinaryOp::Concat => "@"@,
        BinaryOp::ConcatSpace => "@@"@,
    }
}

/// `e` reports that operator `op` does not accept operands of the types `tys`, at `span`.
pub open spec fn reports_invalid_operator(e: SemanticError, op: Seq<char>, tys: Seq<Type>, span: SourceSpan) -> bool {
    &&& e.severity == Severity::Error
    &&& e.span == span
    &&& e.kind matches SemanticErrorKind::InvalidOperator { op: o, operand_types }
    &&& o@ == op
    &&& operand_types@.len() == tys.len()
    &&& forall|k: int| 0 <= k < tys.len() ==> same_type(#[trigger] operand_types@[k], tys[k])
}

fn binary_op_string(op: BinaryOp) -> (r: String)
    ensures
        r@ == binary_op_text(op),
{
    let text = match op {
        BinaryOp::Or => "Or",
        BinaryOp::And => "And",
        BinaryOp::Equal => "Equal",
        BinaryOp::NotEqual => "NotEqual",
        BinaryOp::Less => "Less",
        BinaryOp::LessEqual => "LessEqual",
        BinaryOp::Greater => "Greater",
        BinaryOp::GreaterEqual => "GreaterEqual",
        BinaryOp::Add => "Add",
        BinaryOp::Subtract => "Subtract",
        BinaryOp::Multiply => "Multiply",
        BinaryOp::Divide => "Divide",
        BinaryOp::Modulo => "Modulo",
        BinaryOp::Power => "Power",
        BinaryOp::Concat => "@",
        BinaryOp::ConcatSpace => "@@",
    };
    String::from_str(text)
}

/// Types `left op right` (with the operands already typed `left` and
/// `right`): returns `binary_result`, and when that is `Error` reports the
/// operator and both operand types at `span`.
pub fn infer_binary(op: BinaryOp, left: &Type, right: &Type, span: SourceSpan, errors: &mut Vec<SemanticError>) -> (t: Type)
    ensures
        t == binary_result(op, *left, *right),
        binary_accepts(op, *left, *right) ==> final(errors)@ == old(errors)@,
        !binary_accepts(op, *left, *right) ==> final(errors)@.len() == old(errors)@.len() + 1
            && final(errors)@.drop_last() == old(errors)@
            && reports_invalid_operator(final(errors)@.last(), binary_op_text(op), seq![*left, *right], span),
        is_comparison(op) && (left is Number || left is Unknown) && (right is Number || right is Unknown) ==> t is Boolean
            && final(errors)@ == old(errors)@,
        is_arithmetic(op) && (left is Number || left is Unknown) && (right is Number || right is Unknown) ==> t is Number
            && final(errors)@ == old(errors)@,
        t is Number ==> is_arithmetic(op),
{
    let numeric = |t: &Type| -> (b: bool)
        ensures
            b == numeric_or_unknown(*t),
        { matches!(t, Type::Number | Type::Unknown) };
    let boolean = |t: &Type| -> (b: bool)
        ensures
            b == boolean_or_unknown(*t),
        { matches!(t, Type::Boolean | Type::Unknown) };
    let printable = |t: &Type| -> (b: bool)
        ensures
            b == printable_or_unknown(*t),
        { matches!(t, Type::Number | Type::String | Type::Boolean | Type::Unknown) };
    let (accepted, result) = match op {
        BinaryOp::Add | BinaryOp::Subtract | BinaryOp::Multiply | BinaryOp::Divide | BinaryOp::Modulo
        | BinaryOp::Power => (numeric(left) && numeric(right), Type::Number),
        BinaryOp::Equal | BinaryOp::NotEqual | BinaryOp::Less | BinaryOp::LessEqual | BinaryOp::Greater
        | BinaryOp::GreaterEqual => (numeric(left) && numeric(right), Type::Boolean),
        BinaryOp::And | BinaryOp::Or => (boolean(left) && boolean(right), Type::Boolean),
        BinaryOp::Concat | BinaryOp::ConcatSpace => (printable(left) && printable(right), Type::String),
    };
    if accepted {
        result
    } else {
        let mut operand_types: Vec<Type> = Vec::new();
        operand_types.push(left.duplicate());
        operand_types.push(right.duplicate());
        let e = SemanticError::error(
            SemanticErrorKind::InvalidOperator { op: binary_op_string(op), operand_types },
            span,
        );
        errors.push(e);
        proof {
            assert(final(errors)@.drop_last() =~= old(errors)@) by {
                assert(errors@.drop_last() =~= old(errors)@);
            }
        }
        Type::Error
    }
}

/// The type of `op operand`: `Number` for negation of a number, `Boolean`
/// for negation of a boolean (each also for an operand not inferred yet), and
/// `Error` otherwise.
pub open spec fn unary_result(op: UnaryOp, t: Type) -> Type {
    match op {
        UnaryOp::Negate => if numeric_or_unknown(t) {
            Type::Number
        } else {
            Type::Error
        },
        UnaryOp::Not => if boolean_or_unknown(t) {
            Type::Boolean
        } else {
            Type::Error
        },
    }
}

/// How a unary operator is named in its diagnostic.
pub open spec fn unary_op_text(op: UnaryOp) -> Seq<char> {
    match op {
        UnaryOp::Negate => "-"@,
        UnaryOp::Not => "!"@,
    }
}

/// Types `op operand` (with the operand already typed `operand`): returns
/// `unary_result`, and when that is `Error` reports the operator and the
/// operand type at `span`.
pub fn infer_unary(op: UnaryOp, operand: &Type, span: SourceSpan, errors: &mut Vec<SemanticError>) -> (t: Type)
    ensures
        t == unary_result(op, *operand),
        op is Negate ==> t == if operand is Number || operand is Unknown {
            Type::Number
        } else {
            Type::Error
        },
        op is Not ==> t == if operand is Boolean || operand is Unknown {
            Type::Boolean
        } else {
            Type::Error
        },
        !(t is Error) ==> final(errors)@ == old(errors)@,
        t is Error ==> final(errors)@.len() == old(errors)@.len() + 1
            && final(errors)@.drop_last() == old(errors)@
            && reports_invalid_operator(final(errors)@.last(), unary_op_text(op), seq![*operand], span),
{
    let (accepted, result, text) = match op {
        UnaryOp::Negate => (matches!(operand, Type::Number | Type::Unknown), Type::Number, "-"),
        UnaryOp::Not => (matches!(operand, Type::Boolean | Type::Unknown), Type::Boolean, "!"),
    };
    if accepted {
        result
    } else {
        let mut operand_types: Vec<Type> = Vec::new();
        operand_types.push(operand.duplicate());
        let e = SemanticError::error(
            SemanticErrorKind::InvalidOperator { op: String::from_str(text), operand_types },
            span,
        );
        errors.push(e);
        proof {
            assert(errors@.drop_last() =~= old(errors)@);
        }
        Type::Error
    }
}

} // verus!
