//! Semantic diagnostics for HULK.
//!
//! Each pass appends `SemanticError`s to a shared vector. A diagnostic carries
//! its kind, a source span and a severity (error or warning).
use vstd::prelude::*;

use crate::ast::SourceSpan;
use crate::semantic::types::{render_types, type_name_text, type_name_texts, Type};
use crate::text::{decimal, decimal_text, join, join_text, texts};

verus! {

/// The severity of a semantic diagnostic.
#[derive(Debug, Clone, Copy, PartialEq, Eq, Structural)]
pub enum Severity {
    /// A hard error that prevents compilation.
    Error,
    /// A non-blocking warning that does not stop compilation.
    Warning,
}

/// A semantic diagnostic: a kind, a source location, and a severity.
#[derive(Debug, Clone, PartialEq)]
pub struct SemanticError {
    pub kind: SemanticErrorKind,
    pub span: SourceSpan,
    pub severity: Severity,
}

impl SemanticError {
    /// Creates a new error with `Severity::Error`.
    pub fn error(kind: SemanticErrorKind, span: SourceSpan) -> (r: SemanticError)
        ensures
            r.kind == kind,
            r.span == span,
            r.severity == Severity::Error,
    {
        SemanticError { kind, span, severity: Severity::Error }
    }

    /// Creates a new warning with `Severity::Warning`.
    pub fn warning(kind: SemanticErrorKind, span: SourceSpan) -> (r: SemanticError)
        ensures
            r.kind == kind,
            r.span == span,
            r.severity == Severity::Warning,
    {
        SemanticError { kind, span, severity: Severity::Warning }
    }

    /// `<severity> at line <line>, col <col>: <kind>`.
    pub fn message(&self) -> (r: String)
        ensures
            r@ == semantic_error_text(*self),
    {
        let mut out = match self.severity {
            Severity::Error => String::from_str("semantic error"),
            Severity::Warning => String::from_str("semantic warning"),
        };
        out.append(" at line ");
        out.append(decimal(self.span.line).as_str());
        out.append(", col ");
        out.append(decimal(self.span.col).as_str());
        out.append(": ");
        out.append(self.kind.message().as_str());
        out
    }
}

/// The specific kind of semantic diagnostic.
#[derive(Debug, Clone, PartialEq)]
pub enum SemanticErrorKind {
    /// An undefined variable name was used.
    UndefinedVariable(String),
    /// An undefined function (or builtin) was called.
    UndefinedFunction { name: String, arity: usize },
    /// An undefined type name was referenced.
    UndefinedType(String),
    /// A member (attribute or method) could not be found on a type.
    UnknownMember { ty: Type, member: String },
    /// A function was defined more than once (global namespace).
    DuplicateFunction(String),
    /// A type was defined more than once.
    DuplicateType(String),
    /// An attribute was defined more than once within the same type.
    DuplicateAttribute { ty: String, attribute: String },
    /// A parameter name was duplicated within a function/method parameter list.
    DuplicateParameter(String),
    /// Attempt to inherit from a builtin value type (`Number`, `String`, `Boolean`).
    InheritFromBuiltinValueType(String),
    /// Attempt to inherit from a type that does not exist.
    InheritFromUndefinedType(String),
    /// A cycle was detected in the inheritance graph.
    InheritanceCycle(Vec<String>),
    /// An overriding method does not match the parent's signature exactly.
    InvalidOverride { method: String, in_type: String, expected: String, found: String },
    /// A type does not implement all methods required by a protocol.
    ProtocolNotImplemented { ty: Type, protocol: String, missing: Vec<String> },
    /// A protocol extension violates contravariant/covariant variance rules.
    InvalidProtocolVariance { method: String, reason: String },
    /// The inferred type does not match the declared annotation.
    TypeMismatch { expected: Type, found: Type },
    /// A value of one type cannot be used where another type is expected.
    NotConforming { found: Type, expected: Type },
    /// A call supplies the wrong number of arguments.
    ArityMismatch { expected: usize, found: usize },
    /// An operator is applied to incompatible operand types.
    InvalidOperator { op: String, operand_types: Vec<Type> },
    /// A non-boolean value was used as a condition.
    NonBooleanCondition(Type),
    /// A value that does not implement `Iterable` was used in a `for` loop.
    NotIterable(Type),
    /// Indexing was attempted on a non-vector type.
    IndexOnNonVector(Type),
    /// The left-hand side of an assignment is not assignable.
    InvalidAssignTarget,
    /// `self` was used as an assignment target.
    SelfIsNotAssignable,
    /// `base` was used outside an overriding method.
    BaseOutsideOverridingMethod,
    /// A symbol's type could not be inferred (needs an explicit annotation).
    CannotInferType { symbol: String },
    /// Multiple incompatible types were possible for the same symbol.
    AmbiguousInference { symbol: String, candidates: Vec<Type> },
    /// A downcast (`as`) can never succeed because the types are unrelated.
    UnreachableDowncast { from: Type, to: Type },
    /// A `match` expression does not cover all possible cases.
    NonExhaustiveMatch,
}

/// The text of a diagnostic kind.
pub open spec fn semantic_kind_text(k: SemanticErrorKind) -> Seq<char> {
    match k {
        SemanticErrorKind::UndefinedVariable(name) => "undefined variable `"@ + name@ + "`"@,
        SemanticErrorKind::UndefinedFunction { name, arity } => "undefined function `"@ + name@ + "` with "@ + decimal_text(arity as nat) + " argument(s)"@,
        SemanticErrorKind::UndefinedType(name) => "undefined type `"@ + name@ + "`"@,
        SemanticErrorKind::UnknownMember { ty, member } => "type `"@ + type_name_text(ty) + "` has no member `"@ + member@ + "`"@,
        SemanticErrorKind::DuplicateFunction(name) => "duplicate function `"@ + name@ + "`"@,
        SemanticErrorKind::DuplicateType(name) => "duplicate type `"@ + name@ + "`"@,
        SemanticErrorKind::DuplicateAttribute { ty, attribute } => "duplicate attribute `"@ + attribute@ + "` in type `"@ + ty@ + "`"@,
        SemanticErrorKind::DuplicateParameter(name) => "duplicate parameter `"@ + name@ + "`"@,
        SemanticErrorKind::InheritFromBuiltinValueType(name) => "cannot inherit from builtin value type `"@ + name@ + "`"@,
        SemanticErrorKind::InheritFromUndefinedType(name) => "cannot inherit from undefined type `"@ + name@ + "`"@,
        SemanticErrorKind::InheritanceCycle(cycle) => "inheritance cycle detected: "@ + join_text(texts(cycle@), " -> "@),
        SemanticErrorKind::InvalidOverride { method, in_type, expected, found } => "invalid override of method `"@ + method@ + "` in type `"@ + in_type@ + "`: expected `"@ + expected@ + "`, found `"@ + found@ + "`"@,
        SemanticErrorKind::ProtocolNotImplemented { ty, protocol, missing } => "type `"@ + type_name_text(ty) + "` does not implement protocol `"@ + protocol@ + "`; missing methods: "@ + join_text(texts(missing@), ", "@),
        SemanticErrorKind::InvalidProtocolVariance { method, reason } => "invalid protocol variance for `"@ + method@ + "`: "@ + reason@,
        SemanticErrorKind::TypeMismatch { expected, found } => "type mismatch: expected `"@ + type_name_text(expected) + "`, found `"@ + type_name_text(found) + "`"@,
        SemanticErrorKind::NotConforming { found, expected } => "type `"@ + type_name_text(found) + "` does not conform to `"@ + type_name_text(expected) + "`"@,
        SemanticErrorKind::ArityMismatch { expected, found } => "arity mismatch: expected "@ + decimal_text(expected as nat) + ", found "@ + decimal_text(found as nat),
        SemanticErrorKind::InvalidOperator { op, operand_types } => "invalid operator `"@ + op@ + "` for types "@ + join_text(type_name_texts(operand_types@), ", "@),
        SemanticErrorKind::NonBooleanCondition(ty) => "non‑boolean condition of type `"@ + type_name_text(ty) + "`"@,
        SemanticErrorKind::NotIterable(ty) => "type `"@ + type_name_text(ty) + "` is not iterable"@,
        SemanticErrorKind::IndexOnNonVector(ty) => "indexing applied to non‑vector type `"@ + type_name_text(ty) + "`"@,
        SemanticErrorKind::InvalidAssignTarget => "invalid assignment target"@,
        SemanticErrorKind::SelfIsNotAssignable => "`self` is not assignable"@,
        SemanticErrorKind::BaseOutsideOverridingMethod => "`base` can only be used inside an overriding method"@,
        SemanticErrorKind::CannotInferType { symbol } => "cannot infer type for `"@ + symbol@ + "`; add an explicit annotation"@,
        SemanticErrorKind::AmbiguousInference { symbol, candidates } => "ambiguous inference for `"@ + symbol@ + "`: possible types are "@ + join_text(type_name_texts(candidates@), ", "@),
        SemanticErrorKind::UnreachableDowncast { from, to } => "unreachable downcast: `"@ + type_name_text(from) + "` as `"@ + type_name_text(to) + "` can never succeed"@,
        SemanticErrorKind::NonExhaustiveMatch => "non‑exhaustive match: no catch‑all pattern"@,
    }
}

/// The text of a diagnostic: severity, position and kind.
pub open spec fn semantic_error_text(e: SemanticError) -> Seq<char> {
    (match e.severity {
        Severity::Error => "semantic error"@,
        Severity::Warning => "semantic warning"@,
    }) + " at line "@ + decimal_text(e.span.line as nat) + ", col "@ + decimal_text(e.span.col as nat) + ": "@
        + semantic_kind_text(e.kind)
}

impl SemanticErrorKind {
    /// The text of this kind of diagnostic.
    pub fn message(&self) -> (r: String)
        ensures
            r@ == semantic_kind_text(*self),
    {
        match self {
            SemanticErrorKind::UndefinedVariable(name) => {
                let mut out = String::from_str("undefined variable `");
                out.append(name.as_str());
                out.append("`");
                out
            },
            SemanticErrorKind::UndefinedFunction { name, arity } => {
                let mut out = String::from_str("undefined function `");
                out.append(name.as_str());
                out.append("` with ");
                out.append(decimal(*arity).as_str());
                out.append(" argument(s)");
                out
            },
            SemanticErrorKind::UndefinedType(name) => {
                let mut out = String::from_str("undefined type `");
                out.append(name.as_str());
                out.append("`");
                out
            },
            SemanticErrorKind::UnknownMember { ty, member } => {
                let mut out = String::from_str("type `");
                out.append(ty.to_string().as_str());
                out.append("` has no member `");
                out.append(member.as_str());
                out.append("`");
                out
            },
            SemanticErrorKind::DuplicateFunction(name) => {
                let mut out = String::from_str("duplicate function `");
                out.append(name.as_str());
                out.append("`");
                out
            },
            SemanticErrorKind::DuplicateType(name) => {
                let mut out = String::from_str("duplicate type `");
                out.append(name.as_str());
                out.append("`");
                out
            },
            SemanticErrorKind::DuplicateAttribute { ty, attribute } => {
                let mut out = String::from_str("duplicate attribute `");
                out.append(attribute.as_str());
                out.append("` in type `");
                out.append(ty.as_str());
                out.append("`");
                out
            },
            SemanticErrorKind::DuplicateParameter(name) => {
                let mut out = String::from_str("duplicate parameter `");
                out.append(name.as_str());
                out.append("`");
                out
            },
            SemanticErrorKind::InheritFromBuiltinValueType(name) => {
                let mut out = String::from_str("cannot inherit from builtin value type `");
                out.append(name.as_str());
                out.append("`");
                out
            },
            SemanticErrorKind::InheritFromUndefinedType(name) => {
                let mut out = String::from_str("cannot inherit from undefined type `");
                out.append(name.as_str());
                out.append("`");
                out
            },
            SemanticErrorKind::InheritanceCycle(cycle) => {
                let mut out = String::from_str("inheritance cycle detected: ");
                out.append(join(cycle, " -> ").as_str());
                out
            },
            SemanticErrorKind::InvalidOverride { method, in_type, expected, found } => {
                let mut out = String::from_str("invalid override of method `");
                out.append(method.as_str());
                out.append("` in type `");
                out.append(in_type.as_str());
                out.append("`: expected `");
                out.append(expected.as_str());
                out.append("`, found `");
                out.append(found.as_str());
                out.append("`");
                out
            },
            SemanticErrorKind::ProtocolNotImplemented { ty, protocol, missing } => {
                let mut out = String::from_str("type `");
                out.append(ty.to_string().as_str());
                out.append("` does not implement protocol `");
                out.append(protocol.as_str());
                out.append("`; missing methods: ");
                out.append(join(missing, ", ").as_str());
                out
            },
            SemanticErrorKind::InvalidProtocolVariance { method, reason } => {
                let mut out = String::from_str("invalid protocol variance for `");
                out.append(method.as_str());
                out.append("`: ");
                out.append(reason.as_str());
                out
            },
            SemanticErrorKind::TypeMismatch { expected, found } => {
                let mut out = String::from_str("type mismatch: expected `");
                out.append(expected.to_string().as_str());
                out.append("`, found `");
                out.append(found.to_string().as_str());
                out.append("`");
                out
            },
            SemanticErrorKind::NotConforming { found, expected } => {
                let mut out = String::from_str("type `");
                out.append(found.to_string().as_str());
                out.append("` does not conform to `");
                out.append(expected.to_string().as_str());
                out.append("`");
                out
            },
            SemanticErrorKind::ArityMismatch { expected, found } => {
                let mut out = String::from_str("arity mismatch: expected ");
                out.append(decimal(*expected).as_str());
                out.append(", found ");
                out.append(decimal(*found).as_str());
                out
            },
            SemanticErrorKind::InvalidOperator { op, operand_types } => {
                let mut out = String::from_str("invalid operator `");
                out.append(op.as_str());
                out.append("` for types ");
                out.append(join(&render_types(operand_types), ", ").as_str());
                out
            },
            SemanticErrorKind::NonBooleanCondition(ty) => {
                let mut out = String::from_str("non‑boolean condition of type `");
                out.append(ty.to_string().as_str());
                out.append("`");
                out
            },
            SemanticErrorKind::NotIterable(ty) => {
                let mut out = String::from_str("type `");
                out.append(ty.to_string().as_str());
                out.append("` is not iterable");
                out
            },
            SemanticErrorKind::IndexOnNonVector(ty) => {
                let mut out = String::from_str("indexing applied to non‑vector type `");
                out.append(ty.to_string().as_str());
                out.append("`");
                out
            },
            SemanticErrorKind::InvalidAssignTarget => {
                let mut out = String::from_str("invalid assignment target");
                out
            },
            SemanticErrorKind::SelfIsNotAssignable => {
                let mut out = String::from_str("`self` is not assignable");
                out
            },
            SemanticErrorKind::BaseOutsideOverridingMethod => {
                let mut out = String::from_str("`base` can only be used inside an overriding method");
                out
            },
            SemanticErrorKind::CannotInferType { symbol } => {
                let mut out = String::from_str("cannot infer type for `");
                out.append(symbol.as_str());
                out.append("`; add an explicit annotation");
                out
            },
            SemanticErrorKind::AmbiguousInference { symbol, candidates } => {
                let mut out = String::from_str("ambiguous inference for `");
                out.append(symbol.as_str());
                out.append("`: possible types are ");
                out.append(join(&render_types(candidates), ", ").as_str());
                out
            },
            SemanticErrorKind::UnreachableDowncast { from, to } => {
                let mut out = String::from_str("unreachable downcast: `");
                out.append(from.to_string().as_str());
                out.append("` as `");
                out.append(to.to_string().as_str());
                out.append("` can never succeed");
                out
            },
            SemanticErrorKind::NonExhaustiveMatch => {
                let mut out = String::from_str("non‑exhaustive match: no catch‑all pattern");
                out
            },
        }
    }
}

} // verus!
