//! The typed syntax tree: the shape of the program's expressions with the
//! semantic type that inference resolved for every node.
use vstd::prelude::*;

use crate::ast::{BinaryOp, Literal, Param, Pattern, ProtocolDecl, SourceSpan, TypeRef, UnaryOp};
use crate::semantic::types::Type;

verus! {

/// An expression with its resolved type (`anno`) and its source location.
#[derive(Debug, PartialEq)]
pub struct TypedExpr {
    pub kind: TypedKind,
    pub anno: Type,
    pub span: SourceSpan,
}

/// The expression forms, with typed sub-expressions.
#[derive(Debug, PartialEq)]
pub enum TypedKind {
    Literal(Literal),
    Variable(String),
    SelfRef,
    BaseRef,
    Unary { op: UnaryOp, expr: Box<TypedExpr> },
    Binary { op: BinaryOp, left: Box<TypedExpr>, right: Box<TypedExpr> },
    Let { bindings: Vec<TypedBinding>, body: Box<TypedExpr> },
    Assign { target: TypedTarget, value: Box<TypedExpr> },
    Block(Vec<TypedExpr>),
    If { condition: Box<TypedExpr>, then_branch: Box<TypedExpr>, elifs: Vec<TypedElif>, else_branch: Box<TypedExpr> },
    While { condition: Box<TypedExpr>, body: Box<TypedExpr> },
    For { var: String, iterable: Box<TypedExpr>, body: Box<TypedExpr> },
    Call { callee: Box<TypedExpr>, args: Vec<TypedExpr> },
    Member { object: Box<TypedExpr>, member: String },
    New { type_ref: TypeRef, args: Vec<TypedExpr> },
    TypeTest { expr: Box<TypedExpr>, type_ref: TypeRef },
    Downcast { expr: Box<TypedExpr>, type_ref: TypeRef },
    VectorLiteral(Vec<TypedExpr>),
    Comprehension { expr: Box<TypedExpr>, var: String, iterable: Box<TypedExpr> },
    Index { object: Box<TypedExpr>, index: Box<TypedExpr> },
    Match { value: Box<TypedExpr>, cases: Vec<TypedCase> },
}

/// One binding of a `let`: its name, written annotation and typed initializer.
#[derive(Debug, PartialEq)]
pub struct TypedBinding {
    pub name: String,
    pub type_annotation: Option<TypeRef>,
    pub initializer: TypedExpr,
}

/// The left-hand side of a destructive assignment.
#[derive(Debug, PartialEq)]
pub enum TypedTarget {
    Variable(String),
    Member { object: Box<TypedExpr>, field: String },
    Index { object: Box<TypedExpr>, index: Box<TypedExpr> },
}

/// An `elif` branch.
#[derive(Debug, PartialEq)]
pub struct TypedElif {
    pub condition: TypedExpr,
    pub body: TypedExpr,
}

/// A `match` case.
#[derive(Debug, PartialEq)]
pub struct TypedCase {
    pub pattern: Pattern,
    pub body: TypedExpr,
}

/// An attribute of a type declaration, with its typed initializer.
#[derive(Debug, PartialEq)]
pub struct TypedAttribute {
    pub name: String,
    pub type_annotation: Option<TypeRef>,
    pub initializer: TypedExpr,
}

/// A function or method declaration with its typed body; parameters and
/// return annotation as written.
#[derive(Debug, PartialEq)]
pub struct TypedFunction {
    pub name: String,
    pub params: Vec<Param>,
    pub return_type: Option<TypeRef>,
    pub body: TypedExpr,
}

/// A member of a type declaration, typed.
#[derive(Debug, PartialEq)]
pub enum TypedMemberKind {
    Attribute(TypedAttribute),
    Method(TypedFunction),
}

/// A member of a type declaration with its source location.
#[derive(Debug, PartialEq)]
pub struct TypedMember {
    pub kind: TypedMemberKind,
    pub span: SourceSpan,
}

/// The `inherits Parent(args)` clause with typed arguments.
#[derive(Debug, PartialEq)]
pub struct TypedParent {
    pub name: String,
    pub args: Vec<TypedExpr>,
}

/// A type declaration with typed members.
#[derive(Debug, PartialEq)]
pub struct TypedTypeDecl {
    pub name: String,
    pub params: Vec<Param>,
    pub parent: Option<TypedParent>,
    pub members: Vec<TypedMember>,
}

/// The declaration forms; protocols have no bodies and stay as written.
#[derive(Debug, PartialEq)]
pub enum TypedDeclarationKind {
    Function(TypedFunction),
    Type(TypedTypeDecl),
    Protocol(ProtocolDecl),
}

/// A declaration with its source location.
#[derive(Debug, PartialEq)]
pub struct TypedDeclaration {
    pub kind: TypedDeclarationKind,
    pub span: SourceSpan,
}

/// A whole typed program: its declarations and its entry expression.
#[derive(Debug, PartialEq)]
pub struct TypedProgram {
    pub declarations: Vec<TypedDeclaration>,
    pub entry: TypedExpr,
}

} // verus!
