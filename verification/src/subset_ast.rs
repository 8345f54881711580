//! Source positions and names of the syntax tree for the mandatory HULK subset.
use vstd::prelude::*;

verus! {

/// A region of source text: byte offsets and the line and column where it starts.
#[derive(Debug, Clone, Copy, PartialEq, Eq)]
pub struct Span {
    pub start: usize,
    pub end: usize,
    pub line: usize,
    pub column: usize,
}

impl Span {
    pub fn new(start: usize, end: usize, line: usize, column: usize) -> (r: Span)
        ensures
            r == (Span { start, end, line, column }),
    {
        Span { start, end, line, column }
    }

    /// The span of synthesized nodes: all zero.
    pub fn dummy() -> (r: Span)
        ensures
            r == (Span { start: 0, end: 0, line: 0, column: 0 }),
    {
        Span::default()
    }
}

impl Default for Span {
    fn default() -> (r: Span)
        ensures
            r == (Span { start: 0, end: 0, line: 0, column: 0 }),
    {
        Span { start: 0, end: 0, line: 0, column: 0 }
    }
}

/// A name together with where it was written.
#[derive(Debug, Clone, PartialEq, Eq)]
pub struct Ident {
    pub name: String,
    pub span: Span,
}

impl Ident {
    pub fn new(name: String, span: Span) -> (r: Ident)
        ensures
            r.name@ == name@,
            r.span == span,
    {
        Ident { name, span }
    }

    /// A name with the span of synthesized nodes.
    pub fn dummy(name: String) -> (r: Ident)
        ensures
            r.name@ == name@,
            r.span == (Span { start: 0, end: 0, line: 0, column: 0 }),
    {
        Ident::new(name, Span::dummy())
    }

    /// The name as written.
    pub fn to_string(&self) -> (r: String)
        ensures
            r@ == self.name@,
    {
        self.name.clone()
    }
}

/// A type annotation: the name of a type.
#[derive(Debug, Clone, PartialEq, Eq)]
pub struct TypeRef {
    pub name: Ident,
}

impl TypeRef {
    pub fn named(name: String) -> (r: TypeRef)
        ensures
            r.name.name@ == name@,
            r.name.span == (Span { start: 0, end: 0, line: 0, column: 0 }),
    {
        TypeRef { name: Ident::dummy(name) }
    }
}

/// A function, method or type parameter with its optional annotation.
#[derive(Debug, Clone, PartialEq)]
pub struct Param {
    pub name: Ident,
    pub type_annotation: Option<TypeRef>,
}

#[derive(Debug, Clone, Copy, PartialEq, Eq, Structural)]
pub enum UnaryOp {
    Negate,
    Not,
}

#[derive(Debug, Clone, Copy, PartialEq, Eq, Structural)]
pub enum BinaryOp {
    Add,
    Sub,
    Mul,
    Div,
    Mod,
    Pow,
    Less,
    LessEqual,
    Greater,
    GreaterEqual,
    Equal,
    NotEqual,
    And,
    Or,
    /// `@`
    Concat,
    /// `@@`
    SpacedConcat,
}

} // verus!
