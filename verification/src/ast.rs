//! Abstract syntax tree of HULK programs, together with its mathematical model.
//!
//! Every executable node has a model (the `...V` types below) in which names are
//! character sequences and child lists are `Seq`s. Contracts of the parser and
//! of the other passes are stated over these models.
use vstd::prelude::*;

verus! {

/// Source location of a node: 1-based line and column.
#[derive(Debug, Clone, Copy, PartialEq, Eq)]
pub struct SourceSpan {
    pub line: usize,
    pub col: usize,
}

impl SourceSpan {
    pub fn new(line: usize, col: usize) -> (r: SourceSpan)
        ensures
            r.line == line,
            r.col == col,
    {
        SourceSpan { line, col }
    }
}

impl Default for SourceSpan {
    fn default() -> (r: SourceSpan)
        ensures
            r.line == 0,
            r.col == 0,
    {
        SourceSpan { line: 0, col: 0 }
    }
}

/// A numeric literal. `bits` is the IEEE-754 bit pattern of its value and
/// `text` is the decimal rendering of that value as the lexer printed it.
#[derive(Debug, PartialEq)]
pub struct NumberLit {
    pub bits: u64,
    pub text: String,
}

impl NumberLit {
    pub fn new(bits: u64, text: String) -> (r: NumberLit)
        ensures
            r.bits == bits,
            r.text@ == text@,
    {
        NumberLit { bits, text }
    }
}

/// Complete HULK program: declarations followed by the entry expression.
#[derive(Debug, PartialEq)]
pub struct Program {
    pub declarations: Vec<Declaration>,
    pub entry: Expr,
}

/// A top-level declaration with its source span.
#[derive(Debug, PartialEq)]
pub struct Declaration {
    pub kind: DeclarationKind,
    pub span: SourceSpan,
}

#[derive(Debug, PartialEq)]
pub enum DeclarationKind {
    Function(FunctionDecl),
    Type(TypeDecl),
    Protocol(ProtocolDecl),
}

/// Function declaration, inline (`=> expr`) or full-form (`{ ... }`).
#[derive(Debug, PartialEq)]
pub struct FunctionDecl {
    pub name: String,
    pub params: Vec<Param>,
    pub return_type: Option<TypeRef>,
    pub body: Expr,
}

/// Type declaration: `type T(args) inherits Base(args) { ... }`.
#[derive(Debug, PartialEq)]
pub struct TypeDecl {
    pub name: String,
    pub params: Vec<Param>,
    pub parent: Option<TypeParent>,
    pub members: Vec<TypeMember>,
}

/// Parent type and constructor arguments used by inheritance.
#[derive(Debug, PartialEq)]
pub struct TypeParent {
    pub name: String,
    pub args: Vec<Expr>,
}

/// Member of a HULK type.
#[derive(Debug, PartialEq)]
pub struct TypeMember {
    pub kind: TypeMemberKind,
    pub span: SourceSpan,
}

#[derive(Debug, PartialEq)]
pub enum TypeMemberKind {
    Attribute(AttributeDecl),
    Method(FunctionDecl),
}

/// Attribute declaration inside a type body.
#[derive(Debug, PartialEq)]
pub struct AttributeDecl {
    pub name: String,
    pub type_annotation: Option<TypeRef>,
    pub initializer: Expr,
}

/// Protocol declaration.
#[derive(Debug, PartialEq)]
pub struct ProtocolDecl {
    pub name: String,
    pub parents: Vec<TypeRef>,
    pub methods: Vec<ProtocolMethod>,
}

/// Method signature inside a protocol.
#[derive(Debug, PartialEq)]
pub struct ProtocolMethod {
    pub name: String,
    pub params: Vec<Param>,
    pub return_type: TypeRef,
}

/// Function, method, type, or protocol parameter.
#[derive(Debug, PartialEq)]
pub struct Param {
    pub name: String,
    pub type_annotation: Option<TypeRef>,
}

/// A reference to a type name as written in source code.
#[derive(Debug, PartialEq)]
pub struct TypeRef {
    pub name: String,
    pub args: Vec<TypeRef>,
}

/// Expression node.
#[derive(Debug, PartialEq)]
pub struct Expr {
    pub kind: ExprKind,
    pub span: SourceSpan,
}

/// Every expression form supported by the AST.
#[derive(Debug, PartialEq)]
pub enum ExprKind {
    Literal(Literal),
    Variable(String),
    SelfRef,
    BaseRef,
    Unary(UnaryExpr),
    Binary(BinaryExpr),
    Let(LetExpr),
    Assign(AssignExpr),
    Block(BlockExpr),
    If(IfExpr),
    While(WhileExpr),
    For(ForExpr),
    Call(CallExpr),
    Member(MemberExpr),
    New(NewExpr),
    TypeTest(TypeTestExpr),
    Downcast(DowncastExpr),
    Vector(VectorExpr),
    Index(IndexExpr),
    Match(MatchExpr),
}

/// Literal values.
#[derive(Debug, PartialEq)]
pub enum Literal {
    Number(NumberLit),
    String(String),
    Boolean(bool),
}

#[derive(Debug, PartialEq)]
pub struct UnaryExpr {
    pub op: UnaryOp,
    pub expr: Box<Expr>,
}

#[derive(Debug, Clone, Copy, PartialEq, Eq, Structural)]
pub enum UnaryOp {
    Negate,
    Not,
}

#[derive(Debug, PartialEq)]
pub struct BinaryExpr {
    pub op: BinaryOp,
    pub left: Box<Expr>,
    pub right: Box<Expr>,
}

#[derive(Debug, Clone, Copy, PartialEq, Eq, Structural)]
pub enum BinaryOp {
    Or,
    And,
    Equal,
    NotEqual,
    Less,
    LessEqual,
    Greater,
    GreaterEqual,
    Add,
    Subtract,
    Multiply,
    Divide,
    Modulo,
    Power,
    Concat,
    ConcatSpace,
}

/// `let a = expr, b: T = expr in body`.
#[derive(Debug, PartialEq)]
pub struct LetExpr {
    pub bindings: Vec<LetBinding>,
    pub body: Box<Expr>,
}

#[derive(Debug, PartialEq)]
pub struct LetBinding {
    pub name: String,
    pub type_annotation: Option<TypeRef>,
    pub initializer: Expr,
}

/// Destructive assignment: `target := value`.
#[derive(Debug, PartialEq)]
pub struct AssignExpr {
    pub target: AssignTarget,
    pub value: Box<Expr>,
}

/// Valid left-hand sides for destructive assignment.
#[derive(Debug, PartialEq)]
pub enum AssignTarget {
    Variable(String),
    Member { object: Box<Expr>, field: String },
    Index { object: Box<Expr>, index: Box<Expr> },
}

/// Expression block: `{ expr1; expr2; ... }`.
#[derive(Debug, PartialEq)]
pub struct BlockExpr {
    pub expressions: Vec<Expr>,
}

/// Conditional expression with optional `elif` branches and final `else`.
#[derive(Debug, PartialEq)]
pub struct IfExpr {
    pub condition: Box<Expr>,
    pub then_branch: Box<Expr>,
    pub elif_branches: Vec<ElifBranch>,
    pub else_branch: Box<Expr>,
}

#[derive(Debug, PartialEq)]
pub struct ElifBranch {
    pub condition: Expr,
    pub body: Expr,
}

/// `while (condition) body`.
#[derive(Debug, PartialEq)]
pub struct WhileExpr {
    pub condition: Box<Expr>,
    pub body: Box<Expr>,
}

/// `for (var in iterable) body`.
#[derive(Debug, PartialEq)]
pub struct ForExpr {
    pub var: String,
    pub iterable: Box<Expr>,
    pub body: Box<Expr>,
}

/// Function call or method call.
#[derive(Debug, PartialEq)]
pub struct CallExpr {
    pub callee: Box<Expr>,
    pub args: Vec<Expr>,
}

/// Dot access: `object.member`.
#[derive(Debug, PartialEq)]
pub struct MemberExpr {
    pub object: Box<Expr>,
    pub member: String,
}

/// Object construction: `new Type(args)`.
#[derive(Debug, PartialEq)]
pub struct NewExpr {
    pub type_ref: TypeRef,
    pub args: Vec<Expr>,
}

/// Dynamic type test: `expr is Type`.
#[derive(Debug, PartialEq)]
pub struct TypeTestExpr {
    pub expr: Box<Expr>,
    pub type_ref: TypeRef,
}

/// Downcast: `expr as Type`.
#[derive(Debug, PartialEq)]
pub struct DowncastExpr {
    pub expr: Box<Expr>,
    pub type_ref: TypeRef,
}

/// Vector literal or vector comprehension.
#[derive(Debug, PartialEq)]
pub enum VectorExpr {
    Literal(Vec<Expr>),
    Comprehension(VectorComprehension),
}

#[derive(Debug, PartialEq)]
pub struct VectorComprehension {
    pub expr: Box<Expr>,
    pub var: String,
    pub iterable: Box<Expr>,
}

/// Indexing expression: `object[index]`.
#[derive(Debug, PartialEq)]
pub struct IndexExpr {
    pub object: Box<Expr>,
    pub index: Box<Expr>,
}

/// Pattern matching expression.
#[derive(Debug, PartialEq)]
pub struct MatchExpr {
    pub value: Box<Expr>,
    pub cases: Vec<MatchCase>,
}

#[derive(Debug, PartialEq)]
pub struct MatchCase {
    pub pattern: Pattern,
    pub body: Expr,
}

#[derive(Debug, PartialEq)]
pub enum Pattern {
    Wildcard,
    Literal(Literal),
    Variable(String),
    Type(TypeRef, Option<String>),
}

/// Shape of an expression that a macro body can match at compile time.
#[derive(Debug, PartialEq)]
pub enum MacroPattern {
    /// Matches anything and binds nothing.
    Wildcard,
    /// Matches a literal expression of the same value.
    Literal(Literal),
    /// Matches what `pattern` matches and, when named, captures the whole expression.
    Bind { name: Option<String>, ty: Option<TypeRef>, pattern: Box<MacroPattern> },
    /// Matches a binary expression with operator `op` and matching operands.
    BinaryExpr { op: BinaryOp, left: Box<MacroPatternBind>, right: Box<MacroPatternBind> },
    /// Matches a unary expression with operator `op` and a matching operand.
    UnaryExpr { op: UnaryOp, operand: Box<MacroPatternBind> },
}

/// An operand position of a compound macro pattern, optionally captured by name.
#[derive(Debug, PartialEq)]
pub struct MacroPatternBind {
    pub name: Option<String>,
    pub ty: Option<TypeRef>,
    pub pattern: MacroPattern,
}

// ---------------------------------------------------------------------------
// Models
// ---------------------------------------------------------------------------

/// Model of a type reference.
pub enum TypeRefV {
    Named { name: Seq<char>, args: Seq<TypeRefV> },
}

pub enum LiteralV {
    Number { bits: u64, text: Seq<char> },
    Str(Seq<char>),
    Boolean(bool),
}

pub struct ParamV {
    pub name: Seq<char>,
    pub ty: Option<TypeRefV>,
}

pub enum PatternV {
    Wildcard,
    Literal(LiteralV),
    Variable(Seq<char>),
    Type(TypeRefV, Option<Seq<char>>),
}

/// Model of an expression: its kind and its span.
pub struct ExprV {
    pub kind: ExprKindV,
    pub span: SourceSpan,
}

pub struct LetBindingV {
    pub name: Seq<char>,
    pub ty: Option<TypeRefV>,
    pub init: ExprV,
}

pub struct ElifV {
    pub condition: ExprV,
    pub body: ExprV,
}

pub struct MatchCaseV {
    pub pattern: PatternV,
    pub body: ExprV,
}

pub enum AssignTargetV {
    Variable(Seq<char>),
    Member { object: Box<ExprV>, field: Seq<char> },
    Index { object: Box<ExprV>, index: Box<ExprV> },
}

pub enum ExprKindV {
    Literal(LiteralV),
    Variable(Seq<char>),
    SelfRef,
    BaseRef,
    Unary { op: UnaryOp, expr: Box<ExprV> },
    Binary { op: BinaryOp, left: Box<ExprV>, right: Box<ExprV> },
    Let { bindings: Seq<LetBindingV>, body: Box<ExprV> },
    Assign { target: AssignTargetV, value: Box<ExprV> },
    Block(Seq<ExprV>),
    If { condition: Box<ExprV>, then_branch: Box<ExprV>, elifs: Seq<ElifV>, else_branch: Box<ExprV> },
    While { condition: Box<ExprV>, body: Box<ExprV> },
    For { var: Seq<char>, iterable: Box<ExprV>, body: Box<ExprV> },
    Call { callee: Box<ExprV>, args: Seq<ExprV> },
    Member { object: Box<ExprV>, member: Seq<char> },
    New { type_ref: TypeRefV, args: Seq<ExprV> },
    TypeTest { expr: Box<ExprV>, type_ref: TypeRefV },
    Downcast { expr: Box<ExprV>, type_ref: TypeRefV },
    VectorLiteral(Seq<ExprV>),
    Comprehension { expr: Box<ExprV>, var: Seq<char>, iterable: Box<ExprV> },
    Index { object: Box<ExprV>, index: Box<ExprV> },
    Match { value: Box<ExprV>, cases: Seq<MatchCaseV> },
}

pub struct FunctionDeclV {
    pub name: Seq<char>,
    pub params: Seq<ParamV>,
    pub return_type: Option<TypeRefV>,
    pub body: ExprV,
}

pub struct AttributeDeclV {
    pub name: Seq<char>,
    pub ty: Option<TypeRefV>,
    pub init: ExprV,
}

pub enum TypeMemberKindV {
    Attribute(AttributeDeclV),
    Method(FunctionDeclV),
}

pub struct TypeMemberV {
    pub kind: TypeMemberKindV,
    pub span: SourceSpan,
}

pub struct TypeParentV {
    pub name: Seq<char>,
    pub args: Seq<ExprV>,
}

pub struct TypeDeclV {
    pub name: Seq<char>,
    pub params: Seq<ParamV>,
    pub parent: Option<TypeParentV>,
    pub members: Seq<TypeMemberV>,
}

pub struct ProtocolMethodV {
    pub name: Seq<char>,
    pub params: Seq<ParamV>,
    pub return_type: TypeRefV,
}

pub struct ProtocolDeclV {
    pub name: Seq<char>,
    pub parents: Seq<TypeRefV>,
    pub methods: Seq<ProtocolMethodV>,
}

pub enum DeclarationKindV {
    Function(FunctionDeclV),
    Type(TypeDeclV),
    Protocol(ProtocolDeclV),
}

pub struct DeclarationV {
    pub kind: DeclarationKindV,
    pub span: SourceSpan,
}

pub struct ProgramV {
    pub declarations: Seq<DeclarationV>,
    pub entry: ExprV,
}

// ---------------------------------------------------------------------------
// Model functions
// ---------------------------------------------------------------------------

pub open spec fn tref_v(t: TypeRef) -> TypeRefV
    decreases t,
{
    TypeRefV::Named { name: t.name@, args: trefs_v(t.args@) }
}

pub open spec fn trefs_v(s: Seq<TypeRef>) -> Seq<TypeRefV>
    decreases s,
{
    if s.len() == 0 {
        Seq::empty()
    } else {
        trefs_v(s.drop_last()).push(tref_v(s.last()))
    }
}

pub open spec fn opt_tref_v(t: Option<TypeRef>) -> Option<TypeRefV> {
    match t {
        Some(t) => Some(tref_v(t)),
        None => None,
    }
}

pub open spec fn opt_str_v(s: Option<String>) -> Option<Seq<char>> {
    match s {
        Some(s) => Some(s@),
        None => None,
    }
}

pub open spec fn literal_v(l: Literal) -> LiteralV {
    match l {
        Literal::Number(n) => LiteralV::Number { bits: n.bits, text: n.text@ },
        Literal::String(s) => LiteralV::Str(s@),
        Literal::Boolean(b) => LiteralV::Boolean(b),
    }
}

pub open spec fn param_v(p: Param) -> ParamV {
    ParamV { name: p.name@, ty: opt_tref_v(p.type_annotation) }
}

pub open spec fn params_v(s: Seq<Param>) -> Seq<ParamV>
    decreases s.len(),
{
    if s.len() == 0 {
        Seq::empty()
    } else {
        params_v(s.drop_last()).push(param_v(s.last()))
    }
}

pub open spec fn pattern_v(p: Pattern) -> PatternV {
    match p {
        Pattern::Wildcard => PatternV::Wildcard,
        Pattern::Literal(l) => PatternV::Literal(literal_v(l)),
        Pattern::Variable(s) => PatternV::Variable(s@),
        Pattern::Type(t, a) => PatternV::Type(tref_v(t), opt_str_v(a)),
    }
}

pub open spec fn expr_v(e: Expr) -> ExprV
    decreases e,
{
    ExprV { kind: kind_v(e.kind), span: e.span }
}

pub open spec fn kind_v(k: ExprKind) -> ExprKindV
    decreases k,
{
    match k {
        ExprKind::Literal(l) => ExprKindV::Literal(literal_v(l)),
        ExprKind::Variable(s) => ExprKindV::Variable(s@),
        ExprKind::SelfRef => ExprKindV::SelfRef,
        ExprKind::BaseRef => ExprKindV::BaseRef,
        ExprKind::Unary(u) => ExprKindV::Unary { op: u.op, expr: Box::new(expr_v(*u.expr)) },
        ExprKind::Binary(b) => ExprKindV::Binary {
            op: b.op,
            left: Box::new(expr_v(*b.left)),
            right: Box::new(expr_v(*b.right)),
        },
        ExprKind::Let(l) => ExprKindV::Let {
            bindings: bindings_v(l.bindings@),
            body: Box::new(expr_v(*l.body)),
        },
        ExprKind::Assign(a) => ExprKindV::Assign {
            target: target_v(a.target),
            value: Box::new(expr_v(*a.value)),
        },
        ExprKind::Block(b) => ExprKindV::Block(exprs_v(b.expressions@)),
        ExprKind::If(i) => ExprKindV::If {
            condition: Box::new(expr_v(*i.condition)),
            then_branch: Box::new(expr_v(*i.then_branch)),
            elifs: elifs_v(i.elif_branches@),
            else_branch: Box::new(expr_v(*i.else_branch)),
        },
        ExprKind::While(w) => ExprKindV::While {
            condition: Box::new(expr_v(*w.condition)),
            body: Box::new(expr_v(*w.body)),
        },
        ExprKind::For(f) => ExprKindV::For {
            var: f.var@,
            iterable: Box::new(expr_v(*f.iterable)),
            body: Box::new(expr_v(*f.body)),
        },
        ExprKind::Call(c) => ExprKindV::Call {
            callee: Box::new(expr_v(*c.callee)),
            args: exprs_v(c.args@),
        },
        ExprKind::Member(m) => ExprKindV::Member {
            object: Box::new(expr_v(*m.object)),
            member: m.member@,
        },
        ExprKind::New(n) => ExprKindV::New { type_ref: tref_v(n.type_ref), args: exprs_v(n.args@) },
        ExprKind::TypeTest(t) => ExprKindV::TypeTest {
            expr: Box::new(expr_v(*t.expr)),
            type_ref: tref_v(t.type_ref),
        },
        ExprKind::Downcast(d) => ExprKindV::Downcast {
            expr: Box::new(expr_v(*d.expr)),
            type_ref: tref_v(d.type_ref),
        },
        ExprKind::Vector(VectorExpr::Literal(items)) => ExprKindV::VectorLiteral(exprs_v(items@)),
        ExprKind::Vector(VectorExpr::Comprehension(c)) => ExprKindV::Comprehension {
            expr: Box::new(expr_v(*c.expr)),
            var: c.var@,
            iterable: Box::new(expr_v(*c.iterable)),
        },
        ExprKind::Index(i) => ExprKindV::Index {
            object: Box::new(expr_v(*i.object)),
            index: Box::new(expr_v(*i.index)),
        },
        ExprKind::Match(m) => ExprKindV::Match {
            value: Box::new(expr_v(*m.value)),
            cases: cases_v(m.cases@),
        },
    }
}

pub open spec fn target_v(t: AssignTarget) -> AssignTargetV
    decreases t,
{
    match t {
        AssignTarget::Variable(s) => AssignTargetV::Variable(s@),
        AssignTarget::Member { object, field } => AssignTargetV::Member {
            object: Box::new(expr_v(*object)),
            field: field@,
        },
        AssignTarget::Index { object, index } => AssignTargetV::Index {
            object: Box::new(expr_v(*object)),
            index: Box::new(expr_v(*index)),
        },
    }
}

pub open spec fn exprs_v(s: Seq<Expr>) -> Seq<ExprV>
    decreases s,
{
    if s.len() == 0 {
        Seq::empty()
    } else {
        exprs_v(s.drop_last()).push(expr_v(s.last()))
    }
}

pub open spec fn bindings_v(s: Seq<LetBinding>) -> Seq<LetBindingV>
    decreases s,
{
    if s.len() == 0 {
        Seq::empty()
    } else {
        let b = s.last();
        bindings_v(s.drop_last()).push(
            LetBindingV { name: b.name@, ty: opt_tref_v(b.type_annotation), init: expr_v(b.initializer) },
        )
    }
}

pub open spec fn elifs_v(s: Seq<ElifBranch>) -> Seq<ElifV>
    decreases s,
{
    if s.len() == 0 {
        Seq::empty()
    } else {
        let b = s.last();
        elifs_v(s.drop_last()).push(ElifV { condition: expr_v(b.condition), body: expr_v(b.body) })
    }
}

pub open spec fn cases_v(s: Seq<MatchCase>) -> Seq<MatchCaseV>
    decreases s,
{
    if s.len() == 0 {
        Seq::empty()
    } else {
        let c = s.last();
        cases_v(s.drop_last()).push(MatchCaseV { pattern: pattern_v(c.pattern), body: expr_v(c.body) })
    }
}

pub open spec fn function_v(f: FunctionDecl) -> FunctionDeclV {
    FunctionDeclV {
        name: f.name@,
        params: params_v(f.params@),
        return_type: opt_tref_v(f.return_type),
        body: expr_v(f.body),
    }
}

pub open spec fn member_v(m: TypeMember) -> TypeMemberV {
    TypeMemberV {
        kind: match m.kind {
            TypeMemberKind::Attribute(a) => TypeMemberKindV::Attribute(
                AttributeDeclV { name: a.name@, ty: opt_tref_v(a.type_annotation), init: expr_v(a.initializer) },
            ),
            TypeMemberKind::Method(f) => TypeMemberKindV::Method(function_v(f)),
        },
        span: m.span,
    }
}

pub open spec fn members_v(s: Seq<TypeMember>) -> Seq<TypeMemberV>
    decreases s.len(),
{
    if s.len() == 0 {
        Seq::empty()
    } else {
        members_v(s.drop_last()).push(member_v(s.last()))
    }
}

pub open spec fn parent_v(p: Option<TypeParent>) -> Option<TypeParentV> {
    match p {
        Some(p) => Some(TypeParentV { name: p.name@, args: exprs_v(p.args@) }),
        None => None,
    }
}

pub open spec fn type_decl_v(t: TypeDecl) -> TypeDeclV {
    TypeDeclV {
        name: t.name@,
        params: params_v(t.params@),
        parent: parent_v(t.parent),
        members: members_v(t.members@),
    }
}

pub open spec fn protocol_method_v(m: ProtocolMethod) -> ProtocolMethodV {
    ProtocolMethodV { name: m.name@, params: params_v(m.params@), return_type: tref_v(m.return_type) }
}

pub open spec fn protocol_methods_v(s: Seq<ProtocolMethod>) -> Seq<ProtocolMethodV>
    decreases s.len(),
{
    if s.len() == 0 {
        Seq::empty()
    } else {
        protocol_methods_v(s.drop_last()).push(protocol_method_v(s.last()))
    }
}

pub open spec fn protocol_v(p: ProtocolDecl) -> ProtocolDeclV {
    ProtocolDeclV {
        name: p.name@,
        parents: trefs_v(p.parents@),
        methods: protocol_methods_v(p.methods@),
    }
}

pub open spec fn declaration_v(d: Declaration) -> DeclarationV {
    DeclarationV {
        kind: match d.kind {
            DeclarationKind::Function(f) => DeclarationKindV::Function(function_v(f)),
            DeclarationKind::Type(t) => DeclarationKindV::Type(type_decl_v(t)),
            DeclarationKind::Protocol(p) => DeclarationKindV::Protocol(protocol_v(p)),
        },
        span: d.span,
    }
}

pub open spec fn declarations_v(s: Seq<Declaration>) -> Seq<DeclarationV>
    decreases s.len(),
{
    if s.len() == 0 {
        Seq::empty()
    } else {
        declarations_v(s.drop_last()).push(declaration_v(s.last()))
    }
}

pub open spec fn program_v(p: Program) -> ProgramV {
    ProgramV { declarations: declarations_v(p.declarations@), entry: expr_v(p.entry) }
}

impl View for Expr {
    type V = ExprV;

    open spec fn view(&self) -> ExprV {
        expr_v(*self)
    }
}

impl View for TypeRef {
    type V = TypeRefV;

    open spec fn view(&self) -> TypeRefV {
        tref_v(*self)
    }
}

impl View for Program {
    type V = ProgramV;

    open spec fn view(&self) -> ProgramV {
        program_v(*self)
    }
}


// ---------------------------------------------------------------------------
// Constructors
// ---------------------------------------------------------------------------

impl Program {
    pub fn new(declarations: Vec<Declaration>, entry: Expr) -> (r: Program)
        ensures
            r@ == (ProgramV { declarations: declarations_v(declarations@), entry: entry@ }),
    {
        Program { declarations, entry }
    }
}

impl Declaration {
    pub fn new(kind: DeclarationKind, span: SourceSpan) -> (r: Declaration)
        ensures
            r.kind == kind,
            r.span == span,
    {
        Declaration { kind, span }
    }
}

impl FunctionDecl {
    pub fn new(name: String, params: Vec<Param>, return_type: Option<TypeRef>, body: Expr) -> (r: FunctionDecl)
        ensures
            function_v(r) == (FunctionDeclV {
                name: name@,
                params: params_v(params@),
                return_type: opt_tref_v(return_type),
                body: body@,
            }),
    {
        FunctionDecl { name, params, return_type, body }
    }
}

impl TypeDecl {
    pub fn new(name: String, params: Vec<Param>, parent: Option<TypeParent>, members: Vec<TypeMember>) -> (r: TypeDecl)
        ensures
            type_decl_v(r) == (TypeDeclV {
                name: name@,
                params: params_v(params@),
                parent: parent_v(parent),
                members: members_v(members@),
            }),
    {
        TypeDecl { name, params, parent, members }
    }
}

impl TypeParent {
    pub fn new(name: String, args: Vec<Expr>) -> (r: TypeParent)
        ensures
            parent_v(Some(r)) == Some(TypeParentV { name: name@, args: exprs_v(args@) }),
    {
        TypeParent { name, args }
    }
}

impl TypeMember {
    pub fn new(kind: TypeMemberKind, span: SourceSpan) -> (r: TypeMember)
        ensures
            r.kind == kind,
            r.span == span,
    {
        TypeMember { kind, span }
    }
}

impl AttributeDecl {
    pub fn new(name: String, type_annotation: Option<TypeRef>, initializer: Expr) -> (r: AttributeDecl)
        ensures
            r.name@ == name@,
            opt_tref_v(r.type_annotation) == opt_tref_v(type_annotation),
            r.initializer@ == initializer@,
    {
        AttributeDecl { name, type_annotation, initializer }
    }
}

impl ProtocolDecl {
    pub fn new(name: String, parents: Vec<TypeRef>, methods: Vec<ProtocolMethod>) -> (r: ProtocolDecl)
        ensures
            protocol_v(r) == (ProtocolDeclV {
                name: name@,
                parents: trefs_v(parents@),
                methods: protocol_methods_v(methods@),
            }),
    {
        ProtocolDecl { name, parents, methods }
    }
}

impl ProtocolMethod {
    pub fn new(name: String, params: Vec<Param>, return_type: TypeRef) -> (r: ProtocolMethod)
        ensures
            protocol_method_v(r) == (ProtocolMethodV {
                name: name@,
                params: params_v(params@),
                return_type: return_type@,
            }),
    {
        ProtocolMethod { name, params, return_type }
    }
}

impl Param {
    pub fn new(name: String, type_annotation: Option<TypeRef>) -> (r: Param)
        ensures
            param_v(r) == (ParamV { name: name@, ty: opt_tref_v(type_annotation) }),
    {
        Param { name, type_annotation }
    }
}

impl TypeRef {
    pub fn named(name: String) -> (r: TypeRef)
        ensures
            r@ == (TypeRefV::Named { name: name@, args: Seq::empty() }),
    {
        let args: Vec<TypeRef> = Vec::new();
        let r = TypeRef { name, args };
        assert(r.args@ =~= Seq::<TypeRef>::empty());
        r
    }

    pub fn with_args(name: String, args: Vec<TypeRef>) -> (r: TypeRef)
        ensures
            r@ == (TypeRefV::Named { name: name@, args: trefs_v(args@) }),
    {
        TypeRef { name, args }
    }
}

impl Expr {
    pub fn new(kind: ExprKind, span: SourceSpan) -> (r: Expr)
        ensures
            r.kind == kind,
            r.span == span,
            r@ == (ExprV { kind: kind_v(kind), span }),
    {
        Expr { kind, span }
    }

    pub fn literal(literal: Literal, span: SourceSpan) -> (r: Expr)
        ensures
            r@ == (ExprV { kind: ExprKindV::Literal(literal_v(literal)), span }),
    {
        Expr { kind: ExprKind::Literal(literal), span }
    }

    pub fn number(value: NumberLit, span: SourceSpan) -> (r: Expr)
        ensures
            r@ == (ExprV {
                kind: ExprKindV::Literal(LiteralV::Number { bits: value.bits, text: value.text@ }),
                span,
            }),
    {
        Expr { kind: ExprKind::Literal(Literal::Number(value)), span }
    }

    pub fn string(value: String, span: SourceSpan) -> (r: Expr)
        ensures
            r@ == (ExprV { kind: ExprKindV::Literal(LiteralV::Str(value@)), span }),
    {
        Expr { kind: ExprKind::Literal(Literal::String(value)), span }
    }

    pub fn boolean(value: bool, span: SourceSpan) -> (r: Expr)
        ensures
            r@ == (ExprV { kind: ExprKindV::Literal(LiteralV::Boolean(value)), span }),
    {
        Expr { kind: ExprKind::Literal(Literal::Boolean(value)), span }
    }

    pub fn variable(name: String, span: SourceSpan) -> (r: Expr)
        ensures
            r@ == (ExprV { kind: ExprKindV::Variable(name@), span }),
    {
        Expr { kind: ExprKind::Variable(name), span }
    }

    pub fn unary(op: UnaryOp, expr: Expr, span: SourceSpan) -> (r: Expr)
        ensures
            r@ == (ExprV { kind: ExprKindV::Unary { op, expr: Box::new(expr@) }, span }),
    {
        Expr { kind: ExprKind::Unary(UnaryExpr { op, expr: Box::new(expr) }), span }
    }

    pub fn binary(op: BinaryOp, left: Expr, right: Expr, span: SourceSpan) -> (r: Expr)
        ensures
            r@ == (ExprV {
                kind: ExprKindV::Binary { op, left: Box::new(left@), right: Box::new(right@) },
                span,
            }),
    {
        Expr { kind: ExprKind::Binary(BinaryExpr { op, left: Box::new(left), right: Box::new(right) }), span }
    }

    pub fn call(callee: Expr, args: Vec<Expr>, span: SourceSpan) -> (r: Expr)
        ensures
            r@ == (ExprV { kind: ExprKindV::Call { callee: Box::new(callee@), args: exprs_v(args@) }, span }),
    {
        Expr { kind: ExprKind::Call(CallExpr { callee: Box::new(callee), args }), span }
    }
}

impl LetExpr {
    pub fn new(bindings: Vec<LetBinding>, body: Expr) -> (r: LetExpr)
        ensures
            bindings_v(r.bindings@) == bindings_v(bindings@),
            r.body@ == body@,
    {
        LetExpr { bindings, body: Box::new(body) }
    }
}

impl LetBinding {
    pub fn new(name: String, type_annotation: Option<TypeRef>, initializer: Expr) -> (r: LetBinding)
        ensures
            r.name@ == name@,
            opt_tref_v(r.type_annotation) == opt_tref_v(type_annotation),
            r.initializer@ == initializer@,
    {
        LetBinding { name, type_annotation, initializer }
    }
}

impl AssignExpr {
    pub fn new(target: AssignTarget, value: Expr) -> (r: AssignExpr)
        ensures
            target_v(r.target) == target_v(target),
            r.value@ == value@,
    {
        AssignExpr { target, value: Box::new(value) }
    }
}

impl BlockExpr {
    pub fn new(expressions: Vec<Expr>) -> (r: BlockExpr)
        ensures
            exprs_v(r.expressions@) == exprs_v(expressions@),
    {
        BlockExpr { expressions }
    }
}

impl IfExpr {
    pub fn new(condition: Expr, then_branch: Expr, elif_branches: Vec<ElifBranch>, else_branch: Expr) -> (r: IfExpr)
        ensures
            r.condition@ == condition@,
            r.then_branch@ == then_branch@,
            elifs_v(r.elif_branches@) == elifs_v(elif_branches@),
            r.else_branch@ == else_branch@,
    {
        IfExpr {
            condition: Box::new(condition),
            then_branch: Box::new(then_branch),
            elif_branches,
            else_branch: Box::new(else_branch),
        }
    }
}

impl ElifBranch {
    pub fn new(condition: Expr, body: Expr) -> (r: ElifBranch)
        ensures
            r.condition@ == condition@,
            r.body@ == body@,
    {
        ElifBranch { condition, body }
    }
}

impl WhileExpr {
    pub fn new(condition: Expr, body: Expr) -> (r: WhileExpr)
        ensures
            r.condition@ == condition@,
            r.body@ == body@,
    {
        WhileExpr { condition: Box::new(condition), body: Box::new(body) }
    }
}

impl ForExpr {
    pub fn new(var: String, iterable: Expr, body: Expr) -> (r: ForExpr)
        ensures
            r.var@ == var@,
            r.iterable@ == iterable@,
            r.body@ == body@,
    {
        ForExpr { var, iterable: Box::new(iterable), body: Box::new(body) }
    }
}

impl MemberExpr {
    pub fn new(object: Expr, member: String) -> (r: MemberExpr)
        ensures
            r.object@ == object@,
            r.member@ == member@,
    {
        MemberExpr { object: Box::new(object), member }
    }
}

impl NewExpr {
    pub fn new(type_ref: TypeRef, args: Vec<Expr>) -> (r: NewExpr)
        ensures
            r.type_ref@ == type_ref@,
            exprs_v(r.args@) == exprs_v(args@),
    {
        NewExpr { type_ref, args }
    }
}

impl TypeTestExpr {
    pub fn new(expr: Expr, type_ref: TypeRef) -> (r: TypeTestExpr)
        ensures
            r.expr@ == expr@,
            r.type_ref@ == type_ref@,
    {
        TypeTestExpr { expr: Box::new(expr), type_ref }
    }
}

impl DowncastExpr {
    pub fn new(expr: Expr, type_ref: TypeRef) -> (r: DowncastExpr)
        ensures
            r.expr@ == expr@,
            r.type_ref@ == type_ref@,
    {
        DowncastExpr { expr: Box::new(expr), type_ref }
    }
}

impl VectorComprehension {
    pub fn new(expr: Expr, var: String, iterable: Expr) -> (r: VectorComprehension)
        ensures
            r.expr@ == expr@,
            r.var@ == var@,
            r.iterable@ == iterable@,
    {
        VectorComprehension { expr: Box::new(expr), var, iterable: Box::new(iterable) }
    }
}

impl IndexExpr {
    pub fn new(object: Expr, index: Expr) -> (r: IndexExpr)
        ensures
            r.object@ == object@,
            r.index@ == index@,
    {
        IndexExpr { object: Box::new(object), index: Box::new(index) }
    }
}

impl MatchExpr {
    pub fn new(value: Expr, cases: Vec<MatchCase>) -> (r: MatchExpr)
        ensures
            r.value@ == value@,
            cases_v(r.cases@) == cases_v(cases@),
    {
        MatchExpr { value: Box::new(value), cases }
    }
}

impl MatchCase {
    pub fn new(pattern: Pattern, body: Expr) -> (r: MatchCase)
        ensures
            pattern_v(r.pattern) == pattern_v(pattern),
            r.body@ == body@,
    {
        MatchCase { pattern, body }
    }
}


// ---------------------------------------------------------------------------
// Rendering of type references
// ---------------------------------------------------------------------------

/// `Name` or `Name<Arg1, Arg2, ...>`.
pub open spec fn type_text(t: TypeRefV) -> Seq<char>
    decreases t,
{
    match t {
        TypeRefV::Named { name, args } => if args.len() == 0 {
            name
        } else {
            name + "<"@ + type_list_text(args) + ">"@
        },
    }
}

/// The renderings of `s`, separated by `, `.
pub open spec fn type_list_text(s: Seq<TypeRefV>) -> Seq<char>
    decreases s,
{
    if s.len() == 0 {
        Seq::empty()
    } else if s.len() == 1 {
        type_text(s[0])
    } else {
        type_list_text(s.drop_last()) + ", "@ + type_text(s.last())
    }
}

pub proof fn lemma_trefs_v_index(s: Seq<TypeRef>)
    ensures
        trefs_v(s).len() == s.len(),
        forall|i: int| 0 <= i < s.len() ==> #[trigger] trefs_v(s)[i] == tref_v(s[i]),
    decreases s.len(),
{
    if s.len() > 0 {
        lemma_trefs_v_index(s.drop_last());
    }
}

proof fn lemma_type_list_text_step(s: Seq<TypeRefV>, i: int)
    requires
        0 <= i < s.len(),
    ensures
        type_list_text(s.take(i + 1)) == if i == 0 {
            type_text(s[i])
        } else {
            type_list_text(s.take(i)) + ", "@ + type_text(s[i])
        },
{
    assert(s.take(i + 1).drop_last() =~= s.take(i));
}

impl TypeRef {
    /// The type as written in source: `Name` or `Name<Arg1, Arg2, ...>`.
    pub fn to_string(&self) -> (r: String)
        ensures
            r@ == type_text(self@),
        decreases self,
    {
        let mut out = self.name.clone();
        if self.args.len() > 0 {
            let ghost args = trefs_v(self.args@);
            proof {
                lemma_trefs_v_index(self.args@);
            }
            out.append("<");
            let mut i: usize = 0;
            while i < self.args.len()
                invariant
                    0 <= i <= self.args.len(),
                    args == trefs_v(self.args@),
                    args.len() == self.args@.len(),
                    forall|j: int| 0 <= j < self.args@.len() ==> #[trigger] args[j] == tref_v(self.args@[j]),
                    out@ == self.name@ + "<"@ + type_list_text(args.take(i as int)),
                decreases self.args.len() - i,
            {
                proof {
                    lemma_type_list_text_step(args, i as int);
                }
                if i > 0 {
                    out.append(", ");
                }
                assert(decreases_to!(*self => self.args));
                let rendered = self.args[i].to_string();
                out.append(rendered.as_str());
                i = i + 1;
            }
            assert(args.take(args.len() as int) =~= args);
            out.append(">");
        }
        out
    }
}


// ---------------------------------------------------------------------------
// Pre-order traversal
// ---------------------------------------------------------------------------

/// The nodes of `e` in pre-order: `e` itself, then the nodes of each child
/// expression from left to right.
pub open spec fn preorder(e: ExprV) -> Seq<ExprV>
    decreases e,
{
    seq![e] + match e.kind {
        ExprKindV::Literal(_) => Seq::empty(),
        ExprKindV::Variable(_) => Seq::empty(),
        ExprKindV::SelfRef => Seq::empty(),
        ExprKindV::BaseRef => Seq::empty(),
        ExprKindV::Unary { op: _, expr } => preorder(*expr),
        ExprKindV::Binary { op: _, left, right } => preorder(*left) + preorder(*right),
        ExprKindV::Let { bindings, body } => preorder_bindings(bindings) + preorder(*body),
        ExprKindV::Assign { target, value } => preorder_target(target) + preorder(*value),
        ExprKindV::Block(items) => preorder_all(items),
        ExprKindV::If { condition, then_branch, elifs, else_branch } => preorder(*condition) + preorder(
            *then_branch,
        ) + preorder_elifs(elifs) + preorder(*else_branch),
        ExprKindV::While { condition, body } => preorder(*condition) + preorder(*body),
        ExprKindV::For { var: _, iterable, body } => preorder(*iterable) + preorder(*body),
        ExprKindV::Call { callee, args } => preorder(*callee) + preorder_all(args),
        ExprKindV::Member { object, member: _ } => preorder(*object),
        ExprKindV::New { type_ref: _, args } => preorder_all(args),
        ExprKindV::TypeTest { expr, type_ref: _ } => preorder(*expr),
        ExprKindV::Downcast { expr, type_ref: _ } => preorder(*expr),
        ExprKindV::VectorLiteral(items) => preorder_all(items),
        ExprKindV::Comprehension { expr, var: _, iterable } => preorder(*expr) + preorder(*iterable),
        ExprKindV::Index { object, index } => preorder(*object) + preorder(*index),
        ExprKindV::Match { value, cases } => preorder(*value) + preorder_cases(cases),
    }
}

/// The pre-order nodes of each expression of `s`, in order.
pub open spec fn preorder_all(s: Seq<ExprV>) -> Seq<ExprV>
    decreases s,
{
    if s.len() == 0 {
        Seq::empty()
    } else {
        preorder_all(s.drop_last()) + preorder(s.last())
    }
}

/// The pre-order nodes of the initializers of `s`, in order.
pub open spec fn preorder_bindings(s: Seq<LetBindingV>) -> Seq<ExprV>
    decreases s,
{
    if s.len() == 0 {
        Seq::empty()
    } else {
        preorder_bindings(s.drop_last()) + preorder(s.last().init)
    }
}

/// The pre-order nodes of the conditions and bodies of `s`, in order.
pub open spec fn preorder_elifs(s: Seq<ElifV>) -> Seq<ExprV>
    decreases s,
{
    if s.len() == 0 {
        Seq::empty()
    } else {
        preorder_elifs(s.drop_last()) + preorder(s.last().condition) + preorder(s.last().body)
    }
}

/// The pre-order nodes of the bodies of `s`, in order.
pub open spec fn preorder_cases(s: Seq<MatchCaseV>) -> Seq<ExprV>
    decreases s,
{
    if s.len() == 0 {
        Seq::empty()
    } else {
        preorder_cases(s.drop_last()) + preorder(s.last().body)
    }
}

/// The pre-order nodes of the expressions inside an assignment target.
pub open spec fn preorder_target(t: AssignTargetV) -> Seq<ExprV>
    decreases t,
{
    match t {
        AssignTargetV::Variable(_) => Seq::empty(),
        AssignTargetV::Member { object, field: _ } => preorder(*object),
        AssignTargetV::Index { object, index } => preorder(*object) + preorder(*index),
    }
}

/// The models of visited nodes.
pub open spec fn nodes_v<'a>(s: Seq<&'a Expr>) -> Seq<ExprV> {
    s.map_values(|e: &'a Expr| e@)
}

proof fn lemma_nodes_v_push<'a>(s: Seq<&'a Expr>, e: &'a Expr)
    ensures
        nodes_v(s.push(e)) == nodes_v(s).push(e@),
{
    assert(nodes_v(s.push(e)) =~= nodes_v(s).push(e@));
}

pub proof fn lemma_exprs_v_index(s: Seq<Expr>)
    ensures
        exprs_v(s).len() == s.len(),
        forall|i: int| 0 <= i < s.len() ==> #[trigger] exprs_v(s)[i] == s[i]@,
    decreases s.len(),
{
    if s.len() > 0 {
        lemma_exprs_v_index(s.drop_last());
    }
}

proof fn lemma_bindings_v_index(s: Seq<LetBinding>)
    ensures
        bindings_v(s).len() == s.len(),
        forall|i: int| 0 <= i < s.len() ==> #[trigger] bindings_v(s)[i].init == s[i].initializer@,
    decreases s.len(),
{
    if s.len() > 0 {
        lemma_bindings_v_index(s.drop_last());
    }
}

proof fn lemma_elifs_v_index(s: Seq<ElifBranch>)
    ensures
        elifs_v(s).len() == s.len(),
        forall|i: int| 0 <= i < s.len() ==> #[trigger] elifs_v(s)[i] == (ElifV { condition: s[i].condition@, body: s[i].body@ }),
    decreases s.len(),
{
    if s.len() > 0 {
        lemma_elifs_v_index(s.drop_last());
    }
}

proof fn lemma_cases_v_index(s: Seq<MatchCase>)
    ensures
        cases_v(s).len() == s.len(),
        forall|i: int| 0 <= i < s.len() ==> #[trigger] cases_v(s)[i].body == s[i].body@,
    decreases s.len(),
{
    if s.len() > 0 {
        lemma_cases_v_index(s.drop_last());
    }
}

/// Walks an expression in pre-order: returns `expr` and every node below it,
/// in the order in which a pre-order visit reaches them.
pub fn walk_expr<'a>(expr: &'a Expr) -> (r: Vec<&'a Expr>)
    ensures
        nodes_v(r@) == preorder(expr@),
{
    let mut out: Vec<&'a Expr> = Vec::new();
    proof {
        assert(nodes_v(out@) =~= Seq::<ExprV>::empty());
    }
    walk_into(expr, &mut out);
    proof {
        assert(Seq::<ExprV>::empty() + preorder(expr@) =~= preorder(expr@));
    }
    out
}

/// Appending `e` and then the pieces `a`, `b`, `c`, `d` appends `e` followed by their concatenation.
proof fn lemma_cat(s: Seq<ExprV>, e: ExprV, a: Seq<ExprV>, b: Seq<ExprV>, c: Seq<ExprV>, d: Seq<ExprV>)
    ensures
        s.push(e) + a =~= s + (seq![e] + a),
        s.push(e) + a + b =~= s + (seq![e] + (a + b)),
        s.push(e) + a + b + c + d =~= s + (seq![e] + (a + b + c + d)),
        a + Seq::<ExprV>::empty() =~= a,
{
}

/// Appends the pre-order nodes of `expr` to `out`.
#[verifier::rlimit(40)]
fn walk_into<'a>(expr: &'a Expr, out: &mut Vec<&'a Expr>)
    ensures
        nodes_v(final(out)@) == nodes_v(old(out)@) + preorder(expr@),
    decreases expr, 1int,
{
    let ghost start = nodes_v(out@);
    proof {
        lemma_nodes_v_push(out@, expr);
    }
    out.push(expr);
    match &expr.kind {
        ExprKind::Literal(_) | ExprKind::Variable(_) | ExprKind::SelfRef | ExprKind::BaseRef => {
            proof {
                lemma_cat(start, expr@, Seq::empty(), Seq::empty(), Seq::empty(), Seq::empty());
            }
        },
        ExprKind::Unary(unary) => {
            walk_into(&unary.expr, out);
            proof {
                lemma_cat(start, expr@, preorder(unary.expr@), Seq::empty(), Seq::empty(), Seq::empty());
            }
        },
        ExprKind::Binary(binary) => {
            walk_into(&binary.left, out);
            walk_into(&binary.right, out);
            proof {
                lemma_cat(start, expr@, preorder(binary.left@), preorder(binary.right@), Seq::empty(), Seq::empty());
            }
        },
        ExprKind::Let(let_expr) => {
            proof {
                assert forall|i: int| 0 <= i < let_expr.bindings@.len() implies decreases_to!(*expr => (#[trigger] let_expr.bindings@[i]).initializer) by {
                    assert(decreases_to!(*expr => expr.kind));
                    assert(decreases_to!(expr.kind => *let_expr));
                    assert(decreases_to!(*let_expr => let_expr.bindings));
                    assert(decreases_to!(let_expr.bindings => let_expr.bindings@));
                    assert(decreases_to!(let_expr.bindings@ => let_expr.bindings@[i]));
                    assert(decreases_to!(let_expr.bindings@[i] => let_expr.bindings@[i].initializer));
                }
            }
            walk_bindings(expr, &let_expr.bindings, out);
            walk_into(&let_expr.body, out);
            proof {
                lemma_cat(
                    start,
                    expr@,
                    preorder_bindings(bindings_v(let_expr.bindings@)),
                    preorder(let_expr.body@),
                    Seq::empty(),
                    Seq::empty(),
                );
            }
        },
        ExprKind::Assign(assign) => {
            let ghost mid = nodes_v(out@);
            match &assign.target {
                AssignTarget::Variable(_) => {
                    assert(nodes_v(out@) =~= mid + preorder_target(target_v(assign.target)));
                },
                AssignTarget::Member { object, .. } => {
                    walk_into(object, out);
                },
                AssignTarget::Index { object, index } => {
                    walk_into(object, out);
                    walk_into(index, out);
                    assert(nodes_v(out@) =~= mid + preorder_target(target_v(assign.target)));
                },
            }
            walk_into(&assign.value, out);
            proof {
                lemma_cat(
                    start,
                    expr@,
                    preorder_target(target_v(assign.target)),
                    preorder(assign.value@),
                    Seq::empty(),
                    Seq::empty(),
                );
            }
        },
        ExprKind::Block(block) => {
            proof {
                assert forall|i: int| 0 <= i < block.expressions@.len() implies decreases_to!(*expr => #[trigger] block.expressions@[i]) by {
                    assert(decreases_to!(*expr => expr.kind));
                    assert(decreases_to!(expr.kind => *block));
                    assert(decreases_to!(*block => block.expressions));
                    assert(decreases_to!(block.expressions => block.expressions@));
                    assert(decreases_to!(block.expressions@ => block.expressions@[i]));
                }
            }
            walk_all(expr, &block.expressions, out);
            proof {
                lemma_cat(start, expr@, preorder_all(exprs_v(block.expressions@)), Seq::empty(), Seq::empty(), Seq::empty());
            }
        },
        ExprKind::If(if_expr) => {
            walk_into(&if_expr.condition, out);
            walk_into(&if_expr.then_branch, out);
            proof {
                assert forall|i: int| 0 <= i < if_expr.elif_branches@.len() implies decreases_to!(*expr => (#[trigger] if_expr.elif_branches@[i]).condition)
                    && decreases_to!(*expr => if_expr.elif_branches@[i].body) by {
                    assert(decreases_to!(*expr => expr.kind));
                    assert(decreases_to!(expr.kind => *if_expr));
                    assert(decreases_to!(*if_expr => if_expr.elif_branches));
                    assert(decreases_to!(if_expr.elif_branches => if_expr.elif_branches@));
                    assert(decreases_to!(if_expr.elif_branches@ => if_expr.elif_branches@[i]));
                    assert(decreases_to!(if_expr.elif_branches@[i] => if_expr.elif_branches@[i].condition));
                    assert(decreases_to!(if_expr.elif_branches@[i] => if_expr.elif_branches@[i].body));
                }
            }
            walk_elifs(expr, &if_expr.elif_branches, out);
            walk_into(&if_expr.else_branch, out);
            proof {
                lemma_cat(
                    start,
                    expr@,
                    preorder(if_expr.condition@),
                    preorder(if_expr.then_branch@),
                    preorder_elifs(elifs_v(if_expr.elif_branches@)),
                    preorder(if_expr.else_branch@),
                );
            }
        },
        ExprKind::While(while_expr) => {
            walk_into(&while_expr.condition, out);
            walk_into(&while_expr.body, out);
            proof {
                lemma_cat(start, expr@, preorder(while_expr.condition@), preorder(while_expr.body@), Seq::empty(), Seq::empty());
            }
        },
        ExprKind::For(for_expr) => {
            walk_into(&for_expr.iterable, out);
            walk_into(&for_expr.body, out);
            proof {
                lemma_cat(start, expr@, preorder(for_expr.iterable@), preorder(for_expr.body@), Seq::empty(), Seq::empty());
            }
        },
        ExprKind::Call(call) => {
            walk_into(&call.callee, out);
            proof {
                assert forall|i: int| 0 <= i < call.args@.len() implies decreases_to!(*expr => #[trigger] call.args@[i]) by {
                    assert(decreases_to!(*expr => expr.kind));
                    assert(decreases_to!(expr.kind => *call));
                    assert(decreases_to!(*call => call.args));
                    assert(decreases_to!(call.args => call.args@));
                    assert(decreases_to!(call.args@ => call.args@[i]));
                }
            }
            walk_all(expr, &call.args, out);
            proof {
                lemma_cat(start, expr@, preorder(call.callee@), preorder_all(exprs_v(call.args@)), Seq::empty(), Seq::empty());
            }
        },
        ExprKind::Member(member) => {
            walk_into(&member.object, out);
            proof {
                lemma_cat(start, expr@, preorder(member.object@), Seq::empty(), Seq::empty(), Seq::empty());
            }
        },
        ExprKind::New(new_expr) => {
            proof {
                assert forall|i: int| 0 <= i < new_expr.args@.len() implies decreases_to!(*expr => #[trigger] new_expr.args@[i]) by {
                    assert(decreases_to!(*expr => expr.kind));
                    assert(decreases_to!(expr.kind => *new_expr));
                    assert(decreases_to!(*new_expr => new_expr.args));
                    assert(decreases_to!(new_expr.args => new_expr.args@));
                    assert(decreases_to!(new_expr.args@ => new_expr.args@[i]));
                }
            }
            walk_all(expr, &new_expr.args, out);
            proof {
                lemma_cat(start, expr@, preorder_all(exprs_v(new_expr.args@)), Seq::empty(), Seq::empty(), Seq::empty());
            }
        },
        ExprKind::TypeTest(type_test) => {
            walk_into(&type_test.expr, out);
            proof {
                lemma_cat(start, expr@, preorder(type_test.expr@), Seq::empty(), Seq::empty(), Seq::empty());
            }
        },
        ExprKind::Downcast(downcast) => {
            walk_into(&downcast.expr, out);
            proof {
                lemma_cat(start, expr@, preorder(downcast.expr@), Seq::empty(), Seq::empty(), Seq::empty());
            }
        },
        ExprKind::Vector(VectorExpr::Literal(items)) => {
            proof {
                assert forall|i: int| 0 <= i < items@.len() implies decreases_to!(*expr => #[trigger] items@[i]) by {
                    assert(decreases_to!(*expr => expr.kind));
                    assert(decreases_to!(expr.kind => expr.kind->Vector_0));
                    assert(decreases_to!(expr.kind->Vector_0 => *items));
                    assert(decreases_to!(*items => items@));
                    assert(decreases_to!(items@ => items@[i]));
                }
            }
            walk_all(expr, items, out);
            proof {
                lemma_cat(start, expr@, preorder_all(exprs_v(items@)), Seq::empty(), Seq::empty(), Seq::empty());
            }
        },
        ExprKind::Vector(VectorExpr::Comprehension(comprehension)) => {
            walk_into(&comprehension.expr, out);
            walk_into(&comprehension.iterable, out);
            proof {
                lemma_cat(start, expr@, preorder(comprehension.expr@), preorder(comprehension.iterable@), Seq::empty(), Seq::empty());
            }
        },
        ExprKind::Index(index) => {
            walk_into(&index.object, out);
            walk_into(&index.index, out);
            proof {
                lemma_cat(start, expr@, preorder(index.object@), preorder(index.index@), Seq::empty(), Seq::empty());
            }
        },
        ExprKind::Match(match_expr) => {
            walk_into(&match_expr.value, out);
            proof {
                assert forall|i: int| 0 <= i < match_expr.cases@.len() implies decreases_to!(*expr => (#[trigger] match_expr.cases@[i]).body) by {
                    assert(decreases_to!(*expr => expr.kind));
                    assert(decreases_to!(expr.kind => *match_expr));
                    assert(decreases_to!(*match_expr => match_expr.cases));
                    assert(decreases_to!(match_expr.cases => match_expr.cases@));
                    assert(decreases_to!(match_expr.cases@ => match_expr.cases@[i]));
                    assert(decreases_to!(match_expr.cases@[i] => match_expr.cases@[i].body));
                }
            }
            walk_cases(expr, &match_expr.cases, out);
            proof {
                lemma_cat(start, expr@, preorder(match_expr.value@), preorder_cases(cases_v(match_expr.cases@)), Seq::empty(), Seq::empty());
            }
        },
    }
}

/// Appends the pre-order nodes of each of `items`, children of `parent`.
fn walk_all<'a>(parent: &'a Expr, items: &'a Vec<Expr>, out: &mut Vec<&'a Expr>)
    requires
        forall|i: int| 0 <= i < items@.len() ==> decreases_to!(*parent => #[trigger] items@[i]),
    ensures
        nodes_v(final(out)@) == nodes_v(old(out)@) + preorder_all(exprs_v(items@)),
    decreases parent, 0int,
{
    let ghost start = nodes_v(out@);
    proof {
        lemma_exprs_v_index(items@);
    }
    let mut i: usize = 0;
    while i < items.len()
        invariant
            0 <= i <= items.len(),
            exprs_v(items@).len() == items@.len(),
            forall|j: int| 0 <= j < items@.len() ==> #[trigger] exprs_v(items@)[j] == items@[j]@,
            forall|j: int| 0 <= j < items@.len() ==> decreases_to!(*parent => #[trigger] items@[j]),
            nodes_v(out@) == start + preorder_all(exprs_v(items@).take(i as int)),
        decreases items.len() - i,
    {
        proof {
            assert(exprs_v(items@).take(i as int + 1).drop_last() =~= exprs_v(items@).take(i as int));
        }
        walk_into(&items[i], out);
        i = i + 1;
    }
    proof {
        assert(exprs_v(items@).take(items@.len() as int) =~= exprs_v(items@));
    }
}

/// Appends the pre-order nodes of the initializers of `bindings`.
fn walk_bindings<'a>(parent: &'a Expr, bindings: &'a Vec<LetBinding>, out: &mut Vec<&'a Expr>)
    requires
        forall|i: int| 0 <= i < bindings@.len() ==> decreases_to!(*parent => (#[trigger] bindings@[i]).initializer),
    ensures
        nodes_v(final(out)@) == nodes_v(old(out)@) + preorder_bindings(bindings_v(bindings@)),
    decreases parent, 0int,
{
    let ghost start = nodes_v(out@);
    proof {
        lemma_bindings_v_index(bindings@);
    }
    let mut i: usize = 0;
    while i < bindings.len()
        invariant
            0 <= i <= bindings.len(),
            bindings_v(bindings@).len() == bindings@.len(),
            forall|j: int| 0 <= j < bindings@.len() ==> #[trigger] bindings_v(bindings@)[j].init == bindings@[j].initializer@,
            forall|j: int| 0 <= j < bindings@.len() ==> decreases_to!(*parent => (#[trigger] bindings@[j]).initializer),
            nodes_v(out@) == start + preorder_bindings(bindings_v(bindings@).take(i as int)),
        decreases bindings.len() - i,
    {
        proof {
            assert(bindings_v(bindings@).take(i as int + 1).drop_last() =~= bindings_v(bindings@).take(i as int));
        }
        walk_into(&bindings[i].initializer, out);
        i = i + 1;
    }
    proof {
        assert(bindings_v(bindings@).take(bindings@.len() as int) =~= bindings_v(bindings@));
    }
}

/// Appends the pre-order nodes of the conditions and bodies of `elifs`.
fn walk_elifs<'a>(parent: &'a Expr, elifs: &'a Vec<ElifBranch>, out: &mut Vec<&'a Expr>)
    requires
        forall|i: int| 0 <= i < elifs@.len() ==> decreases_to!(*parent => (#[trigger] elifs@[i]).condition)
            && decreases_to!(*parent => elifs@[i].body),
    ensures
        nodes_v(final(out)@) == nodes_v(old(out)@) + preorder_elifs(elifs_v(elifs@)),
    decreases parent, 0int,
{
    let ghost start = nodes_v(out@);
    proof {
        lemma_elifs_v_index(elifs@);
    }
    let mut i: usize = 0;
    while i < elifs.len()
        invariant
            0 <= i <= elifs.len(),
            elifs_v(elifs@).len() == elifs@.len(),
            forall|j: int| 0 <= j < elifs@.len() ==> #[trigger] elifs_v(elifs@)[j] == (ElifV {
                condition: elifs@[j].condition@,
                body: elifs@[j].body@,
            }),
            forall|j: int| 0 <= j < elifs@.len() ==> decreases_to!(*parent => (#[trigger] elifs@[j]).condition)
                && decreases_to!(*parent => elifs@[j].body),
            nodes_v(out@) == start + preorder_elifs(elifs_v(elifs@).take(i as int)),
        decreases elifs.len() - i,
    {
        proof {
            assert(elifs_v(elifs@).take(i as int + 1).drop_last() =~= elifs_v(elifs@).take(i as int));
        }
        walk_into(&elifs[i].condition, out);
        walk_into(&elifs[i].body, out);
        i = i + 1;
    }
    proof {
        assert(elifs_v(elifs@).take(elifs@.len() as int) =~= elifs_v(elifs@));
    }
}

/// Appends the pre-order nodes of the bodies of `cases`.
fn walk_cases<'a>(parent: &'a Expr, cases: &'a Vec<MatchCase>, out: &mut Vec<&'a Expr>)
    requires
        forall|i: int| 0 <= i < cases@.len() ==> decreases_to!(*parent => (#[trigger] cases@[i]).body),
    ensures
        nodes_v(final(out)@) == nodes_v(old(out)@) + preorder_cases(cases_v(cases@)),
    decreases parent, 0int,
{
    let ghost start = nodes_v(out@);
    proof {
        lemma_cases_v_index(cases@);
    }
    let mut i: usize = 0;
    while i < cases.len()
        invariant
            0 <= i <= cases.len(),
            cases_v(cases@).len() == cases@.len(),
            forall|j: int| 0 <= j < cases@.len() ==> #[trigger] cases_v(cases@)[j].body == cases@[j].body@,
            forall|j: int| 0 <= j < cases@.len() ==> decreases_to!(*parent => (#[trigger] cases@[j]).body),
            nodes_v(out@) == start + preorder_cases(cases_v(cases@).take(i as int)),
        decreases cases.len() - i,
    {
        proof {
            assert(cases_v(cases@).take(i as int + 1).drop_last() =~= cases_v(cases@).take(i as int));
        }
        walk_into(&cases[i].body, out);
        i = i + 1;
    }
    proof {
        assert(cases_v(cases@).take(cases@.len() as int) =~= cases_v(cases@));
    }
}

} // verus!

verus! {

// ---------------------------------------------------------------------------
// Models of lists grown by one element
// ---------------------------------------------------------------------------

pub proof fn lemma_exprs_v_push(s: Seq<Expr>, e: Expr)
    ensures
        exprs_v(s.push(e)) == exprs_v(s).push(e@),
{
    assert(s.push(e).drop_last() =~= s);
}

pub proof fn lemma_trefs_v_push(s: Seq<TypeRef>, t: TypeRef)
    ensures
        trefs_v(s.push(t)) == trefs_v(s).push(t@),
{
    assert(s.push(t).drop_last() =~= s);
}

pub proof fn lemma_params_v_push(s: Seq<Param>, p: Param)
    ensures
        params_v(s.push(p)) == params_v(s).push(param_v(p)),
{
    assert(s.push(p).drop_last() =~= s);
}

pub proof fn lemma_bindings_v_push(s: Seq<LetBinding>, b: LetBinding)
    ensures
        bindings_v(s.push(b)) == bindings_v(s).push(
            LetBindingV { name: b.name@, ty: opt_tref_v(b.type_annotation), init: b.initializer@ },
        ),
{
    assert(s.push(b).drop_last() =~= s);
}

pub proof fn lemma_elifs_v_push(s: Seq<ElifBranch>, b: ElifBranch)
    ensures
        elifs_v(s.push(b)) == elifs_v(s).push(ElifV { condition: b.condition@, body: b.body@ }),
{
    assert(s.push(b).drop_last() =~= s);
}

pub proof fn lemma_cases_v_push(s: Seq<MatchCase>, c: MatchCase)
    ensures
        cases_v(s.push(c)) == cases_v(s).push(MatchCaseV { pattern: pattern_v(c.pattern), body: c.body@ }),
{
    assert(s.push(c).drop_last() =~= s);
}

pub proof fn lemma_members_v_push(s: Seq<TypeMember>, m: TypeMember)
    ensures
        members_v(s.push(m)) == members_v(s).push(member_v(m)),
{
    assert(s.push(m).drop_last() =~= s);
}

pub proof fn lemma_protocol_methods_v_push(s: Seq<ProtocolMethod>, m: ProtocolMethod)
    ensures
        protocol_methods_v(s.push(m)) == protocol_methods_v(s).push(protocol_method_v(m)),
{
    assert(s.push(m).drop_last() =~= s);
}

pub proof fn lemma_declarations_v_push(s: Seq<Declaration>, d: Declaration)
    ensures
        declarations_v(s.push(d)) == declarations_v(s).push(declaration_v(d)),
{
    assert(s.push(d).drop_last() =~= s);
}


// ---------------------------------------------------------------------------
// Walking a program
// ---------------------------------------------------------------------------

/// The expression at the top of a type member: an attribute's initializer or
/// a method's body.
pub open spec fn member_root(m: TypeMemberV) -> ExprV {
    match m.kind {
        TypeMemberKindV::Attribute(a) => a.init,
        TypeMemberKindV::Method(f) => f.body,
    }
}

/// The expressions at the top of the members `s`, in order.
pub open spec fn member_roots(s: Seq<TypeMemberV>) -> Seq<ExprV>
    decreases s.len(),
{
    if s.len() == 0 {
        Seq::empty()
    } else {
        member_roots(s.drop_last()).push(member_root(s.last()))
    }
}

/// The nodes of the arguments of a parent clause, in pre-order.
pub open spec fn parent_nodes(p: Option<TypeParentV>) -> Seq<ExprV> {
    match p {
        Some(p) => preorder_all(p.args),
        None => Seq::empty(),
    }
}

/// The nodes a walk of a declaration visits, in pre-order: a function's body;
/// a type's parent arguments, then its members' initializers and bodies; for
/// a protocol, none.
pub open spec fn declaration_nodes(d: DeclarationV) -> Seq<ExprV> {
    match d.kind {
        DeclarationKindV::Function(f) => preorder(f.body),
        DeclarationKindV::Type(t) => parent_nodes(t.parent) + preorder_all(member_roots(t.members)),
        DeclarationKindV::Protocol(_) => Seq::empty(),
    }
}

/// The nodes a walk of the declarations `s` visits, in order.
pub open spec fn declarations_nodes(s: Seq<DeclarationV>) -> Seq<ExprV>
    decreases s.len(),
{
    if s.len() == 0 {
        Seq::empty()
    } else {
        declarations_nodes(s.drop_last()) + declaration_nodes(s.last())
    }
}

proof fn lemma_members_v_index(s: Seq<TypeMember>)
    ensures
        members_v(s).len() == s.len(),
        forall|i: int| 0 <= i < s.len() ==> #[trigger] members_v(s)[i] == member_v(s[i]),
    decreases s.len(),
{
    if s.len() > 0 {
        lemma_members_v_index(s.drop_last());
    }
}

proof fn lemma_declarations_v_index(s: Seq<Declaration>)
    ensures
        declarations_v(s).len() == s.len(),
        forall|i: int| 0 <= i < s.len() ==> #[trigger] declarations_v(s)[i] == declaration_v(s[i]),
    decreases s.len(),
{
    if s.len() > 0 {
        lemma_declarations_v_index(s.drop_last());
    }
}

proof fn lemma_member_roots_take(s: Seq<TypeMemberV>, i: int)
    requires
        0 <= i < s.len(),
    ensures
        member_roots(s.take(i + 1)) == member_roots(s.take(i)).push(member_root(s[i])),
{
    assert(s.take(i + 1).drop_last() =~= s.take(i));
}

/// Appends the nodes of each of `items` in pre-order.
fn walk_list_into<'a>(items: &'a Vec<Expr>, out: &mut Vec<&'a Expr>)
    ensures
        nodes_v(final(out)@) == nodes_v(old(out)@) + preorder_all(exprs_v(items@)),
{
    let ghost start = nodes_v(out@);
    proof {
        lemma_exprs_v_index(items@);
        assert(exprs_v(items@).take(0) =~= Seq::<ExprV>::empty());
    }
    let mut i: usize = 0;
    while i < items.len()
        invariant
            0 <= i <= items.len(),
            exprs_v(items@).len() == items@.len(),
            forall|j: int| 0 <= j < items@.len() ==> #[trigger] exprs_v(items@)[j] == items@[j]@,
            nodes_v(out@) == start + preorder_all(exprs_v(items@).take(i as int)),
        decreases items.len() - i,
    {
        proof {
            assert(exprs_v(items@).take(i as int + 1).drop_last() =~= exprs_v(items@).take(i as int));
        }
        walk_into(&items[i], out);
        proof {
            assert(start + preorder_all(exprs_v(items@).take(i as int)) + preorder(items@[i as int]@) =~= start
                + preorder_all(exprs_v(items@).take(i as int + 1)));
        }
        i = i + 1;
    }
    proof {
        assert(exprs_v(items@).take(items@.len() as int) =~= exprs_v(items@));
    }
}

/// Appends the nodes of a declaration (see `declaration_nodes`).
#[verifier::loop_isolation(false)]
fn walk_declaration_into<'a>(declaration: &'a Declaration, out: &mut Vec<&'a Expr>)
    ensures
        nodes_v(final(out)@) == nodes_v(old(out)@) + declaration_nodes(declaration_v(*declaration)),
{
    let ghost start = nodes_v(out@);
    match &declaration.kind {
        DeclarationKind::Function(f) => {
            walk_into(&f.body, out);
        },
        DeclarationKind::Type(t) => {
            match &t.parent {
                Some(p) => {
                    walk_list_into(&p.args, out);
                },
                None => {
                    proof {
                        assert(start + Seq::<ExprV>::empty() =~= start);
                    }
                },
            }
            let ghost mid = nodes_v(out@);
            let ghost ms = members_v(t.members@);
            proof {
                lemma_members_v_index(t.members@);
                assert(ms.take(0) =~= Seq::<TypeMemberV>::empty());
                assert(mid + preorder_all(Seq::<ExprV>::empty()) =~= mid);
            }
            let mut i: usize = 0;
            while i < t.members.len()
                invariant
                    0 <= i <= t.members@.len(),
                    ms == members_v(t.members@),
                    ms.len() == t.members@.len(),
                    forall|j: int| 0 <= j < t.members@.len() ==> #[trigger] ms[j] == member_v(t.members@[j]),
                    nodes_v(out@) == mid + preorder_all(member_roots(ms.take(i as int))),
                decreases t.members.len() - i,
            {
                proof {
                    lemma_member_roots_take(ms, i as int);
                    let r = member_roots(ms.take(i as int)).push(member_root(ms[i as int]));
                    assert(r.drop_last() =~= member_roots(ms.take(i as int)));
                }
                match &t.members[i].kind {
                    TypeMemberKind::Attribute(a) => {
                        walk_into(&a.initializer, out);
                    },
                    TypeMemberKind::Method(f) => {
                        walk_into(&f.body, out);
                    },
                }
                proof {
                    let r = member_roots(ms.take(i as int)).push(member_root(ms[i as int]));
                    assert(preorder_all(r) == preorder_all(member_roots(ms.take(i as int))) + preorder(member_root(ms[i as int])));
                }
                i = i + 1;
            }
            proof {
                assert(ms.take(i as int) =~= ms);
            }
        },
        DeclarationKind::Protocol(_) => {
            proof {
                assert(start + Seq::<ExprV>::empty() =~= start);
            }
        },
    }
}

/// Walks a declaration: every node of its expressions, in pre-order (see
/// `declaration_nodes`).
pub fn walk_declaration<'a>(declaration: &'a Declaration) -> (r: Vec<&'a Expr>)
    ensures
        nodes_v(r@) == declaration_nodes(declaration_v(*declaration)),
{
    let mut out: Vec<&'a Expr> = Vec::new();
    walk_declaration_into(declaration, &mut out);
    proof {
        assert(Seq::<ExprV>::empty() + declaration_nodes(declaration_v(*declaration)) =~= declaration_nodes(
            declaration_v(*declaration),
        ));
    }
    out
}

/// Walks a program: the nodes of each declaration in order, then those of
/// the entry expression, each in pre-order.
pub fn walk_program<'a>(program: &'a Program) -> (r: Vec<&'a Expr>)
    ensures
        nodes_v(r@) == declarations_nodes(program@.declarations) + preorder(program@.entry),
{
    let mut out: Vec<&'a Expr> = Vec::new();
    let ghost ds = declarations_v(program.declarations@);
    proof {
        lemma_declarations_v_index(program.declarations@);
        assert(ds.take(0) =~= Seq::<DeclarationV>::empty());
        assert(nodes_v(out@) =~= Seq::<ExprV>::empty());
    }
    let mut i: usize = 0;
    while i < program.declarations.len()
        invariant
            0 <= i <= program.declarations@.len(),
            ds == declarations_v(program.declarations@),
            ds.len() == program.declarations@.len(),
            forall|j: int| 0 <= j < program.declarations@.len() ==> #[trigger] ds[j] == declaration_v(program.declarations@[j]),
            nodes_v(out@) == declarations_nodes(ds.take(i as int)),
        decreases program.declarations.len() - i,
    {
        proof {
            assert(ds.take(i as int + 1).drop_last() =~= ds.take(i as int));
        }
        walk_declaration_into(&program.declarations[i], &mut out);
        i = i + 1;
    }
    proof {
        assert(ds.take(i as int) =~= ds);
    }
    walk_into(&program.entry, &mut out);
    out
}

} // verus!
