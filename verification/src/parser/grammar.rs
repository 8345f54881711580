//! The grammar that the LL(1) parser recognises, written as one spec function
//! per non-terminal.
//!
//! Each function takes the token sequence and the index of the lookahead token
//! and returns the parsed value (or the error reported) together with the
//! index of the next lookahead token. The conditions `p < q < ts.len()` that
//! guard recursive calls always hold for the parser's own positions; they only
//! make the recursion visibly well-founded.
use vstd::prelude::*;

use crate::ast::{
    AssignTargetV, AttributeDeclV, BinaryOp, DeclarationKindV, DeclarationV, ElifV, ExprKindV, ExprV,
    FunctionDeclV, LetBindingV, LiteralV, MatchCaseV, ParamV, PatternV, ProgramV, ProtocolDeclV,
    ProtocolMethodV, SourceSpan, TypeDeclV, TypeMemberKindV, TypeMemberV, TypeParentV, TypeRefV, UnaryOp,
};
use crate::token::{kind_tag, lemma_kind_tag_eof, Span, Token, TokenKind};

verus! {

broadcast use lemma_kind_tag_eof;

/// Model of a parse error kind.
pub enum ParseErrorKindV {
    UnexpectedToken { expected: Seq<char>, found: Seq<char> },
    ExpectedExpression { found: Seq<char> },
    ExpectedIdentifier { found: Seq<char> },
    InvalidAssignmentTarget,
    Message(Seq<char>),
}

/// Model of a parse error.
pub struct ParseErrorV {
    pub kind: ParseErrorKindV,
    pub span: SourceSpan,
}

/// Plain equality of two values. Unlike `==` written directly in a contract,
/// it is not unfolded into a field-by-field extensional comparison.
pub open spec fn equals<T>(a: T, b: T) -> bool {
    a == b
}

/// A parse result and the index of the next lookahead token.
pub type PR<T> = (Result<T, ParseErrorV>, int);

/// Rust's `Debug` rendering of a string: the quoted, escaped text.
pub uninterp spec fn debug_quoted(s: Seq<char>) -> Seq<char>;

/// Human-readable description of a token kind, used in diagnostics.
pub open spec fn kind_name(k: TokenKind) -> Seq<char> {
    match k {
        TokenKind::Number(n) => "number literal `"@ + n.text@ + "`"@,
        TokenKind::StringLit(s) => "string literal "@ + debug_quoted(s@),
        TokenKind::True => "`true`"@,
        TokenKind::False => "`false`"@,
        TokenKind::Plus => "`+`"@,
        TokenKind::Minus => "`-`"@,
        TokenKind::Star => "`*`"@,
        TokenKind::Slash => "`/`"@,
        TokenKind::Caret => "`^`"@,
        TokenKind::Percent => "`%`"@,
        TokenKind::At => "`@`"@,
        TokenKind::AtAt => "`@@`"@,
        TokenKind::EqEq => "`==`"@,
        TokenKind::Neq => "`!=`"@,
        TokenKind::Lt => "`<`"@,
        TokenKind::Gt => "`>`"@,
        TokenKind::Leq => "`<=`"@,
        TokenKind::Geq => "`>=`"@,
        TokenKind::And => "`&`"@,
        TokenKind::Or => "`|`"@,
        TokenKind::Not => "`!`"@,
        TokenKind::Assign => "`=`"@,
        TokenKind::ColonEq => "`:=`"@,
        TokenKind::LParen => "`(`"@,
        TokenKind::RParen => "`)`"@,
        TokenKind::LBrace => "`{`"@,
        TokenKind::RBrace => "`}`"@,
        TokenKind::LBracket => "`[`"@,
        TokenKind::RBracket => "`]`"@,
        TokenKind::Semicolon => "`;`"@,
        TokenKind::Comma => "`,`"@,
        TokenKind::Colon => "`:`"@,
        TokenKind::Dot => "`.`"@,
        TokenKind::Arrow => "`->`"@,
        TokenKind::FatArrow => "`=>`"@,
        TokenKind::Pipe => "`|`"@,
        TokenKind::Let => "`let`"@,
        TokenKind::In => "`in`"@,
        TokenKind::If => "`if`"@,
        TokenKind::Elif => "`elif`"@,
        TokenKind::Else => "`else`"@,
        TokenKind::While => "`while`"@,
        TokenKind::For => "`for`"@,
        TokenKind::Function => "`function`"@,
        TokenKind::Type => "`type`"@,
        TokenKind::Inherits => "`inherits`"@,
        TokenKind::New => "`new`"@,
        TokenKind::SelfKw => "`self`"@,
        TokenKind::Base => "`base`"@,
        TokenKind::Is => "`is`"@,
        TokenKind::As => "`as`"@,
        TokenKind::Protocol => "`protocol`"@,
        TokenKind::Extends => "`extends`"@,
        TokenKind::Def => "`def`"@,
        TokenKind::Match => "`match`"@,
        TokenKind::Case => "`case`"@,
        TokenKind::Underscore => "`_`"@,
        TokenKind::Ident(s) => "identifier `"@ + s@ + "`"@,
        TokenKind::Eof => "end of file"@,
    }
}

pub open spec fn tspan(ts: Seq<Token>, p: int) -> SourceSpan {
    SourceSpan { line: ts[p].span.line, col: ts[p].span.col }
}

/// The lookahead token at `p` is of the same variant as `k`.
pub open spec fn at(ts: Seq<Token>, p: int, k: TokenKind) -> bool {
    kind_tag(ts[p].kind) == kind_tag(k)
}

/// Position after consuming the token at `p`; the end-of-file token is never consumed.
pub open spec fn adv(ts: Seq<Token>, p: int) -> int {
    if at(ts, p, TokenKind::Eof) {
        p
    } else {
        p + 1
    }
}

/// `q` lies strictly after `p` and inside the token sequence.
pub open spec fn step(ts: Seq<Token>, p: int, q: int) -> bool {
    p < q < ts.len()
}

/// `q` lies at or after `p` and inside the token sequence.
pub open spec fn pos(ts: Seq<Token>, p: int, q: int) -> bool {
    p <= q < ts.len()
}

pub open spec fn stuck<T>(ts: Seq<Token>, p: int) -> PR<T> {
    (Err(ParseErrorV { kind: ParseErrorKindV::Message(Seq::empty()), span: tspan(ts, p) }), p)
}

pub open spec fn unexpected(ts: Seq<Token>, p: int, expected: Seq<char>) -> ParseErrorV {
    ParseErrorV {
        kind: ParseErrorKindV::UnexpectedToken { expected, found: kind_name(ts[p].kind) },
        span: tspan(ts, p),
    }
}

pub open spec fn expected_expression(ts: Seq<Token>, p: int) -> ParseErrorV {
    ParseErrorV { kind: ParseErrorKindV::ExpectedExpression { found: kind_name(ts[p].kind) }, span: tspan(ts, p) }
}

/// `consume`: the token at `p` must be of the variant of `k`.
pub open spec fn g_expect(ts: Seq<Token>, p: int, k: TokenKind, expected: Seq<char>) -> PR<SourceSpan> {
    if at(ts, p, k) {
        (Ok(tspan(ts, p)), adv(ts, p))
    } else {
        (Err(unexpected(ts, p, expected)), p)
    }
}

/// `consume_identifier`: an identifier token.
pub open spec fn g_ident(ts: Seq<Token>, p: int) -> PR<Seq<char>> {
    match ts[p].kind {
        TokenKind::Ident(n) => (Ok(n@), adv(ts, p)),
        _ => (
            Err(ParseErrorV {
                kind: ParseErrorKindV::ExpectedIdentifier { found: kind_name(ts[p].kind) },
                span: tspan(ts, p),
            }),
            adv(ts, p),
        ),
    }
}

/// `parse_name`: an identifier, or `base` used as a plain name.
pub open spec fn g_name(ts: Seq<Token>, p: int) -> PR<Seq<char>> {
    match ts[p].kind {
        TokenKind::Ident(n) => (Ok(n@), adv(ts, p)),
        TokenKind::Base => (Ok("base"@), adv(ts, p)),
        _ => (
            Err(ParseErrorV {
                kind: ParseErrorKindV::ExpectedIdentifier { found: kind_name(ts[p].kind) },
                span: tspan(ts, p),
            }),
            adv(ts, p),
        ),
    }
}

/// FIRST(Declaration).
pub open spec fn starts_declaration(k: TokenKind) -> bool {
    k is Function || k is Type || k is Protocol
}

/// FIRST(Primary).
pub open spec fn starts_primary(k: TokenKind) -> bool {
    ||| k is Number
    ||| k is StringLit
    ||| k is True
    ||| k is False
    ||| k is Ident
    ||| k is SelfKw
    ||| k is Base
    ||| k is LParen
    ||| k is LBrace
    ||| k is LBracket
    ||| k is Let
    ||| k is If
    ||| k is While
    ||| k is For
    ||| k is New
    ||| k is Match
}

/// FIRST(Expr).
pub open spec fn starts_expression(k: TokenKind) -> bool {
    starts_primary(k) || k is Minus || k is Not
}

/// Zero or more `;`.
pub open spec fn skip_semicolons(ts: Seq<Token>, p: int) -> int
    decreases ts.len() - p,
{
    if at(ts, p, TokenKind::Semicolon) && step(ts, p, adv(ts, p)) {
        skip_semicolons(ts, adv(ts, p))
    } else {
        p
    }
}

pub open spec fn mk(kind: ExprKindV, span: SourceSpan) -> ExprV {
    ExprV { kind, span }
}

pub open spec fn bin(op: BinaryOp, l: ExprV, r: ExprV) -> ExprV {
    mk(ExprKindV::Binary { op, left: Box::new(l), right: Box::new(r) }, l.span)
}

/// Type suffixes `T*` (iterable) and `T[]` (vector).
pub open spec fn g_type_suffix(ts: Seq<Token>, p: int, ty: TypeRefV) -> PR<TypeRefV>
    decreases ts.len() - p,
{
    if at(ts, p, TokenKind::Star) {
        let q = adv(ts, p);
        if step(ts, p, q) {
            g_type_suffix(ts, q, TypeRefV::Named { name: "Iterable"@, args: seq![ty] })
        } else {
            stuck(ts, p)
        }
    } else if at(ts, p, TokenKind::LBracket) {
        let q = adv(ts, p);
        let (c, r) = g_expect(ts, q, TokenKind::RBracket, "`]` after vector type suffix"@);
        match c {
            Err(e) => (Err(e), r),
            Ok(_) => if step(ts, p, r) {
                g_type_suffix(ts, r, TypeRefV::Named { name: "Vector"@, args: seq![ty] })
            } else {
                stuck(ts, p)
            },
        }
    } else {
        (Ok(ty), p)
    }
}

/// The assignment target denoted by an expression, if it denotes one.
pub open spec fn target_from(e: ExprV) -> Result<AssignTargetV, ParseErrorV> {
    match e.kind {
        ExprKindV::Variable(n) => Ok(AssignTargetV::Variable(n)),
        ExprKindV::Member { object, member } => Ok(AssignTargetV::Member { object, field: member }),
        ExprKindV::Index { object, index } => Ok(AssignTargetV::Index { object, index }),
        _ => Err(ParseErrorV { kind: ParseErrorKindV::InvalidAssignmentTarget, span: e.span }),
    }
}

/// `parse_pattern`: one match pattern.
pub open spec fn g_pattern(ts: Seq<Token>, p: int) -> PR<PatternV> {
    let q = adv(ts, p);
    match ts[p].kind {
        TokenKind::Underscore => (Ok(PatternV::Wildcard), q),
        TokenKind::Number(n) => (Ok(PatternV::Literal(LiteralV::Number { bits: n.bits, text: n.text@ })), q),
        TokenKind::StringLit(s) => (Ok(PatternV::Literal(LiteralV::Str(s@))), q),
        TokenKind::True => (Ok(PatternV::Literal(LiteralV::Boolean(true))), q),
        TokenKind::False => (Ok(PatternV::Literal(LiteralV::Boolean(false))), q),
        TokenKind::Ident(n) => if at(ts, q, TokenKind::Colon) {
            let (t, r) = g_type_ref(ts, adv(ts, q));
            match t {
                Err(e) => (Err(e), r),
                Ok(t) => (Ok(PatternV::Type(t, Some(n@))), r),
            }
        } else {
            (Ok(PatternV::Variable(n@)), q)
        },
        _ => (
            Err(ParseErrorV {
                kind: ParseErrorKindV::Message("invalid match pattern: "@ + kind_name(ts[p].kind)),
                span: tspan(ts, p),
            }),
            q,
        ),
    }
}

/// Type := Ident (`<` TypeList `>`)? Suffix*
pub open spec fn g_type_ref(ts: Seq<Token>, p: int) -> PR<TypeRefV>
    decreases ts.len() - p, 1int,
{
    let (n, p1) = g_ident(ts, p);
    match n {
        Err(e) => (Err(e), p1),
        Ok(name) => if at(ts, p1, TokenKind::Lt) {
            let q = adv(ts, p1);
            if step(ts, p, q) {
                let (a, p2) = g_type_list(ts, q, Seq::empty());
                match a {
                    Err(e) => (Err(e), p2),
                    Ok(args) => {
                        let (c, p3) = g_expect(ts, p2, TokenKind::Gt, "`>` after type arguments"@);
                        match c {
                            Err(e) => (Err(e), p3),
                            Ok(_) => g_type_suffix(ts, p3, TypeRefV::Named { name, args }),
                        }
                    },
                }
            } else {
                stuck(ts, p)
            }
        } else {
            g_type_suffix(ts, p1, TypeRefV::Named { name, args: Seq::empty() })
        },
    }
}

/// TypeList := Type (`,` Type)*
pub open spec fn g_type_list(ts: Seq<Token>, p: int, acc: Seq<TypeRefV>) -> PR<Seq<TypeRefV>>
    decreases ts.len() - p, 2int,
{
    let (t, p1) = g_type_ref(ts, p);
    match t {
        Err(e) => (Err(e), p1),
        Ok(t) => {
            let acc = acc.push(t);
            if at(ts, p1, TokenKind::Comma) {
                let q = adv(ts, p1);
                if step(ts, p, q) {
                    g_type_list(ts, q, acc)
                } else {
                    stuck(ts, p)
                }
            } else {
                (Ok(acc), p1)
            }
        },
    }
}

/// Annotation := (`:` Type)?
pub open spec fn g_annotation(ts: Seq<Token>, p: int) -> PR<Option<TypeRefV>> {
    if at(ts, p, TokenKind::Colon) {
        let (t, r) = g_type_ref(ts, adv(ts, p));
        match t {
            Err(e) => (Err(e), r),
            Ok(t) => (Ok(Some(t)), r),
        }
    } else {
        (Ok(None), p)
    }
}

// ---------------------------------------------------------------------------
// Expressions
// ---------------------------------------------------------------------------

/// Expr := Assignment
pub open spec fn g_expression(ts: Seq<Token>, p: int) -> PR<ExprV>
    decreases ts.len() - p, 15int,
{
    g_assignment(ts, p)
}

/// Assignment := Or (`:=` Assignment)?
pub open spec fn g_assignment(ts: Seq<Token>, p: int) -> PR<ExprV>
    decreases ts.len() - p, 14int,
{
    let (e, p1) = g_or(ts, p);
    match e {
        Err(er) => (Err(er), p1),
        Ok(ev) => if at(ts, p1, TokenKind::ColonEq) {
            let q = adv(ts, p1);
            if step(ts, p, q) {
                let (v, p2) = g_assignment(ts, q);
                match v {
                    Err(er) => (Err(er), p2),
                    Ok(vv) => match target_from(ev) {
                        Err(er) => (Err(er), p2),
                        Ok(t) => (Ok(mk(ExprKindV::Assign { target: t, value: Box::new(vv) }, ev.span)), p2),
                    },
                }
            } else {
                stuck(ts, p)
            }
        } else {
            (Ok(ev), p1)
        },
    }
}

/// AssignmentNoOr := And (`:=` AssignmentNoOr)?  (head of a vector literal)
pub open spec fn g_assignment_without_or(ts: Seq<Token>, p: int) -> PR<ExprV>
    decreases ts.len() - p, 12int,
{
    let (e, p1) = g_and(ts, p);
    match e {
        Err(er) => (Err(er), p1),
        Ok(ev) => if at(ts, p1, TokenKind::ColonEq) {
            let q = adv(ts, p1);
            if step(ts, p, q) {
                let (v, p2) = g_assignment_without_or(ts, q);
                match v {
                    Err(er) => (Err(er), p2),
                    Ok(vv) => match target_from(ev) {
                        Err(er) => (Err(er), p2),
                        Ok(t) => (Ok(mk(ExprKindV::Assign { target: t, value: Box::new(vv) }, ev.span)), p2),
                    },
                }
            } else {
                stuck(ts, p)
            }
        } else {
            (Ok(ev), p1)
        },
    }
}

/// Or := And (`|` And)*
pub open spec fn g_or(ts: Seq<Token>, p: int) -> PR<ExprV>
    decreases ts.len() - p, 13int,
{
    let (e, p1) = g_and(ts, p);
    match e {
        Err(er) => (Err(er), p1),
        Ok(ev) => if pos(ts, p, p1) {
            g_or_tail(ts, p1, ev)
        } else {
            stuck(ts, p)
        },
    }
}

pub open spec fn g_or_tail(ts: Seq<Token>, p: int, l: ExprV) -> PR<ExprV>
    decreases ts.len() - p, 1int,
{
    if at(ts, p, TokenKind::Or) {
        let q = adv(ts, p);
        if step(ts, p, q) {
            let (r, p1) = g_and(ts, q);
            match r {
                Err(er) => (Err(er), p1),
                Ok(rv) => if step(ts, p, p1) {
                    g_or_tail(ts, p1, bin(BinaryOp::Or, l, rv))
                } else {
                    stuck(ts, p)
                },
            }
        } else {
            stuck(ts, p)
        }
    } else {
        (Ok(l), p)
    }
}

/// And := Equality (`&` Equality)*
pub open spec fn g_and(ts: Seq<Token>, p: int) -> PR<ExprV>
    decreases ts.len() - p, 11int,
{
    let (e, p1) = g_equality(ts, p);
    match e {
        Err(er) => (Err(er), p1),
        Ok(ev) => if pos(ts, p, p1) {
            g_and_tail(ts, p1, ev)
        } else {
            stuck(ts, p)
        },
    }
}

pub open spec fn g_and_tail(ts: Seq<Token>, p: int, l: ExprV) -> PR<ExprV>
    decreases ts.len() - p, 1int,
{
    if at(ts, p, TokenKind::And) {
        let q = adv(ts, p);
        if step(ts, p, q) {
            let (r, p1) = g_equality(ts, q);
            match r {
                Err(er) => (Err(er), p1),
                Ok(rv) => if step(ts, p, p1) {
                    g_and_tail(ts, p1, bin(BinaryOp::And, l, rv))
                } else {
                    stuck(ts, p)
                },
            }
        } else {
            stuck(ts, p)
        }
    } else {
        (Ok(l), p)
    }
}

/// The equality operator that the token at `p` denotes, if any.
pub open spec fn equality_op(ts: Seq<Token>, p: int) -> Option<BinaryOp> {
    if at(ts, p, TokenKind::EqEq) {
        Some(BinaryOp::Equal)
    } else if at(ts, p, TokenKind::Neq) {
        Some(BinaryOp::NotEqual)
    } else {
        None
    }
}

/// The comparison operator that the token at `p` denotes, if any.
pub open spec fn comparison_op(ts: Seq<Token>, p: int) -> Option<BinaryOp> {
    if at(ts, p, TokenKind::Lt) {
        Some(BinaryOp::Less)
    } else if at(ts, p, TokenKind::Leq) {
        Some(BinaryOp::LessEqual)
    } else if at(ts, p, TokenKind::Gt) {
        Some(BinaryOp::Greater)
    } else if at(ts, p, TokenKind::Geq) {
        Some(BinaryOp::GreaterEqual)
    } else {
        None
    }
}

pub open spec fn concat_op(ts: Seq<Token>, p: int) -> Option<BinaryOp> {
    if at(ts, p, TokenKind::At) {
        Some(BinaryOp::Concat)
    } else if at(ts, p, TokenKind::AtAt) {
        Some(BinaryOp::ConcatSpace)
    } else {
        None
    }
}

pub open spec fn term_op(ts: Seq<Token>, p: int) -> Option<BinaryOp> {
    if at(ts, p, TokenKind::Plus) {
        Some(BinaryOp::Add)
    } else if at(ts, p, TokenKind::Minus) {
        Some(BinaryOp::Subtract)
    } else {
        None
    }
}

pub open spec fn factor_op(ts: Seq<Token>, p: int) -> Option<BinaryOp> {
    if at(ts, p, TokenKind::Star) {
        Some(BinaryOp::Multiply)
    } else if at(ts, p, TokenKind::Slash) {
        Some(BinaryOp::Divide)
    } else if at(ts, p, TokenKind::Percent) {
        Some(BinaryOp::Modulo)
    } else {
        None
    }
}

/// Equality := Comparison ((`==` | `!=`) Comparison)*
pub open spec fn g_equality(ts: Seq<Token>, p: int) -> PR<ExprV>
    decreases ts.len() - p, 10int,
{
    let (e, p1) = g_comparison(ts, p);
    match e {
        Err(er) => (Err(er), p1),
        Ok(ev) => if pos(ts, p, p1) {
            g_equality_tail(ts, p1, ev)
        } else {
            stuck(ts, p)
        },
    }
}

pub open spec fn g_equality_tail(ts: Seq<Token>, p: int, l: ExprV) -> PR<ExprV>
    decreases ts.len() - p, 1int,
{
    match equality_op(ts, p) {
        Some(op) => {
            let q = adv(ts, p);
            if step(ts, p, q) {
                let (r, p1) = g_comparison(ts, q);
                match r {
                    Err(er) => (Err(er), p1),
                    Ok(rv) => if step(ts, p, p1) {
                        g_equality_tail(ts, p1, bin(op, l, rv))
                    } else {
                        stuck(ts, p)
                    },
                }
            } else {
                stuck(ts, p)
            }
        },
        None => (Ok(l), p),
    }
}

/// Comparison := TypeTest ((`<` | `<=` | `>` | `>=`) TypeTest)*
pub open spec fn g_comparison(ts: Seq<Token>, p: int) -> PR<ExprV>
    decreases ts.len() - p, 9int,
{
    let (e, p1) = g_type_test(ts, p);
    match e {
        Err(er) => (Err(er), p1),
        Ok(ev) => if pos(ts, p, p1) {
            g_comparison_tail(ts, p1, ev)
        } else {
            stuck(ts, p)
        },
    }
}

pub open spec fn g_comparison_tail(ts: Seq<Token>, p: int, l: ExprV) -> PR<ExprV>
    decreases ts.len() - p, 1int,
{
    match comparison_op(ts, p) {
        Some(op) => {
            let q = adv(ts, p);
            if step(ts, p, q) {
                let (r, p1) = g_type_test(ts, q);
                match r {
                    Err(er) => (Err(er), p1),
                    Ok(rv) => if step(ts, p, p1) {
                        g_comparison_tail(ts, p1, bin(op, l, rv))
                    } else {
                        stuck(ts, p)
                    },
                }
            } else {
                stuck(ts, p)
            }
        },
        None => (Ok(l), p),
    }
}

/// TypeTest := Concat ((`is` | `as`) Type)*
pub open spec fn g_type_test(ts: Seq<Token>, p: int) -> PR<ExprV>
    decreases ts.len() - p, 8int,
{
    let (e, p1) = g_concat(ts, p);
    match e {
        Err(er) => (Err(er), p1),
        Ok(ev) => if pos(ts, p, p1) {
            g_type_test_tail(ts, p1, ev)
        } else {
            stuck(ts, p)
        },
    }
}

pub open spec fn g_type_test_tail(ts: Seq<Token>, p: int, l: ExprV) -> PR<ExprV>
    decreases ts.len() - p, 1int,
{
    if at(ts, p, TokenKind::Is) || at(ts, p, TokenKind::As) {
        let q = adv(ts, p);
        let (t, p1) = g_type_ref(ts, q);
        match t {
            Err(er) => (Err(er), p1),
            Ok(t) => if step(ts, p, p1) {
                let e = if at(ts, p, TokenKind::Is) {
                    mk(ExprKindV::TypeTest { expr: Box::new(l), type_ref: t }, l.span)
                } else {
                    mk(ExprKindV::Downcast { expr: Box::new(l), type_ref: t }, l.span)
                };
                g_type_test_tail(ts, p1, e)
            } else {
                stuck(ts, p)
            },
        }
    } else {
        (Ok(l), p)
    }
}

/// Concat := Term ((`@` | `@@`) Term)*
pub open spec fn g_concat(ts: Seq<Token>, p: int) -> PR<ExprV>
    decreases ts.len() - p, 7int,
{
    let (e, p1) = g_term(ts, p);
    match e {
        Err(er) => (Err(er), p1),
        Ok(ev) => if pos(ts, p, p1) {
            g_concat_tail(ts, p1, ev)
        } else {
            stuck(ts, p)
        },
    }
}

pub open spec fn g_concat_tail(ts: Seq<Token>, p: int, l: ExprV) -> PR<ExprV>
    decreases ts.len() - p, 1int,
{
    match concat_op(ts, p) {
        Some(op) => {
            let q = adv(ts, p);
            if step(ts, p, q) {
                let (r, p1) = g_term(ts, q);
                match r {
                    Err(er) => (Err(er), p1),
                    Ok(rv) => if step(ts, p, p1) {
                        g_concat_tail(ts, p1, bin(op, l, rv))
                    } else {
                        stuck(ts, p)
                    },
                }
            } else {
                stuck(ts, p)
            }
        },
        None => (Ok(l), p),
    }
}

/// Term := Factor ((`+` | `-`) Factor)*
pub open spec fn g_term(ts: Seq<Token>, p: int) -> PR<ExprV>
    decreases ts.len() - p, 6int,
{
    let (e, p1) = g_factor(ts, p);
    match e {
        Err(er) => (Err(er), p1),
        Ok(ev) => if pos(ts, p, p1) {
            g_term_tail(ts, p1, ev)
        } else {
            stuck(ts, p)
        },
    }
}

pub open spec fn g_term_tail(ts: Seq<Token>, p: int, l: ExprV) -> PR<ExprV>
    decreases ts.len() - p, 1int,
{
    match term_op(ts, p) {
        Some(op) => {
            let q = adv(ts, p);
            if step(ts, p, q) {
                let (r, p1) = g_factor(ts, q);
                match r {
                    Err(er) => (Err(er), p1),
                    Ok(rv) => if step(ts, p, p1) {
                        g_term_tail(ts, p1, bin(op, l, rv))
                    } else {
                        stuck(ts, p)
                    },
                }
            } else {
                stuck(ts, p)
            }
        },
        None => (Ok(l), p),
    }
}

/// Factor := Unary ((`*` | `/` | `%`) Unary)*
pub open spec fn g_factor(ts: Seq<Token>, p: int) -> PR<ExprV>
    decreases ts.len() - p, 5int,
{
    let (e, p1) = g_unary(ts, p);
    match e {
        Err(er) => (Err(er), p1),
        Ok(ev) => if pos(ts, p, p1) {
            g_factor_tail(ts, p1, ev)
        } else {
            stuck(ts, p)
        },
    }
}

pub open spec fn g_factor_tail(ts: Seq<Token>, p: int, l: ExprV) -> PR<ExprV>
    decreases ts.len() - p, 1int,
{
    match factor_op(ts, p) {
        Some(op) => {
            let q = adv(ts, p);
            if step(ts, p, q) {
                let (r, p1) = g_unary(ts, q);
                match r {
                    Err(er) => (Err(er), p1),
                    Ok(rv) => if step(ts, p, p1) {
                        g_factor_tail(ts, p1, bin(op, l, rv))
                    } else {
                        stuck(ts, p)
                    },
                }
            } else {
                stuck(ts, p)
            }
        },
        None => (Ok(l), p),
    }
}

/// Unary := `-` Unary | `!` Unary | Power
pub open spec fn g_unary(ts: Seq<Token>, p: int) -> PR<ExprV>
    decreases ts.len() - p, 4int,
{
    if at(ts, p, TokenKind::Minus) || at(ts, p, TokenKind::Not) {
        let op = if at(ts, p, TokenKind::Minus) {
            UnaryOp::Negate
        } else {
            UnaryOp::Not
        };
        let q = adv(ts, p);
        if step(ts, p, q) {
            let (e, p1) = g_unary(ts, q);
            match e {
                Err(er) => (Err(er), p1),
                Ok(ev) => (Ok(mk(ExprKindV::Unary { op, expr: Box::new(ev) }, tspan(ts, p))), p1),
            }
        } else {
            stuck(ts, p)
        }
    } else {
        g_power(ts, p)
    }
}

/// Power := Postfix (`^` Unary)?   (right associative)
pub open spec fn g_power(ts: Seq<Token>, p: int) -> PR<ExprV>
    decreases ts.len() - p, 3int,
{
    let (e, p1) = g_postfix(ts, p);
    match e {
        Err(er) => (Err(er), p1),
        Ok(ev) => if at(ts, p1, TokenKind::Caret) {
            let q = adv(ts, p1);
            if step(ts, p, q) {
                let (r, p2) = g_unary(ts, q);
                match r {
                    Err(er) => (Err(er), p2),
                    Ok(rv) => (Ok(bin(BinaryOp::Power, ev, rv)), p2),
                }
            } else {
                stuck(ts, p)
            }
        } else {
            (Ok(ev), p1)
        },
    }
}

/// Postfix := Primary (`(` Args `)` | `.` Name | `[` Expr `]`)*
pub open spec fn g_postfix(ts: Seq<Token>, p: int) -> PR<ExprV>
    decreases ts.len() - p, 2int,
{
    let (e, p1) = g_primary(ts, p);
    match e {
        Err(er) => (Err(er), p1),
        Ok(ev) => if pos(ts, p, p1) {
            g_postfix_tail(ts, p1, ev)
        } else {
            stuck(ts, p)
        },
    }
}

/// A call on the variable `base` is a delegation to the parent's method.
pub open spec fn call_callee(e: ExprV) -> ExprV {
    if e.kind == ExprKindV::Variable("base"@) {
        mk(ExprKindV::BaseRef, e.span)
    } else {
        e
    }
}

pub open spec fn g_postfix_tail(ts: Seq<Token>, p: int, l: ExprV) -> PR<ExprV>
    decreases ts.len() - p, 1int,
{
    let q = adv(ts, p);
    if !step(ts, p, q) {
        (Ok(l), p)
    } else if at(ts, p, TokenKind::LParen) {
        let (a, p1) = g_args(ts, q);
        match a {
            Err(er) => (Err(er), p1),
            Ok(args) => if step(ts, p, p1) {
                g_postfix_tail(ts, p1, mk(ExprKindV::Call { callee: Box::new(call_callee(l)), args }, l.span))
            } else {
                stuck(ts, p)
            },
        }
    } else if at(ts, p, TokenKind::Dot) {
        let (n, p1) = g_name(ts, q);
        match n {
            Err(er) => (Err(er), p1),
            Ok(n) => if step(ts, p, p1) {
                g_postfix_tail(ts, p1, mk(ExprKindV::Member { object: Box::new(l), member: n }, l.span))
            } else {
                stuck(ts, p)
            },
        }
    } else if at(ts, p, TokenKind::LBracket) {
        let (i, p1) = g_expression(ts, q);
        match i {
            Err(er) => (Err(er), p1),
            Ok(iv) => {
                let (c, p2) = g_expect(ts, p1, TokenKind::RBracket, "`]` after index expression"@);
                match c {
                    Err(er) => (Err(er), p2),
                    Ok(_) => if step(ts, p, p2) {
                        g_postfix_tail(
                            ts,
                            p2,
                            mk(ExprKindV::Index { object: Box::new(l), index: Box::new(iv) }, l.span),
                        )
                    } else {
                        stuck(ts, p)
                    },
                }
            },
        }
    } else {
        (Ok(l), p)
    }
}

/// Primary := literal | Ident | `self` | `base` | `(` Expr `)` | Block | Vector
///          | Let | If | While | For | New | Match
pub open spec fn g_primary(ts: Seq<Token>, p: int) -> PR<ExprV>
    decreases ts.len() - p, 1int,
{
    if !starts_primary(ts[p].kind) {
        (Err(expected_expression(ts, p)), p)
    } else {
        let q = adv(ts, p);
        let sp = tspan(ts, p);
        if !step(ts, p, q) {
            stuck(ts, p)
        } else {
            match ts[p].kind {
                TokenKind::Number(n) => (Ok(mk(ExprKindV::Literal(LiteralV::Number { bits: n.bits, text: n.text@ }), sp)), q),
                TokenKind::StringLit(s) => (Ok(mk(ExprKindV::Literal(LiteralV::Str(s@)), sp)), q),
                TokenKind::True => (Ok(mk(ExprKindV::Literal(LiteralV::Boolean(true)), sp)), q),
                TokenKind::False => (Ok(mk(ExprKindV::Literal(LiteralV::Boolean(false)), sp)), q),
                TokenKind::Ident(n) => (Ok(mk(ExprKindV::Variable(n@), sp)), q),
                TokenKind::SelfKw => (Ok(mk(ExprKindV::SelfRef, sp)), q),
                TokenKind::Base => (Ok(mk(ExprKindV::Variable("base"@), sp)), q),
                TokenKind::LParen => {
                    let (e, p1) = g_expression(ts, q);
                    match e {
                        Err(er) => (Err(er), p1),
                        Ok(ev) => {
                            let (c, p2) = g_expect(ts, p1, TokenKind::RParen, "`)` after expression"@);
                            match c {
                                Err(er) => (Err(er), p2),
                                Ok(_) => (Ok(ev), p2),
                            }
                        },
                    }
                },
                TokenKind::LBrace => g_finish_block(ts, q, sp),
                TokenKind::LBracket => g_finish_vector(ts, q, sp),
                TokenKind::Let => g_finish_let(ts, q, sp),
                TokenKind::If => g_finish_if(ts, q, sp),
                TokenKind::While => g_finish_while(ts, q, sp),
                TokenKind::For => g_finish_for(ts, q, sp),
                TokenKind::New => g_finish_new(ts, q, sp),
                _ => g_finish_match(ts, q, sp),
            }
        }
    }
}

/// Args := (Expr (`,` Expr)*)? `)`
pub open spec fn g_args(ts: Seq<Token>, p: int) -> PR<Seq<ExprV>>
    decreases ts.len() - p, 17int,
{
    let (a, p1) = if at(ts, p, TokenKind::RParen) {
        (Ok(Seq::empty()), p)
    } else {
        g_args_from(ts, p, Seq::empty())
    };
    match a {
        Err(er) => (Err(er), p1),
        Ok(args) => {
            let (c, p2) = g_expect(ts, p1, TokenKind::RParen, "`)` after argument list"@);
            match c {
                Err(er) => (Err(er), p2),
                Ok(_) => (Ok(args), p2),
            }
        },
    }
}

pub open spec fn g_args_from(ts: Seq<Token>, p: int, acc: Seq<ExprV>) -> PR<Seq<ExprV>>
    decreases ts.len() - p, 16int,
{
    let (e, p1) = g_expression(ts, p);
    match e {
        Err(er) => (Err(er), p1),
        Ok(ev) => {
            let acc = acc.push(ev);
            if at(ts, p1, TokenKind::Comma) {
                let q = adv(ts, p1);
                if step(ts, p, q) {
                    g_args_from(ts, q, acc)
                } else {
                    stuck(ts, p)
                }
            } else {
                (Ok(acc), p1)
            }
        },
    }
}

/// Block := `{` (Expr (`;`)*)* `}`  (after the opening brace)
pub open spec fn g_finish_block(ts: Seq<Token>, p: int, span: SourceSpan) -> PR<ExprV>
    decreases ts.len() - p, 17int,
{
    let (items, p1) = g_block_items(ts, p, Seq::empty());
    match items {
        Err(er) => (Err(er), p1),
        Ok(items) => {
            let (c, p2) = g_expect(ts, p1, TokenKind::RBrace, "`}` after expression block"@);
            match c {
                Err(er) => (Err(er), p2),
                Ok(_) => (Ok(mk(ExprKindV::Block(items), span)), p2),
            }
        },
    }
}

pub open spec fn g_block_items(ts: Seq<Token>, p: int, acc: Seq<ExprV>) -> PR<Seq<ExprV>>
    decreases ts.len() - p, 16int,
{
    if at(ts, p, TokenKind::RBrace) || at(ts, p, TokenKind::Eof) {
        (Ok(acc), p)
    } else if at(ts, p, TokenKind::Semicolon) {
        let q = adv(ts, p);
        if step(ts, p, q) {
            g_block_items(ts, q, acc)
        } else {
            stuck(ts, p)
        }
    } else {
        let (e, p1) = g_expression(ts, p);
        match e {
            Err(er) => (Err(er), p1),
            Ok(ev) => {
                let acc = acc.push(ev);
                if at(ts, p1, TokenKind::Semicolon) {
                    let q = adv(ts, p1);
                    if step(ts, p, q) {
                        g_block_items(ts, q, acc)
                    } else {
                        stuck(ts, p)
                    }
                } else if !at(ts, p1, TokenKind::RBrace) {
                    let (c, p2) = g_expect(ts, p1, TokenKind::Semicolon, "`;` between block expressions"@);
                    match c {
                        Err(er) => (Err(er), p2),
                        Ok(_) => if step(ts, p, p2) {
                            g_block_items(ts, p2, acc)
                        } else {
                            stuck(ts, p)
                        },
                    }
                } else if step(ts, p, p1) {
                    g_block_items(ts, p1, acc)
                } else {
                    stuck(ts, p)
                }
            },
        }
    }
}

/// Vector := `]` | AssignmentNoOr `|` Name `in` Expr `]` | Expr (`,` Expr)* `,`? `]`
/// (after the opening bracket)
pub open spec fn g_finish_vector(ts: Seq<Token>, p: int, span: SourceSpan) -> PR<ExprV>
    decreases ts.len() - p, 13int,
{
    if at(ts, p, TokenKind::RBracket) {
        (Ok(mk(ExprKindV::VectorLiteral(Seq::empty()), span)), adv(ts, p))
    } else {
        let (f, p1) = g_assignment_without_or(ts, p);
        match f {
            Err(er) => (Err(er), p1),
            Ok(first) => if at(ts, p1, TokenKind::Or) {
                let q = adv(ts, p1);
                let (n, p2) = g_name(ts, q);
                match n {
                    Err(er) => (Err(er), p2),
                    Ok(var) => {
                        let (c, p3) = g_expect(ts, p2, TokenKind::In, "`in` in vector comprehension"@);
                        match c {
                            Err(er) => (Err(er), p3),
                            Ok(_) => if step(ts, p, p3) {
                                let (it, p4) = g_expression(ts, p3);
                                match it {
                                    Err(er) => (Err(er), p4),
                                    Ok(iv) => {
                                        let (c2, p5) = g_expect(ts, p4, TokenKind::RBracket, "`]` after vector comprehension"@);
                                        match c2 {
                                            Err(er) => (Err(er), p5),
                                            Ok(_) => (
                                                Ok(mk(
                                                    ExprKindV::Comprehension {
                                                        expr: Box::new(first),
                                                        var,
                                                        iterable: Box::new(iv),
                                                    },
                                                    span,
                                                )),
                                                p5,
                                            ),
                                        }
                                    },
                                }
                            } else {
                                stuck(ts, p)
                            },
                        }
                    },
                }
            } else if pos(ts, p, p1) {
                let (items, p2) = g_vector_items(ts, p1, seq![first]);
                match items {
                    Err(er) => (Err(er), p2),
                    Ok(items) => {
                        let (c, p3) = g_expect(ts, p2, TokenKind::RBracket, "`]` after vector literal"@);
                        match c {
                            Err(er) => (Err(er), p3),
                            Ok(_) => (Ok(mk(ExprKindV::VectorLiteral(items), span)), p3),
                        }
                    },
                }
            } else {
                stuck(ts, p)
            },
        }
    }
}

pub open spec fn g_vector_items(ts: Seq<Token>, p: int, acc: Seq<ExprV>) -> PR<Seq<ExprV>>
    decreases ts.len() - p, 1int,
{
    if at(ts, p, TokenKind::Comma) {
        let q = adv(ts, p);
        if at(ts, q, TokenKind::RBracket) {
            (Ok(acc), q)
        } else if step(ts, p, q) {
            let (e, p1) = g_expression(ts, q);
            match e {
                Err(er) => (Err(er), p1),
                Ok(ev) => if step(ts, p, p1) {
                    g_vector_items(ts, p1, acc.push(ev))
                } else {
                    stuck(ts, p)
                },
            }
        } else {
            stuck(ts, p)
        }
    } else {
        (Ok(acc), p)
    }
}

/// Let := Binding (`,` Binding)* `in` Expr  (after `let`)
pub open spec fn g_finish_let(ts: Seq<Token>, p: int, span: SourceSpan) -> PR<ExprV>
    decreases ts.len() - p, 2int,
{
    let (b, p1) = g_let_bindings(ts, p, Seq::empty());
    match b {
        Err(er) => (Err(er), p1),
        Ok(bindings) => {
            let (c, p2) = g_expect(ts, p1, TokenKind::In, "`in` after let bindings"@);
            match c {
                Err(er) => (Err(er), p2),
                Ok(_) => if step(ts, p, p2) {
                    let (body, p3) = g_expression(ts, p2);
                    match body {
                        Err(er) => (Err(er), p3),
                        Ok(bv) => (Ok(mk(ExprKindV::Let { bindings, body: Box::new(bv) }, span)), p3),
                    }
                } else {
                    stuck(ts, p)
                },
            }
        },
    }
}

/// Binding := Name Annotation `=` Expr
pub open spec fn g_let_bindings(ts: Seq<Token>, p: int, acc: Seq<LetBindingV>) -> PR<Seq<LetBindingV>>
    decreases ts.len() - p, 1int,
{
    let (n, p1) = g_name(ts, p);
    match n {
        Err(er) => (Err(er), p1),
        Ok(name) => {
            let (a, p2) = g_annotation(ts, p1);
            match a {
                Err(er) => (Err(er), p2),
                Ok(ty) => {
                    let (c, p3) = g_expect(ts, p2, TokenKind::Assign, "`=` in let binding"@);
                    match c {
                        Err(er) => (Err(er), p3),
                        Ok(_) => if step(ts, p, p3) {
                            let (init, p4) = g_expression(ts, p3);
                            match init {
                                Err(er) => (Err(er), p4),
                                Ok(iv) => {
                                    let acc = acc.push(LetBindingV { name, ty, init: iv });
                                    if at(ts, p4, TokenKind::Comma) {
                                        let q = adv(ts, p4);
                                        if step(ts, p, q) {
                                            g_let_bindings(ts, q, acc)
                                        } else {
                                            stuck(ts, p)
                                        }
                                    } else {
                                        (Ok(acc), p4)
                                    }
                                },
                            }
                        } else {
                            stuck(ts, p)
                        },
                    }
                },
            }
        },
    }
}

/// `(` Expr `)`, where `context` names the construct in diagnostics.
pub open spec fn g_parenthesized(ts: Seq<Token>, p: int, context: Seq<char>) -> PR<ExprV>
    decreases ts.len() - p, 1int,
{
    let (c, p1) = g_expect(ts, p, TokenKind::LParen, "`(` before "@ + context);
    match c {
        Err(er) => (Err(er), p1),
        Ok(_) => if step(ts, p, p1) {
            let (e, p2) = g_expression(ts, p1);
            match e {
                Err(er) => (Err(er), p2),
                Ok(ev) => {
                    let (c2, p3) = g_expect(ts, p2, TokenKind::RParen, "`)` after "@ + context);
                    match c2 {
                        Err(er) => (Err(er), p3),
                        Ok(_) => (Ok(ev), p3),
                    }
                },
            }
        } else {
            stuck(ts, p)
        },
    }
}

/// If := `(` Expr `)` Expr (`elif` `(` Expr `)` Expr)* `else` Expr  (after `if`)
pub open spec fn g_finish_if(ts: Seq<Token>, p: int, span: SourceSpan) -> PR<ExprV>
    decreases ts.len() - p, 2int,
{
    let (c, p1) = g_parenthesized(ts, p, "if condition"@);
    match c {
        Err(er) => (Err(er), p1),
        Ok(cond) => if step(ts, p, p1) {
            let (t, p2) = g_expression(ts, p1);
            match t {
                Err(er) => (Err(er), p2),
                Ok(then_branch) => if pos(ts, p, p2) {
                    let (el, p3) = g_elifs(ts, p2, Seq::empty());
                    match el {
                        Err(er) => (Err(er), p3),
                        Ok(elifs) => {
                            let (k, p4) = g_expect(ts, p3, TokenKind::Else, "`else` branch in if expression"@);
                            match k {
                                Err(er) => (Err(er), p4),
                                Ok(_) => if step(ts, p, p4) {
                                    let (e, p5) = g_expression(ts, p4);
                                    match e {
                                        Err(er) => (Err(er), p5),
                                        Ok(else_branch) => (
                                            Ok(mk(
                                                ExprKindV::If {
                                                    condition: Box::new(cond),
                                                    then_branch: Box::new(then_branch),
                                                    elifs,
                                                    else_branch: Box::new(else_branch),
                                                },
                                                span,
                                            )),
                                            p5,
                                        ),
                                    }
                                } else {
                                    stuck(ts, p)
                                },
                            }
                        },
                    }
                } else {
                    stuck(ts, p)
                },
            }
        } else {
            stuck(ts, p)
        },
    }
}

pub open spec fn g_elifs(ts: Seq<Token>, p: int, acc: Seq<ElifV>) -> PR<Seq<ElifV>>
    decreases ts.len() - p, 1int,
{
    if at(ts, p, TokenKind::Elif) {
        let q = adv(ts, p);
        if step(ts, p, q) {
            let (c, p1) = g_parenthesized(ts, q, "elif condition"@);
            match c {
                Err(er) => (Err(er), p1),
                Ok(cond) => if step(ts, p, p1) {
                    let (b, p2) = g_expression(ts, p1);
                    match b {
                        Err(er) => (Err(er), p2),
                        Ok(body) => if step(ts, p, p2) {
                            g_elifs(ts, p2, acc.push(ElifV { condition: cond, body }))
                        } else {
                            stuck(ts, p)
                        },
                    }
                } else {
                    stuck(ts, p)
                },
            }
        } else {
            stuck(ts, p)
        }
    } else {
        (Ok(acc), p)
    }
}

/// While := `(` Expr `)` Expr  (after `while`)
pub open spec fn g_finish_while(ts: Seq<Token>, p: int, span: SourceSpan) -> PR<ExprV>
    decreases ts.len() - p, 2int,
{
    let (c, p1) = g_parenthesized(ts, p, "while condition"@);
    match c {
        Err(er) => (Err(er), p1),
        Ok(cond) => if step(ts, p, p1) {
            let (b, p2) = g_expression(ts, p1);
            match b {
                Err(er) => (Err(er), p2),
                Ok(body) => (Ok(mk(ExprKindV::While { condition: Box::new(cond), body: Box::new(body) }, span)), p2),
            }
        } else {
            stuck(ts, p)
        },
    }
}

/// For := `(` Name `in` Expr `)` Expr  (after `for`)
pub open spec fn g_finish_for(ts: Seq<Token>, p: int, span: SourceSpan) -> PR<ExprV>
    decreases ts.len() - p, 1int,
{
    let (c, p1) = g_expect(ts, p, TokenKind::LParen, "`(` before for binding"@);
    match c {
        Err(er) => (Err(er), p1),
        Ok(_) => {
            let (n, p2) = g_name(ts, p1);
            match n {
                Err(er) => (Err(er), p2),
                Ok(var) => {
                    let (c2, p3) = g_expect(ts, p2, TokenKind::In, "`in` inside for binding"@);
                    match c2 {
                        Err(er) => (Err(er), p3),
                        Ok(_) => if step(ts, p, p3) {
                            let (it, p4) = g_expression(ts, p3);
                            match it {
                                Err(er) => (Err(er), p4),
                                Ok(iterable) => {
                                    let (c3, p5) = g_expect(ts, p4, TokenKind::RParen, "`)` after for binding"@);
                                    match c3 {
                                        Err(er) => (Err(er), p5),
                                        Ok(_) => if step(ts, p, p5) {
                                            let (b, p6) = g_expression(ts, p5);
                                            match b {
                                                Err(er) => (Err(er), p6),
                                                Ok(body) => (
                                                    Ok(mk(
                                                        ExprKindV::For {
                                                            var,
                                                            iterable: Box::new(iterable),
                                                            body: Box::new(body),
                                                        },
                                                        span,
                                                    )),
                                                    p6,
                                                ),
                                            }
                                        } else {
                                            stuck(ts, p)
                                        },
                                    }
                                },
                            }
                        } else {
                            stuck(ts, p)
                        },
                    }
                },
            }
        },
    }
}

/// New := Type (`(` Args)?  (after `new`)
pub open spec fn g_finish_new(ts: Seq<Token>, p: int, span: SourceSpan) -> PR<ExprV>
    decreases ts.len() - p, 1int,
{
    let (t, p1) = g_type_ref(ts, p);
    match t {
        Err(er) => (Err(er), p1),
        Ok(ty) => if at(ts, p1, TokenKind::LParen) {
            let q = adv(ts, p1);
            if step(ts, p, q) {
                let (a, p2) = g_args(ts, q);
                match a {
                    Err(er) => (Err(er), p2),
                    Ok(args) => (Ok(mk(ExprKindV::New { type_ref: ty, args }, span)), p2),
                }
            } else {
                stuck(ts, p)
            }
        } else {
            (Ok(mk(ExprKindV::New { type_ref: ty, args: Seq::empty() }, span)), p1)
        },
    }
}

/// Match := Expr `{` (`case` Pattern `=>` Expr `;`?)* `}`  (after `match`)
pub open spec fn g_finish_match(ts: Seq<Token>, p: int, span: SourceSpan) -> PR<ExprV>
    decreases ts.len() - p, 16int,
{
    let (v, p1) = g_expression(ts, p);
    match v {
        Err(er) => (Err(er), p1),
        Ok(value) => {
            let (c, p2) = g_expect(ts, p1, TokenKind::LBrace, "`{` before match cases"@);
            match c {
                Err(er) => (Err(er), p2),
                Ok(_) => if step(ts, p, p2) {
                    let (cs, p3) = g_match_cases(ts, p2, Seq::empty());
                    match cs {
                        Err(er) => (Err(er), p3),
                        Ok(cases) => {
                            let (c2, p4) = g_expect(ts, p3, TokenKind::RBrace, "`}` after match cases"@);
                            match c2 {
                                Err(er) => (Err(er), p4),
                                Ok(_) => (Ok(mk(ExprKindV::Match { value: Box::new(value), cases }, span)), p4),
                            }
                        },
                    }
                } else {
                    stuck(ts, p)
                },
            }
        },
    }
}

pub open spec fn g_match_cases(ts: Seq<Token>, p: int, acc: Seq<MatchCaseV>) -> PR<Seq<MatchCaseV>>
    decreases ts.len() - p, 1int,
{
    if at(ts, p, TokenKind::RBrace) || at(ts, p, TokenKind::Eof) {
        (Ok(acc), p)
    } else {
        let (c, p1) = g_expect(ts, p, TokenKind::Case, "`case` in match expression"@);
        match c {
            Err(er) => (Err(er), p1),
            Ok(_) => {
                let (pat, p2) = g_pattern(ts, p1);
                match pat {
                    Err(er) => (Err(er), p2),
                    Ok(pattern) => {
                        let (c2, p3) = g_expect(ts, p2, TokenKind::FatArrow, "`=>` after match pattern"@);
                        match c2 {
                            Err(er) => (Err(er), p3),
                            Ok(_) => if step(ts, p, p3) {
                                let (b, p4) = g_expression(ts, p3);
                                match b {
                                    Err(er) => (Err(er), p4),
                                    Ok(body) => {
                                        let p5 = if at(ts, p4, TokenKind::Semicolon) {
                                            adv(ts, p4)
                                        } else {
                                            p4
                                        };
                                        if step(ts, p, p5) {
                                            g_match_cases(ts, p5, acc.push(MatchCaseV { pattern, body }))
                                        } else {
                                            stuck(ts, p)
                                        }
                                    },
                                }
                            } else {
                                stuck(ts, p)
                            },
                        }
                    },
                }
            },
        }
    }
}

// ---------------------------------------------------------------------------
// Declarations and programs
// ---------------------------------------------------------------------------

/// The token sequence the parser works on: `ts`, with an end-of-file token
/// (at line 0, column 0) appended unless `ts` already ends with one.
pub open spec fn with_eof(ts: Seq<Token>) -> Seq<Token> {
    if ts.len() > 0 && ts.last().kind is Eof {
        ts
    } else {
        ts.push(Token { kind: TokenKind::Eof, span: Span { line: 0, col: 0 } })
    }
}

/// ParamList := `(` (Param (`,` Param)*)? `)`
pub open spec fn g_param_list(ts: Seq<Token>, p: int) -> PR<Seq<ParamV>> {
    let (c, p1) = g_expect(ts, p, TokenKind::LParen, "`(` before parameter list"@);
    match c {
        Err(e) => (Err(e), p1),
        Ok(_) => {
            let (ps, p2) = if at(ts, p1, TokenKind::RParen) {
                (Ok(Seq::empty()), p1)
            } else {
                g_params_from(ts, p1, Seq::empty())
            };
            match ps {
                Err(e) => (Err(e), p2),
                Ok(params) => {
                    let (c2, p3) = g_expect(ts, p2, TokenKind::RParen, "`)` after parameter list"@);
                    match c2 {
                        Err(e) => (Err(e), p3),
                        Ok(_) => (Ok(params), p3),
                    }
                },
            }
        },
    }
}

/// Param := Name Annotation
pub open spec fn g_params_from(ts: Seq<Token>, p: int, acc: Seq<ParamV>) -> PR<Seq<ParamV>>
    decreases ts.len() - p,
{
    let (n, p1) = g_name(ts, p);
    match n {
        Err(e) => (Err(e), p1),
        Ok(name) => {
            let (a, p2) = g_annotation(ts, p1);
            match a {
                Err(e) => (Err(e), p2),
                Ok(ty) => {
                    let acc = acc.push(ParamV { name, ty });
                    if at(ts, p2, TokenKind::Comma) {
                        let q = adv(ts, p2);
                        if step(ts, p, q) {
                            g_params_from(ts, q, acc)
                        } else {
                            stuck(ts, p)
                        }
                    } else {
                        (Ok(acc), p2)
                    }
                },
            }
        },
    }
}

/// `{` Block, where the span of the block is that of the brace.
pub open spec fn g_block_expression(ts: Seq<Token>, p: int) -> PR<ExprV> {
    let (c, p1) = g_expect(ts, p, TokenKind::LBrace, "`{` before expression block"@);
    match c {
        Err(e) => (Err(e), p1),
        Ok(span) => g_finish_block(ts, p1, span),
    }
}

/// FunctionTail := ParamList Annotation (`=>` Expr `;`? | Block)
pub open spec fn g_function_tail(ts: Seq<Token>, p: int, name: Seq<char>) -> PR<FunctionDeclV> {
    let (ps, p1) = g_param_list(ts, p);
    match ps {
        Err(e) => (Err(e), p1),
        Ok(params) => {
            let (rt, p2) = g_annotation(ts, p1);
            match rt {
                Err(e) => (Err(e), p2),
                Ok(return_type) => if at(ts, p2, TokenKind::FatArrow) {
                    let (b, p3) = g_expression(ts, adv(ts, p2));
                    match b {
                        Err(e) => (Err(e), p3),
                        Ok(body) => {
                            let p4 = if at(ts, p3, TokenKind::Semicolon) {
                                adv(ts, p3)
                            } else {
                                p3
                            };
                            (Ok(FunctionDeclV { name, params, return_type, body }), p4)
                        },
                    }
                } else if at(ts, p2, TokenKind::LBrace) {
                    let (b, p3) = g_block_expression(ts, p2);
                    match b {
                        Err(e) => (Err(e), p3),
                        Ok(body) => (Ok(FunctionDeclV { name, params, return_type, body }), p3),
                    }
                } else {
                    (Err(unexpected(ts, p2, "`=>` or function block"@)), p2)
                },
            }
        },
    }
}

/// FunctionDecl := Ident FunctionTail  (after `function`)
pub open spec fn g_function_decl(ts: Seq<Token>, p: int) -> PR<FunctionDeclV> {
    let (n, p1) = g_ident(ts, p);
    match n {
        Err(e) => (Err(e), p1),
        Ok(name) => g_function_tail(ts, p1, name),
    }
}

/// Member := `function` FunctionDecl | Name FunctionTail | Name Annotation `=` Expr `;`
pub open spec fn g_type_member(ts: Seq<Token>, p: int) -> PR<TypeMemberV> {
    let span = tspan(ts, p);
    if at(ts, p, TokenKind::Function) {
        let (f, p1) = g_function_decl(ts, adv(ts, p));
        match f {
            Err(e) => (Err(e), p1),
            Ok(f) => (Ok(TypeMemberV { kind: TypeMemberKindV::Method(f), span }), p1),
        }
    } else {
        let (n, p1) = g_name(ts, p);
        match n {
            Err(e) => (Err(e), p1),
            Ok(name) => if at(ts, p1, TokenKind::LParen) {
                let (f, p2) = g_function_tail(ts, p1, name);
                match f {
                    Err(e) => (Err(e), p2),
                    Ok(f) => (Ok(TypeMemberV { kind: TypeMemberKindV::Method(f), span }), p2),
                }
            } else {
                let (a, p2) = g_annotation(ts, p1);
                match a {
                    Err(e) => (Err(e), p2),
                    Ok(ty) => {
                        let (c, p3) = g_expect(ts, p2, TokenKind::Assign, "`=` in attribute declaration"@);
                        match c {
                            Err(e) => (Err(e), p3),
                            Ok(_) => {
                                let (i, p4) = g_expression(ts, p3);
                                match i {
                                    Err(e) => (Err(e), p4),
                                    Ok(init) => {
                                        let (c2, p5) = g_expect(
                                            ts,
                                            p4,
                                            TokenKind::Semicolon,
                                            "`;` after attribute declaration"@,
                                        );
                                        match c2 {
                                            Err(e) => (Err(e), p5),
                                            Ok(_) => (
                                                Ok(TypeMemberV {
                                                    kind: TypeMemberKindV::Attribute(AttributeDeclV { name, ty, init }),
                                                    span,
                                                }),
                                                p5,
                                            ),
                                        }
                                    },
                                }
                            },
                        }
                    },
                }
            },
        }
    }
}

/// Members := (`;` | Member)*  up to `}` or the end of the input
pub open spec fn g_members(ts: Seq<Token>, p: int, acc: Seq<TypeMemberV>) -> PR<Seq<TypeMemberV>>
    decreases ts.len() - p,
{
    if at(ts, p, TokenKind::RBrace) || at(ts, p, TokenKind::Eof) {
        (Ok(acc), p)
    } else if at(ts, p, TokenKind::Semicolon) {
        let q = adv(ts, p);
        if step(ts, p, q) {
            g_members(ts, q, acc)
        } else {
            stuck(ts, p)
        }
    } else {
        let (m, p1) = g_type_member(ts, p);
        match m {
            Err(e) => (Err(e), p1),
            Ok(m) => if step(ts, p, p1) {
                g_members(ts, p1, acc.push(m))
            } else {
                stuck(ts, p)
            },
        }
    }
}

/// Parent := (`inherits` Ident (`(` Args)?)?
pub open spec fn g_type_parent(ts: Seq<Token>, p: int) -> PR<Option<TypeParentV>> {
    if at(ts, p, TokenKind::Inherits) {
        let (n, p1) = g_ident(ts, adv(ts, p));
        match n {
            Err(e) => (Err(e), p1),
            Ok(name) => if at(ts, p1, TokenKind::LParen) {
                let (a, p2) = g_args(ts, adv(ts, p1));
                match a {
                    Err(e) => (Err(e), p2),
                    Ok(args) => (Ok(Some(TypeParentV { name, args })), p2),
                }
            } else {
                (Ok(Some(TypeParentV { name, args: Seq::empty() })), p1)
            },
        }
    } else {
        (Ok(None), p)
    }
}

/// TypeDecl := Ident ParamList? Parent `{` Members `}`  (after `type`)
pub open spec fn g_type_decl(ts: Seq<Token>, p: int) -> PR<TypeDeclV> {
    let (n, p1) = g_ident(ts, p);
    match n {
        Err(e) => (Err(e), p1),
        Ok(name) => {
            let (ps, p2) = if at(ts, p1, TokenKind::LParen) {
                g_param_list(ts, p1)
            } else {
                (Ok(Seq::empty()), p1)
            };
            match ps {
                Err(e) => (Err(e), p2),
                Ok(params) => {
                    let (par, p3) = g_type_parent(ts, p2);
                    match par {
                        Err(e) => (Err(e), p3),
                        Ok(parent) => {
                            let (c, p4) = g_expect(ts, p3, TokenKind::LBrace, "`{` before type body"@);
                            match c {
                                Err(e) => (Err(e), p4),
                                Ok(_) => {
                                    let (ms, p5) = g_members(ts, p4, Seq::empty());
                                    match ms {
                                        Err(e) => (Err(e), p5),
                                        Ok(members) => {
                                            let (c2, p6) = g_expect(ts, p5, TokenKind::RBrace, "`}` after type body"@);
                                            match c2 {
                                                Err(e) => (Err(e), p6),
                                                Ok(_) => (Ok(TypeDeclV { name, params, parent, members }), p6),
                                            }
                                        },
                                    }
                                },
                            }
                        },
                    }
                },
            }
        },
    }
}

/// Methods := (`;` | Name ParamList `:` Type `;`)*  up to `}` or the end of the input
pub open spec fn g_protocol_methods(ts: Seq<Token>, p: int, acc: Seq<ProtocolMethodV>) -> PR<Seq<ProtocolMethodV>>
    decreases ts.len() - p,
{
    if at(ts, p, TokenKind::RBrace) || at(ts, p, TokenKind::Eof) {
        (Ok(acc), p)
    } else if at(ts, p, TokenKind::Semicolon) {
        let q = adv(ts, p);
        if step(ts, p, q) {
            g_protocol_methods(ts, q, acc)
        } else {
            stuck(ts, p)
        }
    } else {
        let (n, p1) = g_name(ts, p);
        match n {
            Err(e) => (Err(e), p1),
            Ok(name) => {
                let (ps, p2) = g_param_list(ts, p1);
                match ps {
                    Err(e) => (Err(e), p2),
                    Ok(params) => {
                        let (c, p3) = g_expect(ts, p2, TokenKind::Colon, "return type in protocol method"@);
                        match c {
                            Err(e) => (Err(e), p3),
                            Ok(_) => {
                                let (t, p4) = g_type_ref(ts, p3);
                                match t {
                                    Err(e) => (Err(e), p4),
                                    Ok(return_type) => {
                                        let (c2, p5) = g_expect(ts, p4, TokenKind::Semicolon, "`;` after protocol method"@);
                                        match c2 {
                                            Err(e) => (Err(e), p5),
                                            Ok(_) => if step(ts, p, p5) {
                                                g_protocol_methods(
                                                    ts,
                                                    p5,
                                                    acc.push(ProtocolMethodV { name, params, return_type }),
                                                )
                                            } else {
                                                stuck(ts, p)
                                            },
                                        }
                                    },
                                }
                            },
                        }
                    },
                }
            },
        }
    }
}

/// ProtocolDecl := Ident (`extends` TypeList)? `{` Methods `}`  (after `protocol`)
pub open spec fn g_protocol_decl(ts: Seq<Token>, p: int) -> PR<ProtocolDeclV> {
    let (n, p1) = g_ident(ts, p);
    match n {
        Err(e) => (Err(e), p1),
        Ok(name) => {
            let (ps, p2) = if at(ts, p1, TokenKind::Extends) {
                g_type_list(ts, adv(ts, p1), Seq::empty())
            } else {
                (Ok(Seq::empty()), p1)
            };
            match ps {
                Err(e) => (Err(e), p2),
                Ok(parents) => {
                    let (c, p3) = g_expect(ts, p2, TokenKind::LBrace, "`{` before protocol body"@);
                    match c {
                        Err(e) => (Err(e), p3),
                        Ok(_) => {
                            let (ms, p4) = g_protocol_methods(ts, p3, Seq::empty());
                            match ms {
                                Err(e) => (Err(e), p4),
                                Ok(methods) => {
                                    let (c2, p5) = g_expect(ts, p4, TokenKind::RBrace, "`}` after protocol body"@);
                                    match c2 {
                                        Err(e) => (Err(e), p5),
                                        Ok(_) => (Ok(ProtocolDeclV { name, parents, methods }), p5),
                                    }
                                },
                            }
                        },
                    }
                },
            }
        },
    }
}

/// Declaration := `function` FunctionDecl | `type` TypeDecl | `protocol` ProtocolDecl
pub open spec fn g_declaration(ts: Seq<Token>, p: int) -> PR<DeclarationV> {
    let span = tspan(ts, p);
    let q = adv(ts, p);
    match ts[p].kind {
        TokenKind::Function => {
            let (f, p1) = g_function_decl(ts, q);
            match f {
                Err(e) => (Err(e), p1),
                Ok(f) => (Ok(DeclarationV { kind: DeclarationKindV::Function(f), span }), p1),
            }
        },
        TokenKind::Type => {
            let (t, p1) = g_type_decl(ts, q);
            match t {
                Err(e) => (Err(e), p1),
                Ok(t) => (Ok(DeclarationV { kind: DeclarationKindV::Type(t), span }), p1),
            }
        },
        TokenKind::Protocol => {
            let (d, p1) = g_protocol_decl(ts, q);
            match d {
                Err(e) => (Err(e), p1),
                Ok(d) => (Ok(DeclarationV { kind: DeclarationKindV::Protocol(d), span }), p1),
            }
        },
        _ => (Err(unexpected(ts, p, "declaration"@)), p),
    }
}

/// Declarations := Declaration*  (while the lookahead starts one)
pub open spec fn g_declarations(ts: Seq<Token>, p: int, acc: Seq<DeclarationV>) -> PR<Seq<DeclarationV>>
    decreases ts.len() - p,
{
    if starts_declaration(ts[p].kind) {
        let (d, p1) = g_declaration(ts, p);
        match d {
            Err(e) => (Err(e), p1),
            Ok(d) => if step(ts, p, p1) {
                g_declarations(ts, p1, acc.push(d))
            } else {
                stuck(ts, p)
            },
        }
    } else {
        (Ok(acc), p)
    }
}

/// Program := Declarations Expr `;`* EOF
pub open spec fn g_program(ts: Seq<Token>, p: int) -> PR<ProgramV> {
    let (ds, p1) = g_declarations(ts, p, Seq::empty());
    match ds {
        Err(e) => (Err(e), p1),
        Ok(declarations) => if !starts_expression(ts[p1].kind) {
            (Err(expected_expression(ts, p1)), p1)
        } else {
            let (e, p2) = g_expression(ts, p1);
            match e {
                Err(er) => (Err(er), p2),
                Ok(entry) => {
                    let p3 = skip_semicolons(ts, p2);
                    let (c, p4) = g_expect(ts, p3, TokenKind::Eof, "end of file"@);
                    match c {
                        Err(er) => (Err(er), p4),
                        Ok(_) => (Ok(ProgramV { declarations, entry }), p4),
                    }
                },
            }
        },
    }
}

} // verus!
