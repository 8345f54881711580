//! Laws of the expression grammar: how operators of different levels group
//! (a multiplicative operator binds tighter than an additive one), that the
//! binary operators of one level associate to the left, and that `^`
//! associates to the right.
use vstd::prelude::*;

use crate::ast::{BinaryOp, ExprKindV, ExprV, SourceSpan, UnaryOp};
use crate::parser::grammar::{
    at, bin, g_and, g_and_tail, g_assignment, g_comparison, g_comparison_tail, g_concat, g_concat_tail, g_equality,
    g_equality_tail, g_expression, g_factor, g_factor_tail, g_or, g_or_tail, g_postfix, g_postfix_tail, g_power,
    g_primary, g_term, g_term_tail, g_type_test, g_type_test_tail, g_unary, mk, ParseErrorV,
};
use crate::token::{kind_tag, lemma_kind_tag_eof, Span, Token, TokenKind};

verus! {

broadcast use lemma_kind_tag_eof;

/// The variant numbers of the operator tokens these laws speak of.
proof fn lemma_operator_tags()
    ensures
        kind_tag(TokenKind::Plus) == 4,
        kind_tag(TokenKind::Minus) == 5,
        kind_tag(TokenKind::Star) == 6,
        kind_tag(TokenKind::Slash) == 7,
        kind_tag(TokenKind::Caret) == 8,
        kind_tag(TokenKind::Percent) == 9,
        kind_tag(TokenKind::Not) == 20,
        kind_tag(TokenKind::LParen) == 23,
        kind_tag(TokenKind::LBracket) == 27,
        kind_tag(TokenKind::Dot) == 32,
        kind_tag(TokenKind::At) == 10,
        kind_tag(TokenKind::AtAt) == 11,
        kind_tag(TokenKind::EqEq) == 12,
        kind_tag(TokenKind::Neq) == 13,
        kind_tag(TokenKind::Lt) == 14,
        kind_tag(TokenKind::Gt) == 15,
        kind_tag(TokenKind::Leq) == 16,
        kind_tag(TokenKind::Geq) == 17,
        kind_tag(TokenKind::And) == 18,
        kind_tag(TokenKind::Or) == 19,
        kind_tag(TokenKind::Is) == 49,
        kind_tag(TokenKind::As) == 50,
{
    reveal(kind_tag);
}

/// The variant number of identifiers.
proof fn lemma_ident_tag(name: String)
    ensures
        kind_tag(TokenKind::Ident(name)) == 57,
{
    reveal(kind_tag);
}

/// The variable `name` as the grammar builds it from a token at `span`.
pub open spec fn variable_at(name: String, span: Span) -> ExprV {
    mk(ExprKindV::Variable(name@), SourceSpan { line: span.line, col: span.col })
}

/// The tokens `x o1 y o2 z` followed by the end of file, with the spans `sp`.
pub open spec fn three_operands(x: String, o1: TokenKind, y: String, o2: TokenKind, z: String, sp: Seq<Span>) -> Seq<Token> {
    seq![
        Token { kind: TokenKind::Ident(x), span: sp[0] },
        Token { kind: o1, span: sp[1] },
        Token { kind: TokenKind::Ident(y), span: sp[2] },
        Token { kind: o2, span: sp[3] },
        Token { kind: TokenKind::Ident(z), span: sp[4] },
        Token { kind: TokenKind::Eof, span: sp[5] },
    ]
}

/// An identifier followed by a token that opens no postfix form parses, as
/// a postfix expression, as the variable.
proof fn lemma_postfix_operand(ts: Seq<Token>, k: int, name: String)
    requires
        0 <= k,
        k + 1 < ts.len(),
        ts[k].kind == TokenKind::Ident(name),
        !at(ts, k + 1, TokenKind::LParen),
        !at(ts, k + 1, TokenKind::Dot),
        !at(ts, k + 1, TokenKind::LBracket),
    ensures
        g_postfix(ts, k) == (Ok::<ExprV, ParseErrorV>(variable_at(name, ts[k].span)), k + 1),
{
    reveal(kind_tag);
    let v = variable_at(name, ts[k].span);
    assert(g_primary(ts, k) == (Ok::<ExprV, ParseErrorV>(v), k + 1));
    assert(g_postfix_tail(ts, k + 1, v) == (Ok::<ExprV, ParseErrorV>(v), k + 1));
}

/// An identifier followed by a token that opens no postfix form and is not
/// `^` parses, at every level from `Postfix` to `Unary`, as the variable.
proof fn lemma_operand(ts: Seq<Token>, k: int, name: String)
    requires
        0 <= k,
        k + 1 < ts.len(),
        ts[k].kind == TokenKind::Ident(name),
        !at(ts, k + 1, TokenKind::LParen),
        !at(ts, k + 1, TokenKind::Dot),
        !at(ts, k + 1, TokenKind::LBracket),
        !at(ts, k + 1, TokenKind::Caret),
    ensures
        g_power(ts, k) == (Ok::<ExprV, ParseErrorV>(variable_at(name, ts[k].span)), k + 1),
        g_unary(ts, k) == (Ok::<ExprV, ParseErrorV>(variable_at(name, ts[k].span)), k + 1),
{
    lemma_postfix_operand(ts, k, name);
    reveal(kind_tag);
    assert(g_power(ts, k) == (Ok::<ExprV, ParseErrorV>(variable_at(name, ts[k].span)), k + 1));
}

/// A term that ends at the end of file is the whole expression.
proof fn lemma_term_is_expression(ts: Seq<Token>, e: ExprV, q: int)
    requires
        0 < q < ts.len(),
        g_term(ts, 0) == (Ok::<ExprV, ParseErrorV>(e), q),
        ts[q].kind == TokenKind::Eof,
    ensures
        g_expression(ts, 0) == (Ok::<ExprV, ParseErrorV>(e), q),
{
    let r = (Ok::<ExprV, ParseErrorV>(e), q);
    assert(g_concat_tail(ts, q, e) == r);
    assert(g_concat(ts, 0) == r);
    assert(g_type_test_tail(ts, q, e) == r);
    assert(g_type_test(ts, 0) == r);
    assert(g_comparison_tail(ts, q, e) == r);
    assert(g_comparison(ts, 0) == r);
    assert(g_equality_tail(ts, q, e) == r);
    assert(g_equality(ts, 0) == r);
    assert(g_and_tail(ts, q, e) == r);
    assert(g_and(ts, 0) == r);
    assert(g_or_tail(ts, q, e) == r);
    assert(g_or(ts, 0) == r);
    assert(g_assignment(ts, 0) == r);
}

/// `x + y * z` parses as `x + (y * z)`: multiplication binds tighter than
/// addition, whatever the names and positions.
pub proof fn lemma_product_binds_tighter(x: String, y: String, z: String, sp: Seq<Span>)
    requires
        sp.len() == 6,
    ensures
        ({
            let ts = three_operands(x, TokenKind::Plus, y, TokenKind::Star, z, sp);
            g_expression(ts, 0) == (Ok::<ExprV, ParseErrorV>(bin(
                BinaryOp::Add,
                variable_at(x, sp[0]),
                bin(BinaryOp::Multiply, variable_at(y, sp[2]), variable_at(z, sp[4])),
            )), 5int)
        }),
{
    lemma_operator_tags();
    let ts = three_operands(x, TokenKind::Plus, y, TokenKind::Star, z, sp);
    let vx = variable_at(x, sp[0]);
    let vy = variable_at(y, sp[2]);
    let vz = variable_at(z, sp[4]);
    let yz = bin(BinaryOp::Multiply, vy, vz);
    lemma_operand(ts, 0, x);
    lemma_operand(ts, 2, y);
    lemma_operand(ts, 4, z);
    assert(g_factor_tail(ts, 1, vx) == (Ok::<ExprV, ParseErrorV>(vx), 1int));
    assert(g_factor(ts, 0) == (Ok::<ExprV, ParseErrorV>(vx), 1int));
    assert(g_factor_tail(ts, 5, yz) == (Ok::<ExprV, ParseErrorV>(yz), 5int));
    assert(g_factor_tail(ts, 3, vy) == (Ok::<ExprV, ParseErrorV>(yz), 5int));
    assert(g_factor(ts, 2) == (Ok::<ExprV, ParseErrorV>(yz), 5int));
    let all = bin(BinaryOp::Add, vx, yz);
    assert(g_term_tail(ts, 5, all) == (Ok::<ExprV, ParseErrorV>(all), 5int));
    assert(g_term_tail(ts, 1, vx) == (Ok::<ExprV, ParseErrorV>(all), 5int));
    assert(g_term(ts, 0) == (Ok::<ExprV, ParseErrorV>(all), 5int));
    lemma_term_is_expression(ts, all, 5);
}

/// `x - y - z` parses as `(x - y) - z`: operators of one level associate to
/// the left.
pub proof fn lemma_difference_associates_left(x: String, y: String, z: String, sp: Seq<Span>)
    requires
        sp.len() == 6,
    ensures
        ({
            let ts = three_operands(x, TokenKind::Minus, y, TokenKind::Minus, z, sp);
            g_expression(ts, 0) == (Ok::<ExprV, ParseErrorV>(bin(
                BinaryOp::Subtract,
                bin(BinaryOp::Subtract, variable_at(x, sp[0]), variable_at(y, sp[2])),
                variable_at(z, sp[4]),
            )), 5int)
        }),
{
    lemma_operator_tags();
    let ts = three_operands(x, TokenKind::Minus, y, TokenKind::Minus, z, sp);
    let vx = variable_at(x, sp[0]);
    let vy = variable_at(y, sp[2]);
    let vz = variable_at(z, sp[4]);
    lemma_operand(ts, 0, x);
    lemma_operand(ts, 2, y);
    lemma_operand(ts, 4, z);
    assert(g_factor_tail(ts, 1, vx) == (Ok::<ExprV, ParseErrorV>(vx), 1int));
    assert(g_factor(ts, 0) == (Ok::<ExprV, ParseErrorV>(vx), 1int));
    assert(g_factor_tail(ts, 3, vy) == (Ok::<ExprV, ParseErrorV>(vy), 3int));
    assert(g_factor(ts, 2) == (Ok::<ExprV, ParseErrorV>(vy), 3int));
    assert(g_factor_tail(ts, 5, vz) == (Ok::<ExprV, ParseErrorV>(vz), 5int));
    assert(g_factor(ts, 4) == (Ok::<ExprV, ParseErrorV>(vz), 5int));
    let xy = bin(BinaryOp::Subtract, vx, vy);
    let all = bin(BinaryOp::Subtract, xy, vz);
    assert(g_term_tail(ts, 5, all) == (Ok::<ExprV, ParseErrorV>(all), 5int));
    assert(g_term_tail(ts, 3, xy) == (Ok::<ExprV, ParseErrorV>(all), 5int));
    assert(g_term_tail(ts, 1, vx) == (Ok::<ExprV, ParseErrorV>(all), 5int));
    assert(g_term(ts, 0) == (Ok::<ExprV, ParseErrorV>(all), 5int));
    lemma_term_is_expression(ts, all, 5);
}

/// `x ^ y ^ z` parses as `x ^ (y ^ z)`: exponentiation associates to the right.
#[verifier::rlimit(50)]
pub proof fn lemma_power_associates_right(x: String, y: String, z: String, sp: Seq<Span>)
    requires
        sp.len() == 6,
    ensures
        ({
            let ts = three_operands(x, TokenKind::Caret, y, TokenKind::Caret, z, sp);
            g_expression(ts, 0) == (Ok::<ExprV, ParseErrorV>(bin(
                BinaryOp::Power,
                variable_at(x, sp[0]),
                bin(BinaryOp::Power, variable_at(y, sp[2]), variable_at(z, sp[4])),
            )), 5int)
        }),
{
    lemma_operator_tags();
    lemma_ident_tag(x);
    lemma_ident_tag(y);
    let ts = three_operands(x, TokenKind::Caret, y, TokenKind::Caret, z, sp);
    let vx = variable_at(x, sp[0]);
    let vy = variable_at(y, sp[2]);
    let vz = variable_at(z, sp[4]);
    let yz = bin(BinaryOp::Power, vy, vz);
    let all = bin(BinaryOp::Power, vx, yz);
    lemma_operand(ts, 4, z);
    lemma_postfix_operand(ts, 2, y);
    lemma_postfix_operand(ts, 0, x);
    assert(g_power(ts, 2) == (Ok::<ExprV, ParseErrorV>(yz), 5int));
    assert(g_unary(ts, 2) == (Ok::<ExprV, ParseErrorV>(yz), 5int));
    assert(g_power(ts, 0) == (Ok::<ExprV, ParseErrorV>(all), 5int));
    assert(g_unary(ts, 0) == (Ok::<ExprV, ParseErrorV>(all), 5int));
    assert(g_factor_tail(ts, 5, all) == (Ok::<ExprV, ParseErrorV>(all), 5int));
    assert(g_factor(ts, 0) == (Ok::<ExprV, ParseErrorV>(all), 5int));
    assert(g_term_tail(ts, 5, all) == (Ok::<ExprV, ParseErrorV>(all), 5int));
    assert(g_term(ts, 0) == (Ok::<ExprV, ParseErrorV>(all), 5int));
    lemma_term_is_expression(ts, all, 5);
}

/// The tokens `x o y` followed by the end of file, with the spans `sp`.
pub open spec fn two_operands(x: String, o: TokenKind, y: String, sp: Seq<Span>) -> Seq<Token> {
    seq![
        Token { kind: TokenKind::Ident(x), span: sp[0] },
        Token { kind: o, span: sp[1] },
        Token { kind: TokenKind::Ident(y), span: sp[2] },
        Token { kind: TokenKind::Eof, span: sp[3] },
    ]
}

/// An identifier followed by a token of a looser level than `Term`
/// (concatenation, comparison, equality, `&`, `|`) or by the end of file
/// parses up to the `Term` level as the variable.
proof fn lemma_operand_up_to_term(ts: Seq<Token>, k: int, name: String)
    requires
        0 <= k,
        k + 1 < ts.len(),
        ts[k].kind == TokenKind::Ident(name),
        (10 <= kind_tag(ts[k + 1].kind) <= 19) || ts[k + 1].kind is Eof,
    ensures
        g_factor(ts, k) == (Ok::<ExprV, ParseErrorV>(variable_at(name, ts[k].span)), k + 1),
        g_term(ts, k) == (Ok::<ExprV, ParseErrorV>(variable_at(name, ts[k].span)), k + 1),
{
    lemma_operator_tags();
    lemma_operand(ts, k, name);
    let r = (Ok::<ExprV, ParseErrorV>(variable_at(name, ts[k].span)), k + 1);
    let v = variable_at(name, ts[k].span);
    assert(g_factor_tail(ts, k + 1, v) == r);
    assert(g_factor(ts, k) == r);
    assert(g_term_tail(ts, k + 1, v) == r);
}

/// An identifier followed by a comparison, equality, `&` or `|` token, or by
/// the end of file, parses up to the `TypeTest` level as the variable.
proof fn lemma_operand_up_to_type_test(ts: Seq<Token>, k: int, name: String)
    requires
        0 <= k,
        k + 1 < ts.len(),
        ts[k].kind == TokenKind::Ident(name),
        (12 <= kind_tag(ts[k + 1].kind) <= 19) || ts[k + 1].kind is Eof,
    ensures
        g_type_test(ts, k) == (Ok::<ExprV, ParseErrorV>(variable_at(name, ts[k].span)), k + 1),
{
    lemma_operator_tags();
    lemma_operand_up_to_term(ts, k, name);
    let r = (Ok::<ExprV, ParseErrorV>(variable_at(name, ts[k].span)), k + 1);
    let v = variable_at(name, ts[k].span);
    assert(g_concat_tail(ts, k + 1, v) == r);
    assert(g_concat(ts, k) == r);
    assert(g_type_test_tail(ts, k + 1, v) == r);
}

/// An identifier followed by `&`, `|` or the end of file parses up to the
/// `Equality` level as the variable.
proof fn lemma_operand_up_to_equality(ts: Seq<Token>, k: int, name: String)
    requires
        0 <= k,
        k + 1 < ts.len(),
        ts[k].kind == TokenKind::Ident(name),
        (18 <= kind_tag(ts[k + 1].kind) <= 19) || ts[k + 1].kind is Eof,
    ensures
        g_equality(ts, k) == (Ok::<ExprV, ParseErrorV>(variable_at(name, ts[k].span)), k + 1),
{
    lemma_operator_tags();
    lemma_operand_up_to_type_test(ts, k, name);
    let r = (Ok::<ExprV, ParseErrorV>(variable_at(name, ts[k].span)), k + 1);
    let v = variable_at(name, ts[k].span);
    assert(g_comparison_tail(ts, k + 1, v) == r);
    assert(g_comparison(ts, k) == r);
    assert(g_equality_tail(ts, k + 1, v) == r);
}

/// An equality expression that ends at the end of file is the whole expression.
proof fn lemma_equality_is_expression(ts: Seq<Token>, e: ExprV, q: int)
    requires
        0 < q < ts.len(),
        g_equality(ts, 0) == (Ok::<ExprV, ParseErrorV>(e), q),
        ts[q].kind == TokenKind::Eof,
    ensures
        g_expression(ts, 0) == (Ok::<ExprV, ParseErrorV>(e), q),
{
    let r = (Ok::<ExprV, ParseErrorV>(e), q);
    assert(g_and_tail(ts, q, e) == r);
    assert(g_and(ts, 0) == r);
    assert(g_or_tail(ts, q, e) == r);
    assert(g_or(ts, 0) == r);
    assert(g_assignment(ts, 0) == r);
}

/// Each comparison and equality token between two operands gives its own
/// operator: `<` less, `<=` less-or-equal, `>` greater, `>=`
/// greater-or-equal, `==` equal, `!=` not equal.
#[verifier::rlimit(50)]
pub proof fn lemma_comparison_operators(x: String, o: TokenKind, y: String, sp: Seq<Span>)
    requires
        sp.len() == 4,
        o is Lt || o is Leq || o is Gt || o is Geq || o is EqEq || o is Neq,
    ensures
        g_expression(two_operands(x, o, y, sp), 0) == (Ok::<ExprV, ParseErrorV>(bin(
            if o is Lt {
                BinaryOp::Less
            } else if o is Leq {
                BinaryOp::LessEqual
            } else if o is Gt {
                BinaryOp::Greater
            } else if o is Geq {
                BinaryOp::GreaterEqual
            } else if o is EqEq {
                BinaryOp::Equal
            } else {
                BinaryOp::NotEqual
            },
            variable_at(x, sp[0]),
            variable_at(y, sp[2]),
        )), 3int),
{
    lemma_operator_tags();
    let ts = two_operands(x, o, y, sp);
    let op = if o is Lt {
        BinaryOp::Less
    } else if o is Leq {
        BinaryOp::LessEqual
    } else if o is Gt {
        BinaryOp::Greater
    } else if o is Geq {
        BinaryOp::GreaterEqual
    } else if o is EqEq {
        BinaryOp::Equal
    } else {
        BinaryOp::NotEqual
    };
    let vx = variable_at(x, sp[0]);
    let vy = variable_at(y, sp[2]);
    let b = bin(op, vx, vy);
    lemma_operand_up_to_type_test(ts, 0, x);
    lemma_operand_up_to_type_test(ts, 2, y);
    let done = (Ok::<ExprV, ParseErrorV>(b), 3int);
    assert(g_comparison_tail(ts, 3, b) == done);
    assert(g_equality_tail(ts, 3, b) == done);
    if o is Lt || o is Leq || o is Gt || o is Geq {
        assert(g_comparison_tail(ts, 1, vx) == done);
        assert(g_comparison(ts, 0) == done);
        assert(g_equality(ts, 0) == done);
    } else {
        assert(g_comparison_tail(ts, 1, vx) == (Ok::<ExprV, ParseErrorV>(vx), 1int));
        assert(g_comparison(ts, 0) == (Ok::<ExprV, ParseErrorV>(vx), 1int));
        assert(g_comparison_tail(ts, 3, vy) == (Ok::<ExprV, ParseErrorV>(vy), 3int));
        assert(g_comparison(ts, 2) == (Ok::<ExprV, ParseErrorV>(vy), 3int));
        assert(g_equality_tail(ts, 1, vx) == done);
        assert(g_equality(ts, 0) == done);
    }
    lemma_equality_is_expression(ts, b, 3);
}

/// A concatenation that ends at the end of file is the whole expression.
proof fn lemma_concat_is_expression(ts: Seq<Token>, e: ExprV, q: int)
    requires
        0 < q < ts.len(),
        g_concat(ts, 0) == (Ok::<ExprV, ParseErrorV>(e), q),
        ts[q].kind == TokenKind::Eof,
    ensures
        g_expression(ts, 0) == (Ok::<ExprV, ParseErrorV>(e), q),
{
    let r = (Ok::<ExprV, ParseErrorV>(e), q);
    assert(g_type_test_tail(ts, q, e) == r);
    assert(g_type_test(ts, 0) == r);
    assert(g_comparison_tail(ts, q, e) == r);
    assert(g_comparison(ts, 0) == r);
    assert(g_equality_tail(ts, q, e) == r);
    assert(g_equality(ts, 0) == r);
    lemma_equality_is_expression(ts, e, q);
}

/// Each arithmetic token between two operands gives its own operator: `+`
/// addition, `-` subtraction, `*` multiplication, `/` division, `%` modulo.
#[verifier::rlimit(50)]
pub proof fn lemma_arithmetic_operators(x: String, o: TokenKind, y: String, sp: Seq<Span>)
    requires
        sp.len() == 4,
        o is Plus || o is Minus || o is Star || o is Slash || o is Percent,
    ensures
        g_expression(two_operands(x, o, y, sp), 0) == (Ok::<ExprV, ParseErrorV>(bin(
            if o is Plus {
                BinaryOp::Add
            } else if o is Minus {
                BinaryOp::Subtract
            } else if o is Star {
                BinaryOp::Multiply
            } else if o is Slash {
                BinaryOp::Divide
            } else {
                BinaryOp::Modulo
            },
            variable_at(x, sp[0]),
            variable_at(y, sp[2]),
        )), 3int),
{
    lemma_operator_tags();
    let ts = two_operands(x, o, y, sp);
    let op = if o is Plus {
        BinaryOp::Add
    } else if o is Minus {
        BinaryOp::Subtract
    } else if o is Star {
        BinaryOp::Multiply
    } else if o is Slash {
        BinaryOp::Divide
    } else {
        BinaryOp::Modulo
    };
    let vx = variable_at(x, sp[0]);
    let vy = variable_at(y, sp[2]);
    let b = bin(op, vx, vy);
    let done = (Ok::<ExprV, ParseErrorV>(b), 3int);
    lemma_operand(ts, 0, x);
    lemma_operand(ts, 2, y);
    assert(g_factor_tail(ts, 3, b) == done);
    assert(g_term_tail(ts, 3, b) == done);
    if o is Plus || o is Minus {
        assert(g_factor_tail(ts, 1, vx) == (Ok::<ExprV, ParseErrorV>(vx), 1int));
        assert(g_factor(ts, 0) == (Ok::<ExprV, ParseErrorV>(vx), 1int));
        assert(g_factor_tail(ts, 3, vy) == (Ok::<ExprV, ParseErrorV>(vy), 3int));
        assert(g_factor(ts, 2) == (Ok::<ExprV, ParseErrorV>(vy), 3int));
        assert(g_term_tail(ts, 1, vx) == done);
    } else {
        assert(g_factor_tail(ts, 1, vx) == done);
        assert(g_factor(ts, 0) == done);
    }
    assert(g_term(ts, 0) == done);
    lemma_term_is_expression(ts, b, 3);
}

/// `@` between two operands is a concatenation and `@@` a concatenation
/// with a space.
#[verifier::rlimit(50)]
pub proof fn lemma_concat_operators(x: String, o: TokenKind, y: String, sp: Seq<Span>)
    requires
        sp.len() == 4,
        o is At || o is AtAt,
    ensures
        g_expression(two_operands(x, o, y, sp), 0) == (Ok::<ExprV, ParseErrorV>(bin(
            if o is At {
                BinaryOp::Concat
            } else {
                BinaryOp::ConcatSpace
            },
            variable_at(x, sp[0]),
            variable_at(y, sp[2]),
        )), 3int),
{
    lemma_operator_tags();
    let ts = two_operands(x, o, y, sp);
    let op = if o is At {
        BinaryOp::Concat
    } else {
        BinaryOp::ConcatSpace
    };
    let vx = variable_at(x, sp[0]);
    let vy = variable_at(y, sp[2]);
    let b = bin(op, vx, vy);
    let done = (Ok::<ExprV, ParseErrorV>(b), 3int);
    lemma_operand_up_to_term(ts, 0, x);
    lemma_operand_up_to_term(ts, 2, y);
    assert(g_concat_tail(ts, 3, b) == done);
    assert(g_concat_tail(ts, 1, vx) == done);
    assert(g_concat(ts, 0) == done);
    lemma_concat_is_expression(ts, b, 3);
}

/// `&` between two operands is a conjunction and `|` a disjunction.
#[verifier::rlimit(50)]
pub proof fn lemma_logic_operators(x: String, o: TokenKind, y: String, sp: Seq<Span>)
    requires
        sp.len() == 4,
        o is And || o is Or,
    ensures
        g_expression(two_operands(x, o, y, sp), 0) == (Ok::<ExprV, ParseErrorV>(bin(
            if o is And {
                BinaryOp::And
            } else {
                BinaryOp::Or
            },
            variable_at(x, sp[0]),
            variable_at(y, sp[2]),
        )), 3int),
{
    lemma_operator_tags();
    let ts = two_operands(x, o, y, sp);
    let op = if o is And {
        BinaryOp::And
    } else {
        BinaryOp::Or
    };
    let vx = variable_at(x, sp[0]);
    let vy = variable_at(y, sp[2]);
    let b = bin(op, vx, vy);
    let done = (Ok::<ExprV, ParseErrorV>(b), 3int);
    lemma_operand_up_to_equality(ts, 0, x);
    lemma_operand_up_to_equality(ts, 2, y);
    assert(g_and_tail(ts, 3, b) == done);
    assert(g_or_tail(ts, 3, b) == done);
    if o is And {
        assert(g_and_tail(ts, 1, vx) == done);
        assert(g_and(ts, 0) == done);
    } else {
        assert(g_and_tail(ts, 1, vx) == (Ok::<ExprV, ParseErrorV>(vx), 1int));
        assert(g_and(ts, 0) == (Ok::<ExprV, ParseErrorV>(vx), 1int));
        assert(g_and_tail(ts, 3, vy) == (Ok::<ExprV, ParseErrorV>(vy), 3int));
        assert(g_and(ts, 2) == (Ok::<ExprV, ParseErrorV>(vy), 3int));
        assert(g_or_tail(ts, 1, vx) == done);
    }
    assert(g_or(ts, 0) == done);
    assert(g_assignment(ts, 0) == done);
}

/// `-` before an operand negates it and `!` takes its logical not.
pub proof fn lemma_unary_operators(o: TokenKind, y: String, sp: Seq<Span>)
    requires
        sp.len() == 3,
        o is Minus || o is Not,
    ensures
        ({
            let ts = seq![
                Token { kind: o, span: sp[0] },
                Token { kind: TokenKind::Ident(y), span: sp[1] },
                Token { kind: TokenKind::Eof, span: sp[2] },
            ];
            g_expression(ts, 0) == (Ok::<ExprV, ParseErrorV>(mk(
                ExprKindV::Unary {
                    op: if o is Minus {
                        UnaryOp::Negate
                    } else {
                        UnaryOp::Not
                    },
                    expr: Box::new(variable_at(y, sp[1])),
                },
                SourceSpan { line: sp[0].line, col: sp[0].col },
            )), 2int)
        }),
{
    lemma_operator_tags();
    let ts = seq![
        Token { kind: o, span: sp[0] },
        Token { kind: TokenKind::Ident(y), span: sp[1] },
        Token { kind: TokenKind::Eof, span: sp[2] },
    ];
    let u = mk(
        ExprKindV::Unary {
            op: if o is Minus {
                UnaryOp::Negate
            } else {
                UnaryOp::Not
            },
            expr: Box::new(variable_at(y, sp[1])),
        },
        SourceSpan { line: sp[0].line, col: sp[0].col },
    );
    let done = (Ok::<ExprV, ParseErrorV>(u), 2int);
    lemma_operand(ts, 1, y);
    assert(g_unary(ts, 0) == done);
    assert(g_factor_tail(ts, 2, u) == done);
    assert(g_factor(ts, 0) == done);
    assert(g_term_tail(ts, 2, u) == done);
    assert(g_term(ts, 0) == done);
    lemma_term_is_expression(ts, u, 2);
}

} // verus!
