//! LL(1) predictive parser for HULK.
//!
//! The parser reads a token vector from left to right and decides every
//! production with one token of lookahead. Each parsing method is specified by
//! the grammar function of the same non-terminal in [`grammar`]: it returns the
//! model that function computes and leaves the cursor where that function says.
pub mod grammar;
pub mod precedence;

use vstd::prelude::*;

use crate::ast::{
    declaration_v, declarations_v, function_v, lemma_declarations_v_push, lemma_members_v_push,
    lemma_params_v_push, lemma_protocol_methods_v_push, lemma_trefs_v_push, member_v, members_v,
    parent_v, protocol_methods_v, protocol_v, type_decl_v, AttributeDecl, Declaration,
    DeclarationKind, DeclarationV, FunctionDecl, FunctionDeclV, Program, ProgramV, ProtocolDecl,
    ProtocolDeclV, ProtocolMethod, ProtocolMethodV, TypeDecl, TypeDeclV, TypeMember, TypeMemberKind,
    TypeMemberV, TypeParent, TypeParentV,
    bindings_v, cases_v, elifs_v, exprs_v, lemma_bindings_v_push, lemma_cases_v_push, lemma_elifs_v_push,
    lemma_exprs_v_push, opt_tref_v, params_v, pattern_v, target_v, trefs_v, AssignExpr, AssignTarget,
    AssignTargetV, BinaryOp, BlockExpr, DowncastExpr, ElifBranch, ElifV, Expr, ExprKind, ExprKindV, ExprV,
    ForExpr, IfExpr, IndexExpr, LetBinding, LetBindingV, LetExpr, Literal, MatchCase, MatchCaseV, MatchExpr, MemberExpr, NewExpr,
    Param, ParamV, Pattern, PatternV, SourceSpan, TypeRef, TypeRefV, TypeTestExpr, UnaryOp,
    VectorComprehension, VectorExpr, WhileExpr,
};
use crate::text::{decimal, decimal_text};
use crate::token::{kind_tag, lemma_kind_tag_eof, Span, Token, TokenKind};

use self::grammar::{
    adv, at, debug_quoted, equals, g_and, g_and_tail, g_annotation, g_args, g_args_from, g_assignment,
    g_assignment_without_or, g_block_items, g_comparison, g_comparison_tail, g_concat, g_concat_tail,
    g_elifs, g_equality, g_equality_tail, g_expect, g_expression, g_factor, g_factor_tail,
    g_finish_block, g_finish_for, g_finish_if, g_finish_let, g_finish_match, g_finish_new,
    g_finish_vector, g_finish_while, g_ident, g_let_bindings, g_match_cases, g_name, g_or, g_or_tail,
    g_param_list, g_params_from, g_parenthesized, g_pattern, g_postfix, g_postfix_tail, g_power,
    g_primary, g_term, g_term_tail, g_type_list, g_type_ref, g_type_suffix, g_type_test,
    g_type_test_tail, g_unary, g_vector_items, g_block_expression, g_declaration, g_declarations,
    g_function_decl, g_function_tail, g_members, g_program, g_protocol_decl, g_protocol_methods,
    g_type_decl, g_type_member, g_type_parent, kind_name, skip_semicolons, starts_declaration,
    starts_expression, starts_primary, target_from, tspan, unexpected, with_eof, ParseErrorKindV,
    ParseErrorV,
};

verus! {

broadcast use lemma_kind_tag_eof;

/// Error produced by the parser.
#[derive(Debug, Clone, PartialEq, Eq)]
pub struct ParseError {
    pub kind: ParseErrorKind,
    pub span: SourceSpan,
}

/// Specific parser error kind.
#[derive(Debug, Clone, PartialEq, Eq)]
pub enum ParseErrorKind {
    UnexpectedToken { expected: String, found: String },
    ExpectedExpression { found: String },
    ExpectedIdentifier { found: String },
    InvalidAssignmentTarget,
    Message(String),
}

pub open spec fn perr_kind_v(k: ParseErrorKind) -> ParseErrorKindV {
    match k {
        ParseErrorKind::UnexpectedToken { expected, found } => ParseErrorKindV::UnexpectedToken {
            expected: expected@,
            found: found@,
        },
        ParseErrorKind::ExpectedExpression { found } => ParseErrorKindV::ExpectedExpression { found: found@ },
        ParseErrorKind::ExpectedIdentifier { found } => ParseErrorKindV::ExpectedIdentifier { found: found@ },
        ParseErrorKind::InvalidAssignmentTarget => ParseErrorKindV::InvalidAssignmentTarget,
        ParseErrorKind::Message(m) => ParseErrorKindV::Message(m@),
    }
}

pub open spec fn perr_v(e: ParseError) -> ParseErrorV {
    ParseErrorV { kind: perr_kind_v(e.kind), span: e.span }
}

impl View for ParseError {
    type V = ParseErrorV;

    open spec fn view(&self) -> ParseErrorV {
        perr_v(*self)
    }
}

/// The text of a parse error: where it occurred and what went wrong.
pub open spec fn parse_error_text(e: ParseError) -> Seq<char> {
    let at = "parse error at line "@ + decimal_text(e.span.line as nat) + ", col "@ + decimal_text(e.span.col as nat)
        + ": "@;
    match e.kind {
        ParseErrorKind::UnexpectedToken { expected, found } => at + "expected "@ + expected@ + ", found "@ + found@,
        ParseErrorKind::ExpectedExpression { found } => at + "expected expression, found "@ + found@,
        ParseErrorKind::ExpectedIdentifier { found } => at + "expected identifier, found "@ + found@,
        ParseErrorKind::InvalidAssignmentTarget => at + "invalid assignment target"@,
        ParseErrorKind::Message(message) => at + message@,
    }
}

impl ParseError {
    fn new(kind: ParseErrorKind, span: SourceSpan) -> (r: ParseError)
        ensures
            r.kind == kind,
            r.span == span,
    {
        ParseError { kind, span }
    }

    /// The text of this error: where it occurred and what went wrong.
    pub fn message(&self) -> (r: String)
        ensures
            r@ == parse_error_text(*self),
    {
        let mut out = String::from_str("parse error at line ");
        out.append(decimal(self.span.line).as_str());
        out.append(", col ");
        out.append(decimal(self.span.col).as_str());
        out.append(": ");
        match &self.kind {
            ParseErrorKind::UnexpectedToken { expected, found } => {
                out.append("expected ");
                out.append(expected.as_str());
                out.append(", found ");
                out.append(found.as_str());
            },
            ParseErrorKind::ExpectedExpression { found } => {
                out.append("expected expression, found ");
                out.append(found.as_str());
            },
            ParseErrorKind::ExpectedIdentifier { found } => {
                out.append("expected identifier, found ");
                out.append(found.as_str());
            },
            ParseErrorKind::InvalidAssignmentTarget => {
                out.append("invalid assignment target");
            },
            ParseErrorKind::Message(message) => {
                out.append(message.as_str());
            },
        }
        out
    }
}

// Models of parse results.

pub open spec fn res_token(r: Result<Token, ParseError>) -> Result<SourceSpan, ParseErrorV> {
    match r {
        Ok(t) => Ok(SourceSpan { line: t.span.line, col: t.span.col }),
        Err(e) => Err(e@),
    }
}

pub open spec fn res_name(r: Result<String, ParseError>) -> Result<Seq<char>, ParseErrorV> {
    match r {
        Ok(s) => Ok(s@),
        Err(e) => Err(e@),
    }
}

pub open spec fn res_type(r: Result<TypeRef, ParseError>) -> Result<TypeRefV, ParseErrorV> {
    match r {
        Ok(t) => Ok(t@),
        Err(e) => Err(e@),
    }
}

pub open spec fn res_types(r: Result<Vec<TypeRef>, ParseError>) -> Result<Seq<TypeRefV>, ParseErrorV> {
    match r {
        Ok(t) => Ok(trefs_v(t@)),
        Err(e) => Err(e@),
    }
}

pub open spec fn res_annotation(r: Result<Option<TypeRef>, ParseError>) -> Result<Option<TypeRefV>, ParseErrorV> {
    match r {
        Ok(t) => Ok(opt_tref_v(t)),
        Err(e) => Err(e@),
    }
}

pub open spec fn res_params(r: Result<Vec<Param>, ParseError>) -> Result<Seq<ParamV>, ParseErrorV> {
    match r {
        Ok(ps) => Ok(params_v(ps@)),
        Err(e) => Err(e@),
    }
}

pub open spec fn res_expr(r: Result<Expr, ParseError>) -> Result<ExprV, ParseErrorV> {
    match r {
        Ok(e) => Ok(e@),
        Err(e) => Err(e@),
    }
}

pub open spec fn res_exprs(r: Result<Vec<Expr>, ParseError>) -> Result<Seq<ExprV>, ParseErrorV> {
    match r {
        Ok(es) => Ok(exprs_v(es@)),
        Err(e) => Err(e@),
    }
}

pub open spec fn res_pattern(r: Result<Pattern, ParseError>) -> Result<PatternV, ParseErrorV> {
    match r {
        Ok(p) => Ok(pattern_v(p)),
        Err(e) => Err(e@),
    }
}

pub open spec fn res_target(r: Result<AssignTarget, ParseError>) -> Result<AssignTargetV, ParseErrorV> {
    match r {
        Ok(t) => Ok(target_v(t)),
        Err(e) => Err(e@),
    }
}

pub open spec fn res_elifs(r: Result<Vec<ElifBranch>, ParseError>) -> Result<Seq<ElifV>, ParseErrorV> {
    match r {
        Ok(b) => Ok(elifs_v(b@)),
        Err(e) => Err(e@),
    }
}

pub open spec fn res_cases(r: Result<Vec<MatchCase>, ParseError>) -> Result<Seq<MatchCaseV>, ParseErrorV> {
    match r {
        Ok(c) => Ok(cases_v(c@)),
        Err(e) => Err(e@),
    }
}

pub open spec fn res_bindings(r: Result<Vec<LetBinding>, ParseError>) -> Result<Seq<LetBindingV>, ParseErrorV> {
    match r {
        Ok(b) => Ok(bindings_v(b@)),
        Err(e) => Err(e@),
    }
}

pub open spec fn res_declaration(r: Result<Declaration, ParseError>) -> Result<DeclarationV, ParseErrorV> {
    match r {
        Ok(d) => Ok(declaration_v(d)),
        Err(e) => Err(e@),
    }
}

pub open spec fn res_function(r: Result<FunctionDecl, ParseError>) -> Result<FunctionDeclV, ParseErrorV> {
    match r {
        Ok(f) => Ok(function_v(f)),
        Err(e) => Err(e@),
    }
}

pub open spec fn res_type_decl(r: Result<TypeDecl, ParseError>) -> Result<TypeDeclV, ParseErrorV> {
    match r {
        Ok(t) => Ok(type_decl_v(t)),
        Err(e) => Err(e@),
    }
}

pub open spec fn res_parent(r: Result<Option<TypeParent>, ParseError>) -> Result<Option<TypeParentV>, ParseErrorV> {
    match r {
        Ok(p) => Ok(parent_v(p)),
        Err(e) => Err(e@),
    }
}

pub open spec fn res_member(r: Result<TypeMember, ParseError>) -> Result<TypeMemberV, ParseErrorV> {
    match r {
        Ok(m) => Ok(member_v(m)),
        Err(e) => Err(e@),
    }
}

pub open spec fn res_members(r: Result<Vec<TypeMember>, ParseError>) -> Result<Seq<TypeMemberV>, ParseErrorV> {
    match r {
        Ok(m) => Ok(members_v(m@)),
        Err(e) => Err(e@),
    }
}

pub open spec fn res_protocol(r: Result<ProtocolDecl, ParseError>) -> Result<ProtocolDeclV, ParseErrorV> {
    match r {
        Ok(p) => Ok(protocol_v(p)),
        Err(e) => Err(e@),
    }
}

pub open spec fn res_protocol_methods(r: Result<Vec<ProtocolMethod>, ParseError>) -> Result<Seq<ProtocolMethodV>, ParseErrorV> {
    match r {
        Ok(m) => Ok(protocol_methods_v(m@)),
        Err(e) => Err(e@),
    }
}

pub open spec fn res_program(r: Result<Program, ParseError>) -> Result<ProgramV, ParseErrorV> {
    match r {
        Ok(p) => Ok(p@),
        Err(e) => Err(e@),
    }
}

/// Predictive LL(1) recursive-descent parser.
pub struct Ll1Parser {
    tokens: Vec<Token>,
    current: usize,
}

/// `b` is a well-formed parser over the tokens of `a`, at or after `a`'s cursor.
pub open spec fn moved(a: Ll1Parser, b: Ll1Parser) -> bool {
    &&& b.wf()
    &&& b.token_seq() == a.token_seq()
    &&& a.position() <= b.position()
}

impl Ll1Parser {
    /// The token vector ends with the end-of-file token and the cursor lies inside it.
    pub closed spec fn wf(&self) -> bool {
        &&& self.tokens@.len() > 0
        &&& self.tokens@.last().kind is Eof
        &&& self.current < self.tokens@.len()
    }

    /// The tokens being parsed.
    pub closed spec fn token_seq(&self) -> Seq<Token> {
        self.tokens@
    }

    /// Index of the lookahead token.
    pub closed spec fn position(&self) -> int {
        self.current as int
    }

    /// Creates a parser. If the caller forgot to append EOF, the parser adds it.
    pub fn new(tokens: Vec<Token>) -> (r: Ll1Parser)
        ensures
            r.wf(),
            r.token_seq() == with_eof(tokens@),
            r.position() == 0,
    {
        let mut tokens = tokens;
        let n = tokens.len();
        let needs_eof = n == 0 || !tokens[n - 1].kind.is_eof();
        if needs_eof {
            tokens.push(Token { kind: TokenKind::Eof, span: Span { line: 0, col: 0 } });
        }
        Ll1Parser { tokens, current: 0 }
    }

    /// The lookahead token.
    fn peek(&self) -> (t: &Token)
        requires
            self.wf(),
        ensures
            *t == self.tokens@[self.current as int],
    {
        let last_index = self.tokens.len() - 1;
        let index = if self.current < last_index {
            self.current
        } else {
            last_index
        };
        &self.tokens[index]
    }

    /// Does the lookahead token have the variant of `kind`?
    fn check(&self, kind: &TokenKind) -> (r: bool)
        requires
            self.wf(),
        ensures
            r == at(self.tokens@, self.current as int, *kind),
    {
        same_variant(&self.peek().kind, kind)
    }

    fn is_at_end(&self) -> (r: bool)
        requires
            self.wf(),
        ensures
            r == at(self.tokens@, self.current as int, TokenKind::Eof),
    {
        self.check(&TokenKind::Eof)
    }

    /// Returns the lookahead token and moves past it, unless it is the end of file.
    fn advance(&mut self) -> (t: Token)
        requires
            old(self).wf(),
        ensures
            final(self).wf(),
            final(self).tokens@ == old(self).tokens@,
            final(self).current == adv(old(self).tokens@, old(self).current as int),
            t == old(self).tokens@[old(self).current as int],
    {
        let token = self.peek().duplicate();
        let n = self.tokens.len();
        if !self.is_at_end() {
            self.current = self.current + 1;
        }
        token
    }

    /// Consumes the lookahead token if it has the variant of `kind`.
    fn match_kind(&mut self, kind: &TokenKind) -> (r: bool)
        requires
            old(self).wf(),
        ensures
            final(self).wf(),
            final(self).tokens@ == old(self).tokens@,
            r == at(old(self).tokens@, old(self).current as int, *kind),
            final(self).current == (if r {
                adv(old(self).tokens@, old(self).current as int)
            } else {
                old(self).current as int
            }),
    {
        if self.check(kind) {
            self.advance();
            true
        } else {
            false
        }
    }

    /// Consumes a token of the variant of `kind`, or reports what was expected.
    fn consume(&mut self, kind: &TokenKind, expected: &str) -> (r: Result<Token, ParseError>)
        requires
            old(self).wf(),
        ensures
            moved(*old(self), *final(self)),
            equals((res_token(r), final(self).current as int), g_expect(
                old(self).tokens@,
                old(self).current as int,
                *kind,
                expected@,
            )),
    {
        if self.check(kind) {
            Ok(self.advance())
        } else {
            Err(self.error_unexpected(expected))
        }
    }

    fn consume_optional_semicolons(&mut self)
        requires
            old(self).wf(),
        ensures
            moved(*old(self), *final(self)),
            final(self).current == skip_semicolons(old(self).tokens@, old(self).current as int),
    {
        let ghost ts = self.tokens@;
        let ghost p0 = self.current as int;
        while self.match_kind(&TokenKind::Semicolon)
            invariant
                self.wf(),
                self.tokens@ == ts,
                p0 <= self.current,
                skip_semicolons(ts, p0) == skip_semicolons(ts, self.current as int),
            decreases ts.len() - self.current,
        {
        }
    }

    /// Span of the token before the lookahead (of the first token at the start).
    fn previous_span(&self) -> (r: SourceSpan)
        requires
            self.wf(),
        ensures
            r == tspan(self.tokens@, if self.current == 0 { 0 } else { self.current - 1 }),
    {
        let index = if self.current == 0 {
            0
        } else {
            self.current - 1
        };
        token_span(self.tokens[index].span)
    }

    fn peek_span(&self) -> (r: SourceSpan)
        requires
            self.wf(),
        ensures
            r == tspan(self.tokens@, self.current as int),
    {
        token_span(self.peek().span)
    }

    /// "Expected `expected`, found <the lookahead token>" at the lookahead token.
    fn error_unexpected(&self, expected: &str) -> (r: ParseError)
        requires
            self.wf(),
        ensures
            r@ == unexpected(self.tokens@, self.current as int, expected@),
    {
        let token = self.peek();
        ParseError::new(
            ParseErrorKind::UnexpectedToken {
                expected: expected.to_owned(),
                found: token_kind_name(&token.kind),
            },
            token_span(token.span),
        )
    }

    /// FIRST(Declaration) = { function, type, protocol }.
    fn lookahead_starts_declaration(&self) -> (r: bool)
        requires
            self.wf(),
        ensures
            r == starts_declaration(self.tokens@[self.current as int].kind),
    {
        match &self.peek().kind {
            TokenKind::Function | TokenKind::Type | TokenKind::Protocol => true,
            _ => false,
        }
    }

    /// FIRST(Expr) for HULK's expression grammar.
    fn lookahead_starts_expression(&self) -> (r: bool)
        requires
            self.wf(),
        ensures
            r == starts_expression(self.tokens@[self.current as int].kind),
    {
        self.lookahead_starts_primary() || match &self.peek().kind {
            TokenKind::Minus | TokenKind::Not => true,
            _ => false,
        }
    }

    /// FIRST(Primary), after expression precedence has been factored out.
    fn lookahead_starts_primary(&self) -> (r: bool)
        requires
            self.wf(),
        ensures
            r == starts_primary(self.tokens@[self.current as int].kind),
    {
        match &self.peek().kind {
            TokenKind::Number(_)
            | TokenKind::StringLit(_)
            | TokenKind::True
            | TokenKind::False
            | TokenKind::Ident(_)
            | TokenKind::SelfKw
            | TokenKind::Base
            | TokenKind::LParen
            | TokenKind::LBrace
            | TokenKind::LBracket
            | TokenKind::Let
            | TokenKind::If
            | TokenKind::While
            | TokenKind::For
            | TokenKind::New
            | TokenKind::Match => true,
            _ => false,
        }
    }

    fn consume_identifier(&mut self) -> (r: Result<String, ParseError>)
        requires
            old(self).wf(),
        ensures
            moved(*old(self), *final(self)),
            equals((res_name(r), final(self).current as int), g_ident(old(self).tokens@, old(self).current as int)),
            r is Ok ==> old(self).current < final(self).current,
    {
        let token = self.advance();
        match token.kind {
            TokenKind::Ident(name) => Ok(name),
            other => Err(
                ParseError::new(
                    ParseErrorKind::ExpectedIdentifier { found: token_kind_name(&other) },
                    token_span(token.span),
                ),
            ),
        }
    }

    /// Parses an identifier name, also accepting `base` as a valid identifier.
    #[verifier::spinoff_prover]
    fn parse_name(&mut self) -> (r: Result<String, ParseError>)
        requires
            old(self).wf(),
        ensures
            moved(*old(self), *final(self)),
            equals((res_name(r), final(self).current as int), g_name(old(self).tokens@, old(self).current as int)),
            r is Ok ==> old(self).current < final(self).current,
    {
        let token = self.advance();
        match token.kind {
            TokenKind::Ident(name) => Ok(name),
            TokenKind::Base => Ok(String::from_str("base")),
            other => Err(
                ParseError::new(
                    ParseErrorKind::ExpectedIdentifier { found: token_kind_name(&other) },
                    token_span(token.span),
                ),
            ),
        }
    }

    /// Type := Ident (`<` Type (`,` Type)* `>`)? (`*` | `[` `]`)*
    #[verifier::loop_isolation(false)]
    #[verifier::spinoff_prover]
    fn parse_type_ref(&mut self) -> (r: Result<TypeRef, ParseError>)
        requires
            old(self).wf(),
        ensures
            moved(*old(self), *final(self)),
            equals((res_type(r), final(self).current as int), g_type_ref(old(self).tokens@, old(self).current as int)),
            r is Ok ==> old(self).current < final(self).current,
        decreases old(self).tokens@.len() - old(self).current,
    {
        let ghost ts = self.tokens@;
        let ghost p0 = self.current as int;
        let name = match self.consume_identifier() {
            Ok(name) => name,
            Err(e) => return Err(e),
        };
        let ghost p1 = self.current as int;
        let mut ty = if self.match_kind(&TokenKind::Lt) {
            let ghost q = self.current as int;
            let mut args: Vec<TypeRef> = Vec::new();
            loop
                invariant
                    self.wf(),
                    self.tokens@ == ts,
                    old(self).tokens@ == ts,
                    old(self).current == p0,
                    p0 < q <= self.current,
                    equals(g_type_list(ts, q, Seq::empty()), g_type_list(ts, self.current as int, trefs_v(args@))),
                decreases ts.len() - self.current,
            {
                let ghost pc = self.current as int;
                let t = match self.parse_type_ref() {
                    Ok(t) => t,
                    Err(e) => return Err(e),
                };
                proof {
                    lemma_trefs_v_push(args@, t);
                }
                args.push(t);
                if !self.match_kind(&TokenKind::Comma) {
                    break;
                }
            }
            match self.consume(&TokenKind::Gt, "`>` after type arguments") {
                Ok(_) => {},
                Err(e) => return Err(e),
            }
            TypeRef::with_args(name, args)
        } else {
            TypeRef::named(name)
        };
        loop
            invariant
                self.wf(),
                self.tokens@ == ts,
                p0 < self.current,
                equals(g_type_ref(ts, p0), g_type_suffix(ts, self.current as int, ty@)),
            decreases ts.len() - self.current,
        {
            let ghost pc = self.current as int;
            let ghost before = ty@;
            if self.match_kind(&TokenKind::Star) {
                ty = wrap_type("Iterable", ty);
            } else if self.match_kind(&TokenKind::LBracket) {
                match self.consume(&TokenKind::RBracket, "`]` after vector type suffix") {
                    Ok(_) => {},
                    Err(e) => return Err(e),
                }
                ty = wrap_type("Vector", ty);
            } else {
                break;
            }
        }
        Ok(ty)
    }

    /// Annotation := (`:` Type)?
    #[verifier::spinoff_prover]
    fn parse_annotation(&mut self) -> (r: Result<Option<TypeRef>, ParseError>)
        requires
            old(self).wf(),
        ensures
            moved(*old(self), *final(self)),
            equals((res_annotation(r), final(self).current as int), g_annotation(
                old(self).tokens@,
                old(self).current as int,
            )),
    {
        if self.match_kind(&TokenKind::Colon) {
            match self.parse_type_ref() {
                Ok(t) => Ok(Some(t)),
                Err(e) => Err(e),
            }
        } else {
            Ok(None)
        }
    }

    /// ParamList := `(` (Name Annotation (`,` Name Annotation)*)? `)`
    #[verifier::loop_isolation(false)]
    #[verifier::spinoff_prover]
    fn parse_param_list(&mut self) -> (r: Result<Vec<Param>, ParseError>)
        requires
            old(self).wf(),
        ensures
            moved(*old(self), *final(self)),
            equals((res_params(r), final(self).current as int), g_param_list(
                old(self).tokens@,
                old(self).current as int,
            )),
    {
        let ghost ts = self.tokens@;
        let ghost p0 = self.current as int;
        match self.consume(&TokenKind::LParen, "`(` before parameter list") {
            Ok(_) => {},
            Err(e) => return Err(e),
        }
        let ghost p1 = self.current as int;
        let mut params: Vec<Param> = Vec::new();
        if !self.check(&TokenKind::RParen) {
            loop
                invariant
                    self.wf(),
                    self.tokens@ == ts,
                    p1 <= self.current,
                    equals(g_params_from(ts, p1, Seq::empty()), g_params_from(
                        ts,
                        self.current as int,
                        params_v(params@),
                    )),
                decreases ts.len() - self.current,
            {
                let ghost pc = self.current as int;
                let name = match self.parse_name() {
                    Ok(n) => n,
                    Err(e) => return Err(e),
                };
                let type_annotation = match self.parse_annotation() {
                    Ok(t) => t,
                    Err(e) => return Err(e),
                };
                let param = Param::new(name, type_annotation);
                proof {
                    lemma_params_v_push(params@, param);
                }
                params.push(param);
                if !self.match_kind(&TokenKind::Comma) {
                    break;
                }
            }
        }
        match self.consume(&TokenKind::RParen, "`)` after parameter list") {
            Ok(_) => {},
            Err(e) => return Err(e),
        }
        Ok(params)
    }
}

impl Ll1Parser {
    /// Lowest-precedence expression entry point.
    #[verifier::spinoff_prover]
    fn parse_expression(&mut self) -> (r: Result<Expr, ParseError>)
        requires
            old(self).wf(),
        ensures
            moved(*old(self), *final(self)),
            equals((res_expr(r), final(self).current as int), g_expression(old(self).tokens@, old(self).current as int)),
            r is Ok ==> old(self).current < final(self).current,
        decreases old(self).tokens@.len() - old(self).current, 15int,
    {
        self.parse_assignment()
    }

    /// Assignment := Or (`:=` Assignment)?
    #[verifier::spinoff_prover]
    fn parse_assignment(&mut self) -> (r: Result<Expr, ParseError>)
        requires
            old(self).wf(),
        ensures
            moved(*old(self), *final(self)),
            equals((res_expr(r), final(self).current as int), g_assignment(old(self).tokens@, old(self).current as int)),
            r is Ok ==> old(self).current < final(self).current,
        decreases old(self).tokens@.len() - old(self).current, 14int,
    {
        let expr = match self.parse_or() {
            Ok(v) => v,
            Err(e) => return Err(e),
        };
        if self.match_kind(&TokenKind::ColonEq) {
            let span = expr.span;
            let value = match self.parse_assignment() {
                Ok(v) => v,
                Err(e) => return Err(e),
            };
            let target = match assignment_target_from_expr(expr) {
                Ok(v) => v,
                Err(e) => return Err(e),
            };
            return Ok(Expr::new(ExprKind::Assign(AssignExpr::new(target, value)), span));
        }
        Ok(expr)
    }

    /// The head of a vector: an assignment whose operands contain no top-level `|`.
    #[verifier::spinoff_prover]
    fn parse_assignment_without_or(&mut self) -> (r: Result<Expr, ParseError>)
        requires
            old(self).wf(),
        ensures
            moved(*old(self), *final(self)),
            equals((res_expr(r), final(self).current as int), g_assignment_without_or(old(self).tokens@, old(self).current as int)),
            r is Ok ==> old(self).current < final(self).current,
        decreases old(self).tokens@.len() - old(self).current, 12int,
    {
        let expr = match self.parse_and() {
            Ok(v) => v,
            Err(e) => return Err(e),
        };
        if self.match_kind(&TokenKind::ColonEq) {
            let span = expr.span;
            let value = match self.parse_assignment_without_or() {
                Ok(v) => v,
                Err(e) => return Err(e),
            };
            let target = match assignment_target_from_expr(expr) {
                Ok(v) => v,
                Err(e) => return Err(e),
            };
            return Ok(Expr::new(ExprKind::Assign(AssignExpr::new(target, value)), span));
        }
        Ok(expr)
    }

    /// Or := And (`|` And)*
    #[verifier::loop_isolation(false)]
    #[verifier::spinoff_prover]
    fn parse_or(&mut self) -> (r: Result<Expr, ParseError>)
        requires
            old(self).wf(),
        ensures
            moved(*old(self), *final(self)),
            equals((res_expr(r), final(self).current as int), g_or(old(self).tokens@, old(self).current as int)),
            r is Ok ==> old(self).current < final(self).current,
        decreases old(self).tokens@.len() - old(self).current, 13int,
    {
        let ghost ts = self.tokens@;
        let ghost p0 = self.current as int;
        let mut expr = match self.parse_and() {
            Ok(v) => v,
            Err(e) => return Err(e),
        };
        loop
            invariant
                self.wf(),
                self.tokens@ == ts,
                old(self).tokens@ == ts,
                old(self).current == p0,
                p0 < self.current,
                equals(g_or(ts, p0), g_or_tail(ts, self.current as int, expr@)),
            decreases ts.len() - self.current,
        {
            if !self.match_kind(&TokenKind::Or) {
                break;
            }
            let span = expr.span;
            let right = match self.parse_and() {
                Ok(v) => v,
                Err(e) => return Err(e),
            };
            expr = Expr::binary(BinaryOp::Or, expr, right, span);
        }
        Ok(expr)
    }

    /// And := Equality (`&` Equality)*
    #[verifier::loop_isolation(false)]
    #[verifier::spinoff_prover]
    fn parse_and(&mut self) -> (r: Result<Expr, ParseError>)
        requires
            old(self).wf(),
        ensures
            moved(*old(self), *final(self)),
            equals((res_expr(r), final(self).current as int), g_and(old(self).tokens@, old(self).current as int)),
            r is Ok ==> old(self).current < final(self).current,
        decreases old(self).tokens@.len() - old(self).current, 11int,
    {
        let ghost ts = self.tokens@;
        let ghost p0 = self.current as int;
        let mut expr = match self.parse_equality() {
            Ok(v) => v,
            Err(e) => return Err(e),
        };
        loop
            invariant
                self.wf(),
                self.tokens@ == ts,
                old(self).tokens@ == ts,
                old(self).current == p0,
                p0 < self.current,
                equals(g_and(ts, p0), g_and_tail(ts, self.current as int, expr@)),
            decreases ts.len() - self.current,
        {
            if !self.match_kind(&TokenKind::And) {
                break;
            }
            let span = expr.span;
            let right = match self.parse_equality() {
                Ok(v) => v,
                Err(e) => return Err(e),
            };
            expr = Expr::binary(BinaryOp::And, expr, right, span);
        }
        Ok(expr)
    }

    /// Equality := Comparison ((`==` | `!=`) Comparison)*
    #[verifier::loop_isolation(false)]
    #[verifier::spinoff_prover]
    fn parse_equality(&mut self) -> (r: Result<Expr, ParseError>)
        requires
            old(self).wf(),
        ensures
            moved(*old(self), *final(self)),
            equals((res_expr(r), final(self).current as int), g_equality(old(self).tokens@, old(self).current as int)),
            r is Ok ==> old(self).current < final(self).current,
        decreases old(self).tokens@.len() - old(self).current, 10int,
    {
        let ghost ts = self.tokens@;
        let ghost p0 = self.current as int;
        let mut expr = match self.parse_comparison() {
            Ok(v) => v,
            Err(e) => return Err(e),
        };
        loop
            invariant
                self.wf(),
                self.tokens@ == ts,
                old(self).tokens@ == ts,
                old(self).current == p0,
                p0 < self.current,
                equals(g_equality(ts, p0), g_equality_tail(ts, self.current as int, expr@)),
            decreases ts.len() - self.current,
        {
            let op = if self.match_kind(&TokenKind::EqEq) {
                Some(BinaryOp::Equal)
            } else if self.match_kind(&TokenKind::Neq) {
                Some(BinaryOp::NotEqual)
            } else {
                None
            };
            match op {
                Some(op) => {
                    let span = expr.span;
                    let right = match self.parse_comparison() {
                        Ok(v) => v,
                        Err(e) => return Err(e),
                    };
                    expr = Expr::binary(op, expr, right, span);
                },
                None => break,
            }
        }
        Ok(expr)
    }

    /// Comparison := TypeTest ((`<` | `<=` | `>` | `>=`) TypeTest)*
    #[verifier::loop_isolation(false)]
    #[verifier::spinoff_prover]
    fn parse_comparison(&mut self) -> (r: Result<Expr, ParseError>)
        requires
            old(self).wf(),
        ensures
            moved(*old(self), *final(self)),
            equals((res_expr(r), final(self).current as int), g_comparison(old(self).tokens@, old(self).current as int)),
            r is Ok ==> old(self).current < final(self).current,
        decreases old(self).tokens@.len() - old(self).current, 9int,
    {
        let ghost ts = self.tokens@;
        let ghost p0 = self.current as int;
        let mut expr = match self.parse_type_test() {
            Ok(v) => v,
            Err(e) => return Err(e),
        };
        loop
            invariant
                self.wf(),
                self.tokens@ == ts,
                old(self).tokens@ == ts,
                old(self).current == p0,
                p0 < self.current,
                equals(g_comparison(ts, p0), g_comparison_tail(ts, self.current as int, expr@)),
            decreases ts.len() - self.current,
        {
            let op = if self.match_kind(&TokenKind::Lt) {
                Some(BinaryOp::Less)
            } else if self.match_kind(&TokenKind::Leq) {
                Some(BinaryOp::LessEqual)
            } else if self.match_kind(&TokenKind::Gt) {
                Some(BinaryOp::Greater)
            } else if self.match_kind(&TokenKind::Geq) {
                Some(BinaryOp::GreaterEqual)
            } else {
                None
            };
            match op {
                Some(op) => {
                    let span = expr.span;
                    let right = match self.parse_type_test() {
                        Ok(v) => v,
                        Err(e) => return Err(e),
                    };
                    expr = Expr::binary(op, expr, right, span);
                },
                None => break,
            }
        }
        Ok(expr)
    }

    /// Concat := Term ((`@` | `@@`) Term)*
    #[verifier::loop_isolation(false)]
    #[verifier::spinoff_prover]
    fn parse_concat(&mut self) -> (r: Result<Expr, ParseError>)
        requires
            old(self).wf(),
        ensures
            moved(*old(self), *final(self)),
            equals((res_expr(r), final(self).current as int), g_concat(old(self).tokens@, old(self).current as int)),
            r is Ok ==> old(self).current < final(self).current,
        decreases old(self).tokens@.len() - old(self).current, 7int,
    {
        let ghost ts = self.tokens@;
        let ghost p0 = self.current as int;
        let mut expr = match self.parse_term() {
            Ok(v) => v,
            Err(e) => return Err(e),
        };
        loop
            invariant
                self.wf(),
                self.tokens@ == ts,
                old(self).tokens@ == ts,
                old(self).current == p0,
                p0 < self.current,
                equals(g_concat(ts, p0), g_concat_tail(ts, self.current as int, expr@)),
            decreases ts.len() - self.current,
        {
            let op = if self.match_kind(&TokenKind::At) {
                Some(BinaryOp::Concat)
            } else if self.match_kind(&TokenKind::AtAt) {
                Some(BinaryOp::ConcatSpace)
            } else {
                None
            };
            match op {
                Some(op) => {
                    let span = expr.span;
                    let right = match self.parse_term() {
                        Ok(v) => v,
                        Err(e) => return Err(e),
                    };
                    expr = Expr::binary(op, expr, right, span);
                },
                None => break,
            }
        }
        Ok(expr)
    }

    /// Term := Factor ((`+` | `-`) Factor)*
    #[verifier::loop_isolation(false)]
    #[verifier::spinoff_prover]
    fn parse_term(&mut self) -> (r: Result<Expr, ParseError>)
        requires
            old(self).wf(),
        ensures
            moved(*old(self), *final(self)),
            equals((res_expr(r), final(self).current as int), g_term(old(self).tokens@, old(self).current as int)),
            r is Ok ==> old(self).current < final(self).current,
        decreases old(self).tokens@.len() - old(self).current, 6int,
    {
        let ghost ts = self.tokens@;
        let ghost p0 = self.current as int;
        let mut expr = match self.parse_factor() {
            Ok(v) => v,
            Err(e) => return Err(e),
        };
        loop
            invariant
                self.wf(),
                self.tokens@ == ts,
                old(self).tokens@ == ts,
                old(self).current == p0,
                p0 < self.current,
                equals(g_term(ts, p0), g_term_tail(ts, self.current as int, expr@)),
            decreases ts.len() - self.current,
        {
            let op = if self.match_kind(&TokenKind::Plus) {
                Some(BinaryOp::Add)
            } else if self.match_kind(&TokenKind::Minus) {
                Some(BinaryOp::Subtract)
            } else {
                None
            };
            match op {
                Some(op) => {
                    let span = expr.span;
                    let right = match self.parse_factor() {
                        Ok(v) => v,
                        Err(e) => return Err(e),
                    };
                    expr = Expr::binary(op, expr, right, span);
                },
                None => break,
            }
        }
        Ok(expr)
    }

    /// Factor := Unary ((`*` | `/` | `%`) Unary)*
    #[verifier::loop_isolation(false)]
    #[verifier::spinoff_prover]
    fn parse_factor(&mut self) -> (r: Result<Expr, ParseError>)
        requires
            old(self).wf(),
        ensures
            moved(*old(self), *final(self)),
            equals((res_expr(r), final(self).current as int), g_factor(old(self).tokens@, old(self).current as int)),
            r is Ok ==> old(self).current < final(self).current,
        decreases old(self).tokens@.len() - old(self).current, 5int,
    {
        let ghost ts = self.tokens@;
        let ghost p0 = self.current as int;
        let mut expr = match self.parse_unary() {
            Ok(v) => v,
            Err(e) => return Err(e),
        };
        loop
            invariant
                self.wf(),
                self.tokens@ == ts,
                old(self).tokens@ == ts,
                old(self).current == p0,
                p0 < self.current,
                equals(g_factor(ts, p0), g_factor_tail(ts, self.current as int, expr@)),
            decreases ts.len() - self.current,
        {
            let op = if self.match_kind(&TokenKind::Star) {
                Some(BinaryOp::Multiply)
            } else if self.match_kind(&TokenKind::Slash) {
                Some(BinaryOp::Divide)
            } else if self.match_kind(&TokenKind::Percent) {
                Some(BinaryOp::Modulo)
            } else {
                None
            };
            match op {
                Some(op) => {
                    let span = expr.span;
                    let right = match self.parse_unary() {
                        Ok(v) => v,
                        Err(e) => return Err(e),
                    };
                    expr = Expr::binary(op, expr, right, span);
                },
                None => break,
            }
        }
        Ok(expr)
    }

    /// TypeTest := Concat ((`is` | `as`) Type)*
    #[verifier::loop_isolation(false)]
    #[verifier::spinoff_prover]
    fn parse_type_test(&mut self) -> (r: Result<Expr, ParseError>)
        requires
            old(self).wf(),
        ensures
            moved(*old(self), *final(self)),
            equals((res_expr(r), final(self).current as int), g_type_test(old(self).tokens@, old(self).current as int)),
            r is Ok ==> old(self).current < final(self).current,
        decreases old(self).tokens@.len() - old(self).current, 8int,
    {
        let ghost ts = self.tokens@;
        let ghost p0 = self.current as int;
        let mut expr = match self.parse_concat() {
            Ok(v) => v,
            Err(e) => return Err(e),
        };
        loop
            invariant
                self.wf(),
                self.tokens@ == ts,
                old(self).tokens@ == ts,
                old(self).current == p0,
                p0 < self.current,
                equals(g_type_test(ts, p0), g_type_test_tail(ts, self.current as int, expr@)),
            decreases ts.len() - self.current,
        {
            if self.match_kind(&TokenKind::Is) {
                let span = expr.span;
                let type_ref = match self.parse_type_ref() {
                    Ok(v) => v,
                    Err(e) => return Err(e),
                };
                expr = Expr::new(ExprKind::TypeTest(TypeTestExpr::new(expr, type_ref)), span);
            } else if self.match_kind(&TokenKind::As) {
                let span = expr.span;
                let type_ref = match self.parse_type_ref() {
                    Ok(v) => v,
                    Err(e) => return Err(e),
                };
                expr = Expr::new(ExprKind::Downcast(DowncastExpr::new(expr, type_ref)), span);
            } else {
                break;
            }
        }
        Ok(expr)
    }

    /// Unary := `-` Unary | `!` Unary | Power
    #[verifier::spinoff_prover]
    fn parse_unary(&mut self) -> (r: Result<Expr, ParseError>)
        requires
            old(self).wf(),
        ensures
            moved(*old(self), *final(self)),
            equals((res_expr(r), final(self).current as int), g_unary(old(self).tokens@, old(self).current as int)),
            r is Ok ==> old(self).current < final(self).current,
        decreases old(self).tokens@.len() - old(self).current, 4int,
    {
        if self.match_kind(&TokenKind::Minus) {
            let span = self.previous_span();
            let expr = match self.parse_unary() {
                Ok(v) => v,
                Err(e) => return Err(e),
            };
            return Ok(Expr::unary(UnaryOp::Negate, expr, span));
        }
        if self.match_kind(&TokenKind::Not) {
            let span = self.previous_span();
            let expr = match self.parse_unary() {
                Ok(v) => v,
                Err(e) => return Err(e),
            };
            return Ok(Expr::unary(UnaryOp::Not, expr, span));
        }
        self.parse_power()
    }

    /// Power := Postfix (`^` Unary)?  (right associative)
    #[verifier::spinoff_prover]
    fn parse_power(&mut self) -> (r: Result<Expr, ParseError>)
        requires
            old(self).wf(),
        ensures
            moved(*old(self), *final(self)),
            equals((res_expr(r), final(self).current as int), g_power(old(self).tokens@, old(self).current as int)),
            r is Ok ==> old(self).current < final(self).current,
        decreases old(self).tokens@.len() - old(self).current, 3int,
    {
        let expr = match self.parse_postfix() {
            Ok(v) => v,
            Err(e) => return Err(e),
        };
        if self.match_kind(&TokenKind::Caret) {
            let span = expr.span;
            let right = match self.parse_unary() {
                Ok(v) => v,
                Err(e) => return Err(e),
            };
            return Ok(Expr::binary(BinaryOp::Power, expr, right, span));
        }
        Ok(expr)
    }

    /// Postfix := Primary (`(` Args | `.` Name | `[` Expr `]`)*
    #[verifier::loop_isolation(false)]
    #[verifier::spinoff_prover]
    fn parse_postfix(&mut self) -> (r: Result<Expr, ParseError>)
        requires
            old(self).wf(),
        ensures
            moved(*old(self), *final(self)),
            equals((res_expr(r), final(self).current as int), g_postfix(old(self).tokens@, old(self).current as int)),
            r is Ok ==> old(self).current < final(self).current,
        decreases old(self).tokens@.len() - old(self).current, 2int,
    {
        let ghost ts = self.tokens@;
        let ghost p0 = self.current as int;
        let mut expr = match self.parse_primary() {
            Ok(v) => v,
            Err(e) => return Err(e),
        };
        loop
            invariant
                self.wf(),
                self.tokens@ == ts,
                old(self).tokens@ == ts,
                old(self).current == p0,
                p0 < self.current,
                equals(g_postfix(ts, p0), g_postfix_tail(ts, self.current as int, expr@)),
            decreases ts.len() - self.current,
        {
            if self.match_kind(&TokenKind::LParen) {
                let span = expr.span;
                // `base(args)` delegates to the parent's method: the callee becomes `BaseRef`.
                let callee = if is_base_variable(&expr) {
                    Expr::new(ExprKind::BaseRef, expr.span)
                } else {
                    expr
                };
                let args = match self.parse_argument_list_after_lparen() {
                    Ok(v) => v,
                    Err(e) => return Err(e),
                };
                expr = Expr::call(callee, args, span);
            } else if self.match_kind(&TokenKind::Dot) {
                let span = expr.span;
                let member = match self.parse_name() {
                    Ok(v) => v,
                    Err(e) => return Err(e),
                };
                expr = Expr::new(ExprKind::Member(MemberExpr::new(expr, member)), span);
            } else if self.match_kind(&TokenKind::LBracket) {
                let span = expr.span;
                let index = match self.parse_expression() {
                    Ok(v) => v,
                    Err(e) => return Err(e),
                };
                match self.consume(&TokenKind::RBracket, "`]` after index expression") {
                    Ok(_) => {},
                    Err(e) => return Err(e),
                }
                expr = Expr::new(ExprKind::Index(IndexExpr::new(expr, index)), span);
            } else {
                break;
            }
        }
        Ok(expr)
    }

    /// Primary := literal | Ident | `self` | `base` | `(` Expr `)` | Block | Vector
    ///          | Let | If | While | For | New | Match
    #[verifier::spinoff_prover]
    fn parse_primary(&mut self) -> (r: Result<Expr, ParseError>)
        requires
            old(self).wf(),
        ensures
            moved(*old(self), *final(self)),
            equals((res_expr(r), final(self).current as int), g_primary(old(self).tokens@, old(self).current as int)),
            r is Ok ==> old(self).current < final(self).current,
        decreases old(self).tokens@.len() - old(self).current, 1int,
    {
        if !self.lookahead_starts_primary() {
            return Err(
                ParseError::new(
                    ParseErrorKind::ExpectedExpression { found: token_kind_name(&self.peek().kind) },
                    self.peek_span(),
                ),
            );
        }
        let token = self.advance();
        let span = token_span(token.span);
        match token.kind {
            TokenKind::Number(value) => Ok(Expr::number(value, span)),
            TokenKind::StringLit(value) => Ok(Expr::string(value, span)),
            TokenKind::True => Ok(Expr::boolean(true, span)),
            TokenKind::False => Ok(Expr::boolean(false, span)),
            TokenKind::Ident(name) => Ok(Expr::variable(name, span)),
            TokenKind::SelfKw => Ok(Expr::new(ExprKind::SelfRef, span)),
            // `base` is a plain name here; `parse_postfix` turns it into `BaseRef` when it is called.
            TokenKind::Base => Ok(Expr::variable(String::from_str("base"), span)),
            TokenKind::LParen => {
                let expr = match self.parse_expression() {
                    Ok(v) => v,
                    Err(e) => return Err(e),
                };
                match self.consume(&TokenKind::RParen, "`)` after expression") {
                    Ok(_) => {},
                    Err(e) => return Err(e),
                }
                Ok(expr)
            },
            TokenKind::LBrace => self.finish_block_expression(span),
            TokenKind::LBracket => self.finish_vector_expression(span),
            TokenKind::Let => self.finish_let_expression(span),
            TokenKind::If => self.finish_if_expression(span),
            TokenKind::While => self.finish_while_expression(span),
            TokenKind::For => self.finish_for_expression(span),
            TokenKind::New => self.finish_new_expression(span),
            TokenKind::Match => self.finish_match_expression(span),
            other => Err(
                ParseError::new(ParseErrorKind::ExpectedExpression { found: token_kind_name(&other) }, span),
            ),
        }
    }

    /// Args := (Expr (`,` Expr)*)? `)`  (after the opening parenthesis)
    #[verifier::loop_isolation(false)]
    #[verifier::spinoff_prover]
    fn parse_argument_list_after_lparen(&mut self) -> (r: Result<Vec<Expr>, ParseError>)
        requires
            old(self).wf(),
        ensures
            moved(*old(self), *final(self)),
            equals((res_exprs(r), final(self).current as int), g_args(old(self).tokens@, old(self).current as int)),
            r is Ok ==> old(self).current < final(self).current,
        decreases old(self).tokens@.len() - old(self).current, 17int,
    {
        let ghost ts = self.tokens@;
        let ghost p0 = self.current as int;
        let mut args: Vec<Expr> = Vec::new();
        if !self.check(&TokenKind::RParen) {
            loop
                invariant
                    self.wf(),
                    self.tokens@ == ts,
                    old(self).tokens@ == ts,
                    old(self).current == p0,
                    p0 <= self.current,
                    equals(g_args_from(ts, p0, Seq::empty()), g_args_from(ts, self.current as int, exprs_v(args@))),
                decreases ts.len() - self.current,
            {
                let arg = match self.parse_expression() {
                    Ok(v) => v,
                    Err(e) => return Err(e),
                };
                proof {
                    lemma_exprs_v_push(args@, arg);
                }
                args.push(arg);
                if !self.match_kind(&TokenKind::Comma) {
                    break;
                }
            }
        }
        match self.consume(&TokenKind::RParen, "`)` after argument list") {
            Ok(_) => {},
            Err(e) => return Err(e),
        }
        Ok(args)
    }

    /// Block := (`;` | Expr `;`?)* `}`  (after the opening brace)
    #[verifier::loop_isolation(false)]
    #[verifier::spinoff_prover]
    fn finish_block_expression(&mut self, span: SourceSpan) -> (r: Result<Expr, ParseError>)
        requires
            old(self).wf(),
        ensures
            moved(*old(self), *final(self)),
            equals((res_expr(r), final(self).current as int), g_finish_block(old(self).tokens@, old(self).current as int, span)),
            r is Ok ==> old(self).current < final(self).current,
        decreases old(self).tokens@.len() - old(self).current, 17int,
    {
        let ghost ts = self.tokens@;
        let ghost p0 = self.current as int;
        let mut expressions: Vec<Expr> = Vec::new();
        while !self.check(&TokenKind::RBrace) && !self.is_at_end()
            invariant
                self.wf(),
                self.tokens@ == ts,
                old(self).tokens@ == ts,
                old(self).current == p0,
                p0 <= self.current,
                equals(g_block_items(ts, p0, Seq::empty()), g_block_items(ts, self.current as int, exprs_v(expressions@))),
            decreases ts.len() - self.current,
        {
            if self.match_kind(&TokenKind::Semicolon) {
                continue;
            }
            let e = match self.parse_expression() {
                Ok(v) => v,
                Err(e) => return Err(e),
            };
            proof {
                lemma_exprs_v_push(expressions@, e);
            }
            expressions.push(e);
            if self.match_kind(&TokenKind::Semicolon) {
                continue;
            }
            if !self.check(&TokenKind::RBrace) {
                match self.consume(&TokenKind::Semicolon, "`;` between block expressions") {
                    Ok(_) => {},
                    Err(e) => return Err(e),
                }
            }
        }
        match self.consume(&TokenKind::RBrace, "`}` after expression block") {
            Ok(_) => {},
            Err(e) => return Err(e),
        }
        Ok(Expr::new(ExprKind::Block(BlockExpr::new(expressions)), span))
    }

    /// Vector := `]` | AssignmentNoOr `|` Name `in` Expr `]` | Expr (`,` Expr)* `,`? `]`
    /// (after the opening bracket)
    #[verifier::loop_isolation(false)]
    #[verifier::spinoff_prover]
    fn finish_vector_expression(&mut self, span: SourceSpan) -> (r: Result<Expr, ParseError>)
        requires
            old(self).wf(),
        ensures
            moved(*old(self), *final(self)),
            equals((res_expr(r), final(self).current as int), g_finish_vector(old(self).tokens@, old(self).current as int, span)),
            r is Ok ==> old(self).current < final(self).current,
        decreases old(self).tokens@.len() - old(self).current, 13int,
    {
        let ghost ts = self.tokens@;
        let ghost p0 = self.current as int;
        if self.match_kind(&TokenKind::RBracket) {
            let items: Vec<Expr> = Vec::new();
            proof {
                assert(items@ =~= Seq::<Expr>::empty());
            }
            return Ok(Expr::new(ExprKind::Vector(VectorExpr::Literal(items)), span));
        }
        let first = match self.parse_assignment_without_or() {
            Ok(v) => v,
            Err(e) => return Err(e),
        };
        if self.match_kind(&TokenKind::Or) {
            let var = match self.parse_name() {
                Ok(v) => v,
                Err(e) => return Err(e),
            };
            match self.consume(&TokenKind::In, "`in` in vector comprehension") {
                Ok(_) => {},
                Err(e) => return Err(e),
            }
            let iterable = match self.parse_expression() {
                Ok(v) => v,
                Err(e) => return Err(e),
            };
            match self.consume(&TokenKind::RBracket, "`]` after vector comprehension") {
                Ok(_) => {},
                Err(e) => return Err(e),
            }
            return Ok(
                Expr::new(
                    ExprKind::Vector(VectorExpr::Comprehension(VectorComprehension::new(first, var, iterable))),
                    span,
                ),
            );
        }
        let ghost p1 = self.current as int;
        let ghost head = seq![first@];
        let mut items: Vec<Expr> = Vec::new();
        proof {
            lemma_exprs_v_push(items@, first);
            assert(exprs_v(Seq::<Expr>::empty()) =~= Seq::<ExprV>::empty());
        }
        items.push(first);
        loop
            invariant
                self.wf(),
                self.tokens@ == ts,
                old(self).tokens@ == ts,
                old(self).current == p0,
                p1 <= self.current,
                equals(g_vector_items(ts, p1, head), g_vector_items(ts, self.current as int, exprs_v(items@))),
            decreases ts.len() - self.current,
        {
            if !self.match_kind(&TokenKind::Comma) {
                break;
            }
            if self.check(&TokenKind::RBracket) {
                break;
            }
            let item = match self.parse_expression() {
                Ok(v) => v,
                Err(e) => return Err(e),
            };
            proof {
                lemma_exprs_v_push(items@, item);
            }
            items.push(item);
        }
        match self.consume(&TokenKind::RBracket, "`]` after vector literal") {
            Ok(_) => {},
            Err(e) => return Err(e),
        }
        Ok(Expr::new(ExprKind::Vector(VectorExpr::Literal(items)), span))
    }

    /// Let := Bindings `in` Expr  (after `let`)
    #[verifier::spinoff_prover]
    fn finish_let_expression(&mut self, span: SourceSpan) -> (r: Result<Expr, ParseError>)
        requires
            old(self).wf(),
        ensures
            moved(*old(self), *final(self)),
            equals((res_expr(r), final(self).current as int), g_finish_let(old(self).tokens@, old(self).current as int, span)),
            r is Ok ==> old(self).current < final(self).current,
        decreases old(self).tokens@.len() - old(self).current, 2int,
    {
        let bindings = match self.parse_let_bindings() {
            Ok(v) => v,
            Err(e) => return Err(e),
        };
        match self.consume(&TokenKind::In, "`in` after let bindings") {
            Ok(_) => {},
            Err(e) => return Err(e),
        }
        let body = match self.parse_expression() {
            Ok(v) => v,
            Err(e) => return Err(e),
        };
        Ok(Expr::new(ExprKind::Let(LetExpr::new(bindings, body)), span))
    }

    /// Bindings := Name Annotation `=` Expr (`,` Name Annotation `=` Expr)*
    #[verifier::loop_isolation(false)]
    #[verifier::spinoff_prover]
    fn parse_let_bindings(&mut self) -> (r: Result<Vec<LetBinding>, ParseError>)
        requires
            old(self).wf(),
        ensures
            moved(*old(self), *final(self)),
            equals(
                (res_bindings(r), final(self).current as int),
                g_let_bindings(old(self).tokens@, old(self).current as int, Seq::empty()),
            ),
            r is Ok ==> old(self).current < final(self).current,
        decreases old(self).tokens@.len() - old(self).current, 1int,
    {
        let ghost ts = self.tokens@;
        let ghost p0 = self.current as int;
        let mut bindings: Vec<LetBinding> = Vec::new();
        loop
            invariant
                self.wf(),
                self.tokens@ == ts,
                old(self).tokens@ == ts,
                old(self).current == p0,
                p0 <= self.current,
                bindings@.len() > 0 ==> p0 < self.current,
                equals(
                    g_let_bindings(ts, p0, Seq::empty()),
                    g_let_bindings(ts, self.current as int, bindings_v(bindings@)),
                ),
            decreases ts.len() - self.current,
        {
            let name = match self.parse_name() {
                Ok(v) => v,
                Err(e) => return Err(e),
            };
            let type_annotation = match self.parse_annotation() {
                Ok(v) => v,
                Err(e) => return Err(e),
            };
            match self.consume(&TokenKind::Assign, "`=` in let binding") {
                Ok(_) => {},
                Err(e) => return Err(e),
            }
            let initializer = match self.parse_expression() {
                Ok(v) => v,
                Err(e) => return Err(e),
            };
            let binding = LetBinding::new(name, type_annotation, initializer);
            proof {
                lemma_bindings_v_push(bindings@, binding);
            }
            bindings.push(binding);
            if !self.match_kind(&TokenKind::Comma) {
                break;
            }
        }
        Ok(bindings)
    }

    /// `(` Expr `)`, where `context` names the construct in diagnostics.
    #[verifier::spinoff_prover]
    fn parse_parenthesized_expression(&mut self, context: &str) -> (r: Result<Expr, ParseError>)
        requires
            old(self).wf(),
        ensures
            moved(*old(self), *final(self)),
            equals((res_expr(r), final(self).current as int), g_parenthesized(old(self).tokens@, old(self).current as int, context@)),
            r is Ok ==> old(self).current < final(self).current,
        decreases old(self).tokens@.len() - old(self).current, 1int,
    {
        let mut opening = String::from_str("`(` before ");
        opening.append(context);
        match self.consume(&TokenKind::LParen, opening.as_str()) {
            Ok(_) => {},
            Err(e) => return Err(e),
        }
        let expr = match self.parse_expression() {
            Ok(v) => v,
            Err(e) => return Err(e),
        };
        let mut closing = String::from_str("`)` after ");
        closing.append(context);
        match self.consume(&TokenKind::RParen, closing.as_str()) {
            Ok(_) => {},
            Err(e) => return Err(e),
        }
        Ok(expr)
    }

    /// If := `(` Expr `)` Expr (`elif` `(` Expr `)` Expr)* `else` Expr  (after `if`)
    #[verifier::spinoff_prover]
    fn finish_if_expression(&mut self, span: SourceSpan) -> (r: Result<Expr, ParseError>)
        requires
            old(self).wf(),
        ensures
            moved(*old(self), *final(self)),
            equals((res_expr(r), final(self).current as int), g_finish_if(old(self).tokens@, old(self).current as int, span)),
            r is Ok ==> old(self).current < final(self).current,
        decreases old(self).tokens@.len() - old(self).current, 2int,
    {
        let condition = match self.parse_parenthesized_expression("if condition") {
            Ok(v) => v,
            Err(e) => return Err(e),
        };
        let then_branch = match self.parse_expression() {
            Ok(v) => v,
            Err(e) => return Err(e),
        };
        let elif_branches = match self.parse_elif_branches() {
            Ok(v) => v,
            Err(e) => return Err(e),
        };
        match self.consume(&TokenKind::Else, "`else` branch in if expression") {
            Ok(_) => {},
            Err(e) => return Err(e),
        }
        let else_branch = match self.parse_expression() {
            Ok(v) => v,
            Err(e) => return Err(e),
        };
        Ok(Expr::new(ExprKind::If(IfExpr::new(condition, then_branch, elif_branches, else_branch)), span))
    }

    /// (`elif` `(` Expr `)` Expr)*
    #[verifier::loop_isolation(false)]
    #[verifier::spinoff_prover]
    fn parse_elif_branches(&mut self) -> (r: Result<Vec<ElifBranch>, ParseError>)
        requires
            old(self).wf(),
        ensures
            moved(*old(self), *final(self)),
            equals((res_elifs(r), final(self).current as int), g_elifs(
                old(self).tokens@,
                old(self).current as int,
                Seq::empty(),
            )),
        decreases old(self).tokens@.len() - old(self).current, 1int,
    {
        let ghost ts = self.tokens@;
        let ghost p0 = self.current as int;
        let mut elif_branches: Vec<ElifBranch> = Vec::new();
        loop
            invariant
                self.wf(),
                self.tokens@ == ts,
                old(self).tokens@ == ts,
                old(self).current == p0,
                p0 <= self.current,
                equals(g_elifs(ts, p0, Seq::empty()), g_elifs(ts, self.current as int, elifs_v(elif_branches@))),
            decreases ts.len() - self.current,
        {
            if !self.match_kind(&TokenKind::Elif) {
                break;
            }
            let elif_condition = match self.parse_parenthesized_expression("elif condition") {
                Ok(v) => v,
                Err(e) => return Err(e),
            };
            let body = match self.parse_expression() {
                Ok(v) => v,
                Err(e) => return Err(e),
            };
            let branch = ElifBranch::new(elif_condition, body);
            proof {
                lemma_elifs_v_push(elif_branches@, branch);
            }
            elif_branches.push(branch);
        }
        Ok(elif_branches)
    }

    /// While := `(` Expr `)` Expr  (after `while`)
    #[verifier::spinoff_prover]
    fn finish_while_expression(&mut self, span: SourceSpan) -> (r: Result<Expr, ParseError>)
        requires
            old(self).wf(),
        ensures
            moved(*old(self), *final(self)),
            equals((res_expr(r), final(self).current as int), g_finish_while(old(self).tokens@, old(self).current as int, span)),
            r is Ok ==> old(self).current < final(self).current,
        decreases old(self).tokens@.len() - old(self).current, 2int,
    {
        let condition = match self.parse_parenthesized_expression("while condition") {
            Ok(v) => v,
            Err(e) => return Err(e),
        };
        let body = match self.parse_expression() {
            Ok(v) => v,
            Err(e) => return Err(e),
        };
        Ok(Expr::new(ExprKind::While(WhileExpr::new(condition, body)), span))
    }

    /// For := `(` Name `in` Expr `)` Expr  (after `for`)
    #[verifier::spinoff_prover]
    fn finish_for_expression(&mut self, span: SourceSpan) -> (r: Result<Expr, ParseError>)
        requires
            old(self).wf(),
        ensures
            moved(*old(self), *final(self)),
            equals((res_expr(r), final(self).current as int), g_finish_for(old(self).tokens@, old(self).current as int, span)),
            r is Ok ==> old(self).current < final(self).current,
        decreases old(self).tokens@.len() - old(self).current, 1int,
    {
        match self.consume(&TokenKind::LParen, "`(` before for binding") {
            Ok(_) => {},
            Err(e) => return Err(e),
        }
        let var = match self.parse_name() {
            Ok(v) => v,
            Err(e) => return Err(e),
        };
        match self.consume(&TokenKind::In, "`in` inside for binding") {
            Ok(_) => {},
            Err(e) => return Err(e),
        }
        let iterable = match self.parse_expression() {
            Ok(v) => v,
            Err(e) => return Err(e),
        };
        match self.consume(&TokenKind::RParen, "`)` after for binding") {
            Ok(_) => {},
            Err(e) => return Err(e),
        }
        let body = match self.parse_expression() {
            Ok(v) => v,
            Err(e) => return Err(e),
        };
        Ok(Expr::new(ExprKind::For(ForExpr::new(var, iterable, body)), span))
    }

    /// New := Type (`(` Args)?  (after `new`)
    #[verifier::spinoff_prover]
    fn finish_new_expression(&mut self, span: SourceSpan) -> (r: Result<Expr, ParseError>)
        requires
            old(self).wf(),
        ensures
            moved(*old(self), *final(self)),
            equals((res_expr(r), final(self).current as int), g_finish_new(old(self).tokens@, old(self).current as int, span)),
            r is Ok ==> old(self).current < final(self).current,
        decreases old(self).tokens@.len() - old(self).current, 1int,
    {
        let type_ref = match self.parse_type_ref() {
            Ok(v) => v,
            Err(e) => return Err(e),
        };
        let args = if self.match_kind(&TokenKind::LParen) {
            match self.parse_argument_list_after_lparen() {
                Ok(v) => v,
                Err(e) => return Err(e),
            }
        } else {
            let args: Vec<Expr> = Vec::new();
            proof {
                assert(args@ =~= Seq::<Expr>::empty());
            }
            args
        };
        Ok(Expr::new(ExprKind::New(NewExpr::new(type_ref, args)), span))
    }

    /// Match := Expr `{` (`case` Pattern `=>` Expr `;`?)* `}`  (after `match`)
    #[verifier::spinoff_prover]
    fn finish_match_expression(&mut self, span: SourceSpan) -> (r: Result<Expr, ParseError>)
        requires
            old(self).wf(),
        ensures
            moved(*old(self), *final(self)),
            equals((res_expr(r), final(self).current as int), g_finish_match(old(self).tokens@, old(self).current as int, span)),
            r is Ok ==> old(self).current < final(self).current,
        decreases old(self).tokens@.len() - old(self).current, 16int,
    {
        let value = match self.parse_expression() {
            Ok(v) => v,
            Err(e) => return Err(e),
        };
        match self.consume(&TokenKind::LBrace, "`{` before match cases") {
            Ok(_) => {},
            Err(e) => return Err(e),
        }
        let cases = match self.parse_match_cases() {
            Ok(v) => v,
            Err(e) => return Err(e),
        };
        match self.consume(&TokenKind::RBrace, "`}` after match cases") {
            Ok(_) => {},
            Err(e) => return Err(e),
        }
        Ok(Expr::new(ExprKind::Match(MatchExpr::new(value, cases)), span))
    }

    /// (`case` Pattern `=>` Expr `;`?)*  up to `}` or the end of the input
    #[verifier::loop_isolation(false)]
    #[verifier::spinoff_prover]
    fn parse_match_cases(&mut self) -> (r: Result<Vec<MatchCase>, ParseError>)
        requires
            old(self).wf(),
        ensures
            moved(*old(self), *final(self)),
            equals((res_cases(r), final(self).current as int), g_match_cases(
                old(self).tokens@,
                old(self).current as int,
                Seq::empty(),
            )),
        decreases old(self).tokens@.len() - old(self).current, 1int,
    {
        let ghost ts = self.tokens@;
        let ghost p0 = self.current as int;
        let mut cases: Vec<MatchCase> = Vec::new();
        while !self.check(&TokenKind::RBrace) && !self.is_at_end()
            invariant
                self.wf(),
                self.tokens@ == ts,
                old(self).tokens@ == ts,
                old(self).current == p0,
                p0 <= self.current,
                equals(g_match_cases(ts, p0, Seq::empty()), g_match_cases(ts, self.current as int, cases_v(cases@))),
            decreases ts.len() - self.current,
        {
            match self.consume(&TokenKind::Case, "`case` in match expression") {
                Ok(_) => {},
                Err(e) => return Err(e),
            }
            let pattern = match self.parse_pattern() {
                Ok(v) => v,
                Err(e) => return Err(e),
            };
            match self.consume(&TokenKind::FatArrow, "`=>` after match pattern") {
                Ok(_) => {},
                Err(e) => return Err(e),
            }
            let body = match self.parse_expression() {
                Ok(v) => v,
                Err(e) => return Err(e),
            };
            self.match_kind(&TokenKind::Semicolon);
            let case = MatchCase::new(pattern, body);
            proof {
                lemma_cases_v_push(cases@, case);
            }
            cases.push(case);
        }
        Ok(cases)
    }

    /// Pattern := `_` | literal | Ident (`:` Type)?
    #[verifier::spinoff_prover]
    fn parse_pattern(&mut self) -> (r: Result<Pattern, ParseError>)
        requires
            old(self).wf(),
        ensures
            moved(*old(self), *final(self)),
            equals((res_pattern(r), final(self).current as int), g_pattern(old(self).tokens@, old(self).current as int)),
    {
        let token = self.advance();
        match token.kind {
            TokenKind::Underscore => Ok(Pattern::Wildcard),
            TokenKind::Number(value) => Ok(Pattern::Literal(Literal::Number(value))),
            TokenKind::StringLit(value) => Ok(Pattern::Literal(Literal::String(value))),
            TokenKind::True => Ok(Pattern::Literal(Literal::Boolean(true))),
            TokenKind::False => Ok(Pattern::Literal(Literal::Boolean(false))),
            TokenKind::Ident(name) => {
                if self.match_kind(&TokenKind::Colon) {
                    let type_ref = match self.parse_type_ref() {
                        Ok(v) => v,
                        Err(e) => return Err(e),
                    };
                    Ok(Pattern::Type(type_ref, Some(name)))
                } else {
                    Ok(Pattern::Variable(name))
                }
            },
            other => {
                let mut message = String::from_str("invalid match pattern: ");
                let found = token_kind_name(&other);
                message.append(found.as_str());
                Err(ParseError::new(ParseErrorKind::Message(message), token_span(token.span)))
            },
        }
    }
}

/// The assignment target that an expression denotes, if it denotes one.
fn assignment_target_from_expr(expr: Expr) -> (r: Result<AssignTarget, ParseError>)
    ensures
        equals(res_target(r), target_from(expr@)),
{
    let span = expr.span;
    match expr.kind {
        ExprKind::Variable(name) => Ok(AssignTarget::Variable(name)),
        ExprKind::Member(member) => Ok(AssignTarget::Member { object: member.object, field: member.member }),
        ExprKind::Index(index) => Ok(AssignTarget::Index { object: index.object, index: index.index }),
        _ => Err(ParseError::new(ParseErrorKind::InvalidAssignmentTarget, span)),
    }
}

/// Is `expr` the plain variable `base`?
fn is_base_variable(expr: &Expr) -> (r: bool)
    ensures
        r == (expr@.kind == ExprKindV::Variable("base"@)),
{
    match &expr.kind {
        ExprKind::Variable(name) => {
            let base = String::from_str("base");
            name.eq(&base)
        },
        _ => false,
    }
}

impl Ll1Parser {
    /// Parses a full HULK program: zero or more declarations followed by the
    /// mandatory global expression that works as entry point, optional `;`s and
    /// the end of file.
    #[verifier::loop_isolation(false)]
    #[verifier::spinoff_prover]
    pub fn parse_program(&mut self) -> (r: Result<Program, ParseError>)
        requires
            old(self).wf(),
        ensures
            moved(*old(self), *final(self)),
            equals((res_program(r), final(self).position()), g_program(old(self).token_seq(), old(self).position())),
    {
        let ghost ts = self.tokens@;
        let ghost p0 = self.current as int;
        let mut declarations: Vec<Declaration> = Vec::new();
        while self.lookahead_starts_declaration()
            invariant
                self.wf(),
                self.tokens@ == ts,
                old(self).tokens@ == ts,
                old(self).current == p0,
                p0 <= self.current,
                equals(
                    g_declarations(ts, p0, Seq::empty()),
                    g_declarations(ts, self.current as int, declarations_v(declarations@)),
                ),
            decreases ts.len() - self.current,
        {
            let declaration = match self.parse_declaration() {
                Ok(v) => v,
                Err(e) => return Err(e),
            };
            proof {
                lemma_declarations_v_push(declarations@, declaration);
            }
            declarations.push(declaration);
        }
        if !self.lookahead_starts_expression() {
            return Err(
                ParseError::new(
                    ParseErrorKind::ExpectedExpression { found: token_kind_name(&self.peek().kind) },
                    self.peek_span(),
                ),
            );
        }
        let entry = match self.parse_expression() {
            Ok(v) => v,
            Err(e) => return Err(e),
        };
        self.consume_optional_semicolons();
        match self.consume(&TokenKind::Eof, "end of file") {
            Ok(_) => {},
            Err(e) => return Err(e),
        }
        Ok(Program::new(declarations, entry))
    }

    /// Declaration := `function` FunctionDecl | `type` TypeDecl | `protocol` ProtocolDecl
    #[verifier::spinoff_prover]
    fn parse_declaration(&mut self) -> (r: Result<Declaration, ParseError>)
        requires
            old(self).wf(),
        ensures
            moved(*old(self), *final(self)),
            equals((res_declaration(r), final(self).current as int), g_declaration(old(self).tokens@, old(self).current as int)),
            r is Ok ==> old(self).current < final(self).current,
    {
        let span = self.peek_span();
        match &self.peek().kind {
            TokenKind::Function => {
                self.advance();
                let function = match self.parse_function_declaration_after_keyword() {
                    Ok(v) => v,
                    Err(e) => return Err(e),
                };
                Ok(Declaration::new(DeclarationKind::Function(function), span))
            },
            TokenKind::Type => {
                self.advance();
                let type_decl = match self.parse_type_declaration_after_keyword() {
                    Ok(v) => v,
                    Err(e) => return Err(e),
                };
                Ok(Declaration::new(DeclarationKind::Type(type_decl), span))
            },
            TokenKind::Protocol => {
                self.advance();
                let protocol_decl = match self.parse_protocol_declaration_after_keyword() {
                    Ok(v) => v,
                    Err(e) => return Err(e),
                };
                Ok(Declaration::new(DeclarationKind::Protocol(protocol_decl), span))
            },
            _ => Err(self.error_unexpected("declaration")),
        }
    }

    /// FunctionDecl := Ident FunctionTail  (after `function`)
    #[verifier::spinoff_prover]
    fn parse_function_declaration_after_keyword(&mut self) -> (r: Result<FunctionDecl, ParseError>)
        requires
            old(self).wf(),
        ensures
            moved(*old(self), *final(self)),
            equals((res_function(r), final(self).current as int), g_function_decl(old(self).tokens@, old(self).current as int)),
    {
        let name = match self.consume_identifier() {
            Ok(v) => v,
            Err(e) => return Err(e),
        };
        self.parse_function_tail(name)
    }

    /// FunctionTail := ParamList (`:` Type)? (`=>` Expr `;`? | Block)
    #[verifier::spinoff_prover]
    fn parse_function_tail(&mut self, name: String) -> (r: Result<FunctionDecl, ParseError>)
        requires
            old(self).wf(),
        ensures
            moved(*old(self), *final(self)),
            equals((res_function(r), final(self).current as int), g_function_tail(old(self).tokens@, old(self).current as int, name@)),
    {
        let params = match self.parse_param_list() {
            Ok(v) => v,
            Err(e) => return Err(e),
        };
        let return_type = match self.parse_annotation() {
            Ok(v) => v,
            Err(e) => return Err(e),
        };
        let body = if self.match_kind(&TokenKind::FatArrow) {
            let expression = match self.parse_expression() {
                Ok(v) => v,
                Err(e) => return Err(e),
            };
            self.match_kind(&TokenKind::Semicolon);
            expression
        } else if self.check(&TokenKind::LBrace) {
            match self.parse_block_expression() {
                Ok(v) => v,
                Err(e) => return Err(e),
            }
        } else {
            return Err(self.error_unexpected("`=>` or function block"));
        };
        Ok(FunctionDecl::new(name, params, return_type, body))
    }

    /// `{` Block, where the block's span is that of the brace.
    #[verifier::spinoff_prover]
    fn parse_block_expression(&mut self) -> (r: Result<Expr, ParseError>)
        requires
            old(self).wf(),
        ensures
            moved(*old(self), *final(self)),
            equals((res_expr(r), final(self).current as int), g_block_expression(old(self).tokens@, old(self).current as int)),
    {
        let brace = match self.consume(&TokenKind::LBrace, "`{` before expression block") {
            Ok(v) => v,
            Err(e) => return Err(e),
        };
        self.finish_block_expression(token_span(brace.span))
    }

    /// TypeDecl := Ident ParamList? (`inherits` Ident (`(` Args)?)? `{` Members `}`  (after `type`)
    #[verifier::spinoff_prover]
    fn parse_type_declaration_after_keyword(&mut self) -> (r: Result<TypeDecl, ParseError>)
        requires
            old(self).wf(),
        ensures
            moved(*old(self), *final(self)),
            equals((res_type_decl(r), final(self).current as int), g_type_decl(old(self).tokens@, old(self).current as int)),
    {
        let name = match self.consume_identifier() {
            Ok(v) => v,
            Err(e) => return Err(e),
        };
        let params = if self.check(&TokenKind::LParen) {
            match self.parse_param_list() {
                Ok(v) => v,
                Err(e) => return Err(e),
            }
        } else {
            let params: Vec<Param> = Vec::new();
            proof {
                assert(params@ =~= Seq::<Param>::empty());
            }
            params
        };
        let parent = match self.parse_type_parent() {
            Ok(v) => v,
            Err(e) => return Err(e),
        };
        match self.consume(&TokenKind::LBrace, "`{` before type body") {
            Ok(_) => {},
            Err(e) => return Err(e),
        }
        let members = match self.parse_type_members() {
            Ok(v) => v,
            Err(e) => return Err(e),
        };
        match self.consume(&TokenKind::RBrace, "`}` after type body") {
            Ok(_) => {},
            Err(e) => return Err(e),
        }
        Ok(TypeDecl::new(name, params, parent, members))
    }

    /// (`inherits` Ident (`(` Args)?)?
    #[verifier::spinoff_prover]
    fn parse_type_parent(&mut self) -> (r: Result<Option<TypeParent>, ParseError>)
        requires
            old(self).wf(),
        ensures
            moved(*old(self), *final(self)),
            equals((res_parent(r), final(self).current as int), g_type_parent(old(self).tokens@, old(self).current as int)),
    {
        if self.match_kind(&TokenKind::Inherits) {
            let parent_name = match self.consume_identifier() {
                Ok(v) => v,
                Err(e) => return Err(e),
            };
            let args = if self.match_kind(&TokenKind::LParen) {
                match self.parse_argument_list_after_lparen() {
                    Ok(v) => v,
                    Err(e) => return Err(e),
                }
            } else {
                let args: Vec<Expr> = Vec::new();
                proof {
                    assert(args@ =~= Seq::<Expr>::empty());
                }
                args
            };
            Ok(Some(TypeParent::new(parent_name, args)))
        } else {
            Ok(None)
        }
    }

    /// (`;` | Member)*  up to `}` or the end of the input
    #[verifier::loop_isolation(false)]
    #[verifier::spinoff_prover]
    fn parse_type_members(&mut self) -> (r: Result<Vec<TypeMember>, ParseError>)
        requires
            old(self).wf(),
        ensures
            moved(*old(self), *final(self)),
            equals((res_members(r), final(self).current as int), g_members(old(self).tokens@, old(self).current as int, Seq::empty())),
    {
        let ghost ts = self.tokens@;
        let ghost p0 = self.current as int;
        let mut members: Vec<TypeMember> = Vec::new();
        while !self.check(&TokenKind::RBrace) && !self.is_at_end()
            invariant
                self.wf(),
                self.tokens@ == ts,
                old(self).tokens@ == ts,
                old(self).current == p0,
                p0 <= self.current,
                equals(g_members(ts, p0, Seq::empty()), g_members(ts, self.current as int, members_v(members@))),
            decreases ts.len() - self.current,
        {
            if self.match_kind(&TokenKind::Semicolon) {
                continue;
            }
            let member = match self.parse_type_member() {
                Ok(v) => v,
                Err(e) => return Err(e),
            };
            proof {
                lemma_members_v_push(members@, member);
            }
            members.push(member);
        }
        Ok(members)
    }

    /// Member := `function` FunctionDecl | Name FunctionTail | Name (`:` Type)? `=` Expr `;`
    #[verifier::spinoff_prover]
    fn parse_type_member(&mut self) -> (r: Result<TypeMember, ParseError>)
        requires
            old(self).wf(),
        ensures
            moved(*old(self), *final(self)),
            equals((res_member(r), final(self).current as int), g_type_member(old(self).tokens@, old(self).current as int)),
            r is Ok ==> old(self).current < final(self).current,
    {
        let span = self.peek_span();
        if self.match_kind(&TokenKind::Function) {
            let method = match self.parse_function_declaration_after_keyword() {
                Ok(v) => v,
                Err(e) => return Err(e),
            };
            return Ok(TypeMember::new(TypeMemberKind::Method(method), span));
        }
        let name = match self.parse_name() {
            Ok(v) => v,
            Err(e) => return Err(e),
        };
        if self.check(&TokenKind::LParen) {
            let method = match self.parse_function_tail(name) {
                Ok(v) => v,
                Err(e) => return Err(e),
            };
            return Ok(TypeMember::new(TypeMemberKind::Method(method), span));
        }
        let type_annotation = match self.parse_annotation() {
            Ok(v) => v,
            Err(e) => return Err(e),
        };
        match self.consume(&TokenKind::Assign, "`=` in attribute declaration") {
            Ok(_) => {},
            Err(e) => return Err(e),
        }
        let initializer = match self.parse_expression() {
            Ok(v) => v,
            Err(e) => return Err(e),
        };
        match self.consume(&TokenKind::Semicolon, "`;` after attribute declaration") {
            Ok(_) => {},
            Err(e) => return Err(e),
        }
        Ok(
            TypeMember::new(
                TypeMemberKind::Attribute(AttributeDecl::new(name, type_annotation, initializer)),
                span,
            ),
        )
    }

    /// ProtocolDecl := Ident (`extends` Type (`,` Type)*)? `{` Methods `}`  (after `protocol`)
    #[verifier::loop_isolation(false)]
    #[verifier::spinoff_prover]
    pub fn parse_protocol_declaration_after_keyword(&mut self) -> (r: Result<ProtocolDecl, ParseError>)
        requires
            old(self).wf(),
        ensures
            moved(*old(self), *final(self)),
            equals(
                (res_protocol(r), final(self).position()),
                g_protocol_decl(old(self).token_seq(), old(self).position()),
            ),
    {
        let ghost ts = self.tokens@;
        let name = match self.consume_identifier() {
            Ok(v) => v,
            Err(e) => return Err(e),
        };
        let mut parents: Vec<TypeRef> = Vec::new();
        if self.match_kind(&TokenKind::Extends) {
            let ghost q = self.current as int;
            loop
                invariant
                    self.wf(),
                    self.tokens@ == ts,
                    q <= self.current,
                    equals(g_type_list(ts, q, Seq::empty()), g_type_list(ts, self.current as int, trefs_v(parents@))),
                decreases ts.len() - self.current,
            {
                let parent = match self.parse_type_ref() {
                    Ok(v) => v,
                    Err(e) => return Err(e),
                };
                proof {
                    lemma_trefs_v_push(parents@, parent);
                }
                parents.push(parent);
                if !self.match_kind(&TokenKind::Comma) {
                    break;
                }
            }
        }
        match self.consume(&TokenKind::LBrace, "`{` before protocol body") {
            Ok(_) => {},
            Err(e) => return Err(e),
        }
        let methods = match self.parse_protocol_methods() {
            Ok(v) => v,
            Err(e) => return Err(e),
        };
        match self.consume(&TokenKind::RBrace, "`}` after protocol body") {
            Ok(_) => {},
            Err(e) => return Err(e),
        }
        Ok(ProtocolDecl::new(name, parents, methods))
    }

    /// (`;` | Name ParamList `:` Type `;`)*  up to `}` or the end of the input
    #[verifier::loop_isolation(false)]
    #[verifier::spinoff_prover]
    fn parse_protocol_methods(&mut self) -> (r: Result<Vec<ProtocolMethod>, ParseError>)
        requires
            old(self).wf(),
        ensures
            moved(*old(self), *final(self)),
            equals((res_protocol_methods(r), final(self).current as int), g_protocol_methods(old(self).tokens@, old(self).current as int, Seq::empty())),
    {
        let ghost ts = self.tokens@;
        let ghost p0 = self.current as int;
        let mut methods: Vec<ProtocolMethod> = Vec::new();
        while !self.check(&TokenKind::RBrace) && !self.is_at_end()
            invariant
                self.wf(),
                self.tokens@ == ts,
                old(self).tokens@ == ts,
                old(self).current == p0,
                p0 <= self.current,
                equals(
                    g_protocol_methods(ts, p0, Seq::empty()),
                    g_protocol_methods(ts, self.current as int, protocol_methods_v(methods@)),
                ),
            decreases ts.len() - self.current,
        {
            if self.match_kind(&TokenKind::Semicolon) {
                continue;
            }
            let method_name = match self.parse_name() {
                Ok(v) => v,
                Err(e) => return Err(e),
            };
            let params = match self.parse_param_list() {
                Ok(v) => v,
                Err(e) => return Err(e),
            };
            match self.consume(&TokenKind::Colon, "return type in protocol method") {
                Ok(_) => {},
                Err(e) => return Err(e),
            }
            let return_type = match self.parse_type_ref() {
                Ok(v) => v,
                Err(e) => return Err(e),
            };
            match self.consume(&TokenKind::Semicolon, "`;` after protocol method") {
                Ok(_) => {},
                Err(e) => return Err(e),
            }
            let method = ProtocolMethod::new(method_name, params, return_type);
            proof {
                lemma_protocol_methods_v_push(methods@, method);
            }
            methods.push(method);
        }
        Ok(methods)
    }
}

/// Parses a complete HULK program from a token stream using the LL(1) parser.
pub fn parse(tokens: Vec<Token>) -> (r: Result<Program, ParseError>)
    ensures
        equals(res_program(r), g_program(with_eof(tokens@), 0).0),
{
    let mut parser = Ll1Parser::new(tokens);
    parser.parse_program()
}

/// `name<ty>`: the type constructor `name` applied to `ty`.
fn wrap_type(name: &str, ty: TypeRef) -> (r: TypeRef)
    ensures
        r@ == (TypeRefV::Named { name: name@, args: seq![ty@] }),
{
    let mut args: Vec<TypeRef> = Vec::new();
    proof {
        lemma_trefs_v_push(args@, ty);
    }
    args.push(ty);
    TypeRef::with_args(name.to_owned(), args)
}

/// Do the two kinds have the same variant?
fn same_variant(a: &TokenKind, b: &TokenKind) -> (r: bool)
    ensures
        r == (kind_tag(*a) == kind_tag(*b)),
{
    a.tag() == b.tag()
}

fn token_span(span: Span) -> (r: SourceSpan)
    ensures
        r == (SourceSpan { line: span.line, col: span.col }),
{
    SourceSpan::new(span.line, span.col)
}

/// Formats `s` with `<String as std::fmt::Debug>::fmt` (`format!("{:?}", s)`):
/// the text in double quotes with Rust's escapes. The contract only names the
/// result (`debug_quoted`), a function of the text of `s` alone; what that
/// rendering looks like is not stated.
#[verifier::external_body]
fn debug_quote(s: &String) -> (r: String)
    ensures
        r@ == debug_quoted(s@),
{
    format!("{:?}", s)
}

/// Human-readable description of a token kind, used in diagnostics.
fn token_kind_name(kind: &TokenKind) -> (r: String)
    ensures
        r@ == kind_name(*kind),
{
    match kind {
        TokenKind::Number(n) => {
            let mut s = String::from_str("number literal `");
            s.append(n.text.as_str());
            s.append("`");
            s
        },
        TokenKind::StringLit(v) => {
            let mut s = String::from_str("string literal ");
            let q = debug_quote(v);
            s.append(q.as_str());
            s
        },
        TokenKind::True => String::from_str("`true`"),
        TokenKind::False => String::from_str("`false`"),
        TokenKind::Plus => String::from_str("`+`"),
        TokenKind::Minus => String::from_str("`-`"),
        TokenKind::Star => String::from_str("`*`"),
        TokenKind::Slash => String::from_str("`/`"),
        TokenKind::Caret => String::from_str("`^`"),
        TokenKind::Percent => String::from_str("`%`"),
        TokenKind::At => String::from_str("`@`"),
        TokenKind::AtAt => String::from_str("`@@`"),
        TokenKind::EqEq => String::from_str("`==`"),
        TokenKind::Neq => String::from_str("`!=`"),
        TokenKind::Lt => String::from_str("`<`"),
        TokenKind::Gt => String::from_str("`>`"),
        TokenKind::Leq => String::from_str("`<=`"),
        TokenKind::Geq => String::from_str("`>=`"),
        TokenKind::And => String::from_str("`&`"),
        TokenKind::Or => String::from_str("`|`"),
        TokenKind::Not => String::from_str("`!`"),
        TokenKind::Assign => String::from_str("`=`"),
        TokenKind::ColonEq => String::from_str("`:=`"),
        TokenKind::LParen => String::from_str("`(`"),
        TokenKind::RParen => String::from_str("`)`"),
        TokenKind::LBrace => String::from_str("`{`"),
        TokenKind::RBrace => String::from_str("`}`"),
        TokenKind::LBracket => String::from_str("`[`"),
        TokenKind::RBracket => String::from_str("`]`"),
        TokenKind::Semicolon => String::from_str("`;`"),
        TokenKind::Comma => String::from_str("`,`"),
        TokenKind::Colon => String::from_str("`:`"),
        TokenKind::Dot => String::from_str("`.`"),
        TokenKind::Arrow => String::from_str("`->`"),
        TokenKind::FatArrow => String::from_str("`=>`"),
        TokenKind::Pipe => String::from_str("`|`"),
        TokenKind::Let => String::from_str("`let`"),
        TokenKind::In => String::from_str("`in`"),
        TokenKind::If => String::from_str("`if`"),
        TokenKind::Elif => String::from_str("`elif`"),
        TokenKind::Else => String::from_str("`else`"),
        TokenKind::While => String::from_str("`while`"),
        TokenKind::For => String::from_str("`for`"),
        TokenKind::Function => String::from_str("`function`"),
        TokenKind::Type => String::from_str("`type`"),
        TokenKind::Inherits => String::from_str("`inherits`"),
        TokenKind::New => String::from_str("`new`"),
        TokenKind::SelfKw => String::from_str("`self`"),
        TokenKind::Base => String::from_str("`base`"),
        TokenKind::Is => String::from_str("`is`"),
        TokenKind::As => String::from_str("`as`"),
        TokenKind::Protocol => String::from_str("`protocol`"),
        TokenKind::Extends => String::from_str("`extends`"),
        TokenKind::Def => String::from_str("`def`"),
        TokenKind::Match => String::from_str("`match`"),
        TokenKind::Case => String::from_str("`case`"),
        TokenKind::Underscore => String::from_str("`_`"),
        TokenKind::Ident(name) => {
            let mut s = String::from_str("identifier `");
            s.append(name.as_str());
            s.append("`");
            s
        },
        TokenKind::Eof => String::from_str("end of file"),    }
}

} // verus!
