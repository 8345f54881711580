use hulk::ast::{BinaryOp, DeclarationKind, ExprKind, NumberLit, Program, VectorExpr};
use hulk::parser::{parse, Ll1Parser, ParseError, ParseErrorKind};
use hulk::token::{Span, Token, TokenKind};

/// Splits HULK source text into tokens (enough of the lexical grammar for these tests).
fn lex(source: &str) -> Vec<Token> {
    let chars: Vec<char> = source.chars().collect();
    let mut tokens = Vec::new();
    let (mut i, mut line, mut col) = (0usize, 1usize, 1usize);
    while i < chars.len() {
        let c = chars[i];
        if c == '\n' {
            i += 1;
            line += 1;
            col = 1;
            continue;
        }
        if c.is_whitespace() {
            i += 1;
            col += 1;
            continue;
        }
        let span = Span { line, col };
        let start = i;
        let kind = if c.is_ascii_digit() {
            while i < chars.len() && (chars[i].is_ascii_digit() || chars[i] == '.') {
                i += 1;
            }
            let text: String = chars[start..i].iter().collect();
            let value: f64 = text.parse().unwrap();
            TokenKind::Number(NumberLit::new(value.to_bits(), format!("{}", value)))
        } else if c == '"' {
            i += 1;
            while chars[i] != '"' {
                i += 1;
            }
            i += 1;
            TokenKind::StringLit(chars[start + 1..i - 1].iter().collect())
        } else if c.is_alphabetic() || c == '_' {
            while i < chars.len() && (chars[i].is_alphanumeric() || chars[i] == '_') {
                i += 1;
            }
            let word: String = chars[start..i].iter().collect();
            match word.as_str() {
                "true" => TokenKind::True,
                "false" => TokenKind::False,
                "let" => TokenKind::Let,
                "in" => TokenKind::In,
                "if" => TokenKind::If,
                "elif" => TokenKind::Elif,
                "else" => TokenKind::Else,
                "while" => TokenKind::While,
                "for" => TokenKind::For,
                "function" => TokenKind::Function,
                "type" => TokenKind::Type,
                "inherits" => TokenKind::Inherits,
                "new" => TokenKind::New,
                "self" => TokenKind::SelfKw,
                "base" => TokenKind::Base,
                "is" => TokenKind::Is,
                "as" => TokenKind::As,
                "protocol" => TokenKind::Protocol,
                "extends" => TokenKind::Extends,
                "match" => TokenKind::Match,
                "case" => TokenKind::Case,
                "_" => TokenKind::Underscore,
                _ => TokenKind::Ident(word),
            }
        } else {
            let two: String = chars[i..(i + 2).min(chars.len())].iter().collect();
            let (kind, len) = match two.as_str() {
                "@@" => (TokenKind::AtAt, 2),
                "==" => (TokenKind::EqEq, 2),
                "!=" => (TokenKind::Neq, 2),
                "<=" => (TokenKind::Leq, 2),
                ">=" => (TokenKind::Geq, 2),
                ":=" => (TokenKind::ColonEq, 2),
                "=>" => (TokenKind::FatArrow, 2),
                "->" => (TokenKind::Arrow, 2),
                _ => (
                    match c {
                        '+' => TokenKind::Plus,
                        '-' => TokenKind::Minus,
                        '*' => TokenKind::Star,
                        '/' => TokenKind::Slash,
                        '^' => TokenKind::Caret,
                        '%' => TokenKind::Percent,
                        '@' => TokenKind::At,
                        '<' => TokenKind::Lt,
                        '>' => TokenKind::Gt,
                        '&' => TokenKind::And,
                        '|' => TokenKind::Or,
                        '!' => TokenKind::Not,
                        '=' => TokenKind::Assign,
                        '(' => TokenKind::LParen,
                        ')' => TokenKind::RParen,
                        '{' => TokenKind::LBrace,
                        '}' => TokenKind::RBrace,
                        '[' => TokenKind::LBracket,
                        ']' => TokenKind::RBracket,
                        ';' => TokenKind::Semicolon,
                        ',' => TokenKind::Comma,
                        ':' => TokenKind::Colon,
                        '.' => TokenKind::Dot,
                        other => panic!("unexpected character {other}"),
                    },
                    1,
                ),
            };
            i += len;
            kind
        };
        col += i - start;
        tokens.push(Token { kind, span });
    }
    tokens.push(Token { kind: TokenKind::Eof, span: Span { line, col } });
    tokens
}

fn parse_source(source: &str) -> Program {
    parse(lex(source)).expect("valid parse")
}

fn parse_error(source: &str) -> ParseError {
    match parse(lex(source)) {
        Ok(program) => panic!("expected a parse error, got {program:?}"),
        Err(error) => error,
    }
}

#[test]
fn parses_arithmetic_precedence_inside_call() {
    let program = parse_source("print(1 + 2 * 3);");

    match program.entry.kind {
        ExprKind::Call(call) => match &call.args[0].kind {
            ExprKind::Binary(binary) => {
                assert_eq!(binary.op, BinaryOp::Add);
                assert!(matches!(binary.right.kind, ExprKind::Binary(_)));
            }
            other => panic!("expected binary argument, got {other:?}"),
        },
        other => panic!("expected call entry, got {other:?}"),
    }
}

#[test]
fn parses_function_declaration_and_entry_expression() {
    let program = parse_source("function tan(x: Number): Number => sin(x) / cos(x); print(tan(PI));");

    assert_eq!(program.declarations.len(), 1);
    match &program.declarations[0].kind {
        DeclarationKind::Function(function) => {
            assert_eq!(function.name, "tan");
            assert_eq!(function.params.len(), 1);
            assert_eq!(function.return_type.as_ref().map(|t| t.to_string()), Some("Number".to_string()));
        }
        other => panic!("expected function declaration, got {other:?}"),
    }
}

#[test]
fn parses_let_expression_with_type_annotation() {
    let program = parse_source("let x: Number = 5 in x + 1;");

    match program.entry.kind {
        ExprKind::Let(let_expr) => {
            assert_eq!(let_expr.bindings[0].name, "x");
            assert_eq!(
                let_expr.bindings[0].type_annotation.as_ref().map(|t| t.to_string()),
                Some("Number".to_string())
            );
            assert!(matches!(let_expr.body.kind, ExprKind::Binary(_)));
        }
        other => panic!("expected let entry, got {other:?}"),
    }
}

#[test]
fn parses_type_with_attribute_and_methods() {
    let program = parse_source(
        r#"
            type A {
                value: Number = 42;
                f() => "Hello";
                g(): String => "World";
            }
            print(new A().f());
            "#,
    );

    assert_eq!(program.declarations.len(), 1);
    match &program.declarations[0].kind {
        DeclarationKind::Type(type_decl) => {
            assert_eq!(type_decl.name, "A");
            assert_eq!(type_decl.members.len(), 3);
        }
        other => panic!("expected type declaration, got {other:?}"),
    }
}

#[test]
fn parses_control_flow_expressions() {
    let program = parse_source(
        r#"
            let a = 10 in while (a >= 0) {
                print(a);
                a := a - 1;
            };
            "#,
    );

    match program.entry.kind {
        ExprKind::Let(let_expr) => assert!(matches!(let_expr.body.kind, ExprKind::While(_))),
        other => panic!("expected let entry, got {other:?}"),
    }
}

#[test]
fn public_ll1_parser_type_parses_programs() {
    let program = Ll1Parser::new(lex("print(42);")).parse_program().expect("valid parse");
    assert!(matches!(program.entry.kind, ExprKind::Call(_)));
}

#[test]
fn parses_vector_comprehension() {
    let program = parse_source("let xs = [x^2 | x in range(1, 10)] in xs[0];");

    match program.entry.kind {
        ExprKind::Let(let_expr) => {
            assert!(matches!(
                let_expr.bindings[0].initializer.kind,
                ExprKind::Vector(VectorExpr::Comprehension(_))
            ));
            assert!(matches!(let_expr.body.kind, ExprKind::Index(_)));
        }
        other => panic!("expected let entry, got {other:?}"),
    }
}

#[test]
fn parses_or_inside_parenthesized_vector_comprehension_head() {
    let program = parse_source("let xs = [(x | y) | x in values] in xs[0];");

    match program.entry.kind {
        ExprKind::Let(let_expr) => {
            assert!(matches!(
                let_expr.bindings[0].initializer.kind,
                ExprKind::Vector(VectorExpr::Comprehension(_))
            ));
        }
        other => panic!("expected let entry, got {other:?}"),
    }
}

#[test]
fn rejects_invalid_assignment_target() {
    let tokens = lex("(1 + 2) := 3;");
    let error = parse(tokens).expect_err("invalid assignment target");
    assert_eq!(error.kind, ParseErrorKind::InvalidAssignmentTarget);
}

#[test]
fn missing_entry_expression_is_reported_at_end_of_file() {
    let error = parse_error("function f() => 1;");
    assert_eq!(error.kind, ParseErrorKind::ExpectedExpression { found: "end of file".to_string() });
    assert_eq!((error.span.line, error.span.col), (1, 19));
}

#[test]
fn function_name_must_be_an_identifier() {
    let error = parse_error("function 1() => 1; 2;");
    assert_eq!(error.kind, ParseErrorKind::ExpectedIdentifier { found: "number literal `1`".to_string() });
    assert_eq!((error.span.line, error.span.col), (1, 10));
}

#[test]
fn unclosed_call_names_what_was_expected() {
    let error = parse_error("print(1;");
    assert_eq!(
        error.kind,
        ParseErrorKind::UnexpectedToken {
            expected: "`)` after argument list".to_string(),
            found: "`;`".to_string(),
        }
    );
    assert_eq!((error.span.line, error.span.col), (1, 8));
}

#[test]
fn if_without_else_is_rejected() {
    let error = parse_error("if (true) 1;");
    assert_eq!(
        error.kind,
        ParseErrorKind::UnexpectedToken {
            expected: "`else` branch in if expression".to_string(),
            found: "`;`".to_string(),
        }
    );
}

#[test]
fn invalid_match_pattern_is_a_message() {
    let error = parse_error("match x { case ( => 1; }");
    assert_eq!(error.kind, ParseErrorKind::Message("invalid match pattern: `(`".to_string()));
    assert_eq!((error.span.line, error.span.col), (1, 16));
}

#[test]
fn string_tokens_are_quoted_in_diagnostics() {
    let error = parse_error("\"a\" \"b\";");
    assert_eq!(
        error.kind,
        ParseErrorKind::UnexpectedToken {
            expected: "end of file".to_string(),
            found: "string literal \"b\"".to_string(),
        }
    );
}

#[test]
fn end_of_file_is_appended_when_missing() {
    let mut tokens = lex("print(42)");
    tokens.pop();
    let program = parse(tokens).expect("valid parse");
    assert!(matches!(program.entry.kind, ExprKind::Call(_)));
}

#[test]
fn binary_operators_associate_to_the_left_and_power_to_the_right() {
    let program = parse_source("1 - 2 - 3 ^ 4 ^ 5;");
    match program.entry.kind {
        ExprKind::Binary(outer) => {
            assert_eq!(outer.op, BinaryOp::Subtract);
            assert!(matches!(&outer.left.kind, ExprKind::Binary(inner) if inner.op == BinaryOp::Subtract));
            match &outer.right.kind {
                ExprKind::Binary(power) => {
                    assert_eq!(power.op, BinaryOp::Power);
                    assert!(matches!(&power.right.kind, ExprKind::Binary(p) if p.op == BinaryOp::Power));
                }
                other => panic!("expected power, got {other:?}"),
            }
        }
        other => panic!("expected binary entry, got {other:?}"),
    }
}

#[test]
fn base_call_becomes_base_reference() {
    let program = parse_source("base(1);");
    match program.entry.kind {
        ExprKind::Call(call) => assert!(matches!(call.callee.kind, ExprKind::BaseRef)),
        other => panic!("expected call entry, got {other:?}"),
    }
    let program = parse_source("base.x;");
    match program.entry.kind {
        ExprKind::Member(member) => assert!(matches!(&member.object.kind, ExprKind::Variable(n) if n == "base")),
        other => panic!("expected member entry, got {other:?}"),
    }
}

#[test]
fn protocols_and_inheritance_are_parsed() {
    let program = parse_source(
        "protocol P extends Q, R { f(x: Number): Number; } type B(a) inherits A(a, 1) { g() => a; } 0;",
    );
    assert_eq!(program.declarations.len(), 2);
    match &program.declarations[0].kind {
        DeclarationKind::Protocol(protocol) => {
            assert_eq!(protocol.name, "P");
            assert_eq!(protocol.parents.len(), 2);
            assert_eq!(protocol.methods.len(), 1);
            assert_eq!(protocol.methods[0].return_type.to_string(), "Number");
        }
        other => panic!("expected protocol, got {other:?}"),
    }
    match &program.declarations[1].kind {
        DeclarationKind::Type(type_decl) => {
            assert_eq!(type_decl.params.len(), 1);
            let parent = type_decl.parent.as_ref().expect("parent");
            assert_eq!(parent.name, "A");
            assert_eq!(parent.args.len(), 2);
        }
        other => panic!("expected type, got {other:?}"),
    }
}

#[test]
fn type_suffixes_wrap_the_type() {
    let program = parse_source("let v: Number[]* = 0 in v;");
    match program.entry.kind {
        ExprKind::Let(let_expr) => assert_eq!(
            let_expr.bindings[0].type_annotation.as_ref().map(|t| t.to_string()),
            Some("Iterable<Vector<Number>>".to_string())
        ),
        other => panic!("expected let entry, got {other:?}"),
    }
}
