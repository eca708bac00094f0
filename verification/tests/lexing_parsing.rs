//! Tests of the lexer and the parser: token streams, precedence,
//! parenthesization, and every parse-time error.

use minilang::ast::{Expr, NodeType, Program, Stmt};
use minilang::errors::{InterpError, ParseErrorKind};
use minilang::lexer::{token, tokenize, Token, TokenType};
use minilang::parser::Parser;

fn lex(src: &str) -> Vec<Token> {
    tokenize(String::from(src)).expect("lexing should succeed")
}

fn parse(src: &str) -> Program {
    let mut parser = Parser::new(String::from(src)).expect("lexing should succeed");
    parser.produce_ast().expect("parsing should succeed")
}

fn parse_err(src: &str) -> InterpError {
    let mut parser = Parser::new(String::from(src)).expect("lexing should succeed");
    parser.produce_ast().expect_err("parsing should fail")
}

#[test]
fn tokenize_declaration_with_sum() {
    let toks = lex("let x = 5 + 3;");
    let expected: Vec<(&str, TokenType)> = vec![
        ("let", TokenType::Let),
        ("x", TokenType::Identifier),
        ("=", TokenType::Equals),
        ("5", TokenType::Number),
        ("+", TokenType::BinaryOperator),
        ("3", TokenType::Number),
        (";", TokenType::Semicolon),
        ("EndOfFile", TokenType::EOF),
    ];
    assert_eq!(toks.len(), expected.len());
    for (tok, (text, kind)) in toks.iter().zip(expected.iter()) {
        assert_eq!(tok.tvalue, *text);
        assert_eq!(tok.ttype, *kind);
    }
}

#[test]
fn tokenize_skips_whitespace() {
    let toks = lex("  1\t+\n2 ");
    assert_eq!(toks.len(), 4);
    assert_eq!(toks[0].tvalue, "1");
    assert_eq!(toks[1].tvalue, "+");
    assert_eq!(toks[2].tvalue, "2");
    assert_eq!(toks[3].ttype, TokenType::EOF);
}

#[test]
fn tokenize_keywords_and_identifiers() {
    let toks = lex("null nulls const");
    assert_eq!(toks[0].ttype, TokenType::Null);
    assert_eq!(toks[1].ttype, TokenType::Identifier);
    assert_eq!(toks[1].tvalue, "nulls");
    assert_eq!(toks[2].ttype, TokenType::Const);
}

#[test]
fn tokenize_parens_and_operators() {
    let toks = lex("(8%2)*-/");
    let kinds: Vec<TokenType> = toks.iter().map(|t| t.ttype).collect();
    assert_eq!(
        kinds,
        vec![
            TokenType::OpenParen,
            TokenType::Number,
            TokenType::BinaryOperator,
            TokenType::Number,
            TokenType::CloseParen,
            TokenType::BinaryOperator,
            TokenType::BinaryOperator,
            TokenType::BinaryOperator,
            TokenType::EOF,
        ]
    );
}

#[test]
fn tokenize_rejects_unrecognized_character() {
    let e = tokenize(String::from("let $x = 1;")).expect_err("lexing should fail");
    assert!(matches!(e, InterpError::LexError { character: '$' }));
}

#[test]
fn token_constructor_keeps_fields() {
    let t = token(String::from("zz"), TokenType::Identifier);
    assert_eq!(t.tvalue, "zz");
    assert_eq!(t.ttype, TokenType::Identifier);
}

fn single_expr(program: &Program) -> &Expr {
    assert_eq!(program.body.len(), 1);
    match &program.body[0] {
        Stmt::Expr(e) => e,
        other => panic!("expected an expression statement, got {:?}", other),
    }
}

fn literal_value(e: &Expr) -> i64 {
    match e {
        Expr::NumericLiteral(n) => n.value,
        other => panic!("expected a numeric literal, got {:?}", other),
    }
}

#[test]
fn parse_multiplication_binds_tighter_than_addition() {
    let program = parse("2 + 3 * 4");
    let top = match single_expr(&program) {
        Expr::BinaryExpr(b) => b,
        other => panic!("expected a binary expression, got {:?}", other),
    };
    assert_eq!(top.operator, "+");
    assert_eq!(literal_value(&top.left), 2);
    match &top.right {
        Expr::BinaryExpr(inner) => {
            assert_eq!(inner.operator, "*");
            assert_eq!(literal_value(&inner.left), 3);
            assert_eq!(literal_value(&inner.right), 4);
        }
        other => panic!("expected a binary expression, got {:?}", other),
    }
}

#[test]
fn parse_parentheses_override_precedence() {
    let program = parse("(2 + 3) * 4");
    let top = match single_expr(&program) {
        Expr::BinaryExpr(b) => b,
        other => panic!("expected a binary expression, got {:?}", other),
    };
    assert_eq!(top.operator, "*");
    match &top.left {
        Expr::BinaryExpr(inner) => {
            assert_eq!(inner.operator, "+");
            assert_eq!(literal_value(&inner.left), 2);
            assert_eq!(literal_value(&inner.right), 3);
        }
        other => panic!("expected a binary expression, got {:?}", other),
    }
    assert_eq!(literal_value(&top.right), 4);
}

#[test]
fn parse_additive_chain_is_left_leaning() {
    let program = parse("10 - 3 - 2");
    let top = match single_expr(&program) {
        Expr::BinaryExpr(b) => b,
        other => panic!("expected a binary expression, got {:?}", other),
    };
    assert_eq!(top.operator, "-");
    assert_eq!(literal_value(&top.right), 2);
    match &top.left {
        Expr::BinaryExpr(inner) => {
            assert_eq!(inner.operator, "-");
            assert_eq!(literal_value(&inner.left), 10);
            assert_eq!(literal_value(&inner.right), 3);
        }
        other => panic!("expected a binary expression, got {:?}", other),
    }
}

#[test]
fn parse_assignment_is_right_associative() {
    let program = parse("a = b = 5");
    let top = match single_expr(&program) {
        Expr::AssignmentExpr(a) => a,
        other => panic!("expected an assignment, got {:?}", other),
    };
    match &top.assigne {
        Expr::Identifier(i) => assert_eq!(i.symbol, "a"),
        other => panic!("expected an identifier, got {:?}", other),
    }
    match &top.value {
        Expr::AssignmentExpr(inner) => {
            match &inner.assigne {
                Expr::Identifier(i) => assert_eq!(i.symbol, "b"),
                other => panic!("expected an identifier, got {:?}", other),
            }
            assert_eq!(literal_value(&inner.value), 5);
        }
        other => panic!("expected an assignment, got {:?}", other),
    }
}

#[test]
fn parse_declarations() {
    let program = parse("let x = 1; const y = 2; let z;");
    assert_eq!(program.body.len(), 3);
    match &program.body[0] {
        Stmt::VarDeclaration(d) => {
            assert!(!d.constant);
            assert_eq!(d.identifier, "x");
            assert!(d.value.is_some());
        }
        other => panic!("expected a declaration, got {:?}", other),
    }
    match &program.body[1] {
        Stmt::VarDeclaration(d) => {
            assert!(d.constant);
            assert_eq!(d.identifier, "y");
        }
        other => panic!("expected a declaration, got {:?}", other),
    }
    match &program.body[2] {
        Stmt::VarDeclaration(d) => {
            assert!(!d.constant);
            assert_eq!(d.identifier, "z");
            assert!(d.value.is_none());
        }
        other => panic!("expected a declaration, got {:?}", other),
    }
}

#[test]
fn parse_empty_program() {
    let program = parse("");
    assert!(matches!(program.kind, NodeType::Program));
    assert_eq!(program.body.len(), 0);
}

#[test]
fn parse_rejects_missing_identifier() {
    let e = parse_err("let = 5;");
    match e {
        InterpError::ParseError { kind, found } => {
            assert_eq!(kind, ParseErrorKind::Expected(TokenType::Identifier));
            assert_eq!(found.ttype, TokenType::Equals);
        }
        other => panic!("expected a parse error, got {:?}", other),
    }
}

#[test]
fn parse_rejects_missing_equals() {
    let e = parse_err("let x 5;");
    assert!(matches!(
        e,
        InterpError::ParseError { kind: ParseErrorKind::Expected(TokenType::Equals), .. }
    ));
}

#[test]
fn parse_rejects_missing_semicolon() {
    let e = parse_err("let x = 5");
    assert!(matches!(
        e,
        InterpError::ParseError { kind: ParseErrorKind::Expected(TokenType::Semicolon), .. }
    ));
}

#[test]
fn parse_rejects_const_without_value() {
    let e = parse_err("const c;");
    assert!(matches!(
        e,
        InterpError::ParseError { kind: ParseErrorKind::ConstWithoutValue, .. }
    ));
}

#[test]
fn parse_rejects_unclosed_parenthesis() {
    let e = parse_err("(1 + 2");
    assert!(matches!(
        e,
        InterpError::ParseError { kind: ParseErrorKind::Expected(TokenType::CloseParen), .. }
    ));
}

#[test]
fn parse_rejects_unexpected_token() {
    let e = parse_err(")");
    match e {
        InterpError::ParseError { kind, found } => {
            assert_eq!(kind, ParseErrorKind::UnexpectedToken);
            assert_eq!(found.ttype, TokenType::CloseParen);
        }
        other => panic!("expected a parse error, got {:?}", other),
    }
}

#[test]
fn parse_accepts_largest_number() {
    let program = parse("9223372036854775807");
    assert_eq!(literal_value(single_expr(&program)), i64::MAX);
}

#[test]
fn parse_rejects_oversized_number() {
    let e = parse_err("9223372036854775808");
    assert!(matches!(
        e,
        InterpError::ParseError { kind: ParseErrorKind::NumberTooLarge, .. }
    ));
}

#[test]
fn get_stmt_expr_copies_the_expression() {
    let program = parse("7 + 1");
    let expr = program.body[0].get_stmt_expr();
    match &expr {
        Expr::BinaryExpr(b) => assert_eq!(b.operator, "+"),
        other => panic!("expected a binary expression, got {:?}", other),
    }
}

#[test]
fn to_binaryexpr_copies_the_node() {
    let program = parse("6 * 7");
    let expr = program.body[0].get_stmt_expr();
    let b = expr.to_binaryexpr();
    assert_eq!(b.operator, "*");
    assert_eq!(literal_value(&b.left), 6);
    assert_eq!(literal_value(&b.right), 7);
}
