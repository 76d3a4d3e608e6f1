use lox_front::expr::{BinaryOperator, BinaryOperatorEnum, Expr, UnaryOperator, UnaryOperatorEnum};
use lox_front::parser::{ParseErrorKind, Parser, ParserError};
use lox_front::scanner::Scanner;
use lox_front::token::{Literal, Token, TokenType};

fn parser_for(source: &str) -> Parser {
    let mut s = Scanner::default();
    s.scan_tokens(String::from(source));
    assert!(s.errors.is_empty(), "lexical errors in {:?}", source);
    Parser { start: 0, current: 0, tokens: s.tokens }
}

fn parse(source: &str) -> Result<Expr, ParserError> {
    parser_for(source).parse()
}

fn num(text: &str) -> Expr {
    Expr::Literal(Literal::Num(String::from(text)))
}

fn bin(left: Expr, op: BinaryOperatorEnum, lexeme: &str, line: usize, right: Expr) -> Expr {
    Expr::Binary(
        Box::new(left),
        BinaryOperator { token_type: op, lexeme: String::from(lexeme), line },
        Box::new(right),
    )
}

#[test]
fn factor_binds_tighter_than_term() {
    let expected = bin(
        num("1"),
        BinaryOperatorEnum::Plus,
        "+",
        1,
        bin(num("2"), BinaryOperatorEnum::Star, "*", 1, num("3")),
    );
    assert_eq!(parse("1 + 2 * 3"), Ok(expected));
}

#[test]
fn binary_levels_fold_left() {
    let expected = bin(
        bin(num("1"), BinaryOperatorEnum::Minus, "-", 1, num("2")),
        BinaryOperatorEnum::Minus,
        "-",
        1,
        num("3"),
    );
    assert_eq!(parse("1 - 2 - 3"), Ok(expected));
}

#[test]
fn comparison_and_equality_levels_nest() {
    let expected = bin(
        bin(num("1"), BinaryOperatorEnum::Less, "<", 1, num("2")),
        BinaryOperatorEnum::EqualEqual,
        "==",
        1,
        num("3"),
    );
    assert_eq!(parse("1 < 2 == 3"), Ok(expected));
}

#[test]
fn greater_token_parses_as_greater_operator() {
    let expected = bin(num("1"), BinaryOperatorEnum::Greater, ">", 1, num("2"));
    assert_eq!(parse("1 > 2"), Ok(expected));
}

#[test]
fn unary_is_right_associative() {
    let expected = Expr::Unary(
        UnaryOperator { token_type: UnaryOperatorEnum::Bang, lexeme: String::from("!"), line: 1 },
        Box::new(Expr::Unary(
            UnaryOperator {
                token_type: UnaryOperatorEnum::Minus,
                lexeme: String::from("-"),
                line: 1,
            },
            Box::new(num("5")),
        )),
    );
    assert_eq!(parse("!-5"), Ok(expected));
}

#[test]
fn keyword_literals_become_leaves() {
    assert_eq!(parse("true"), Ok(Expr::Literal(Literal::True)));
    assert_eq!(parse("false"), Ok(Expr::Literal(Literal::False)));
    assert_eq!(parse("nil"), Ok(Expr::Literal(Literal::Nil)));
}

#[test]
fn string_literal_becomes_a_leaf() {
    assert_eq!(
        parse("\"hello\""),
        Ok(Expr::Literal(Literal::Str(String::from("hello"))))
    );
}

#[test]
fn grouping_wraps_the_inner_expression() {
    let expected = Expr::Grouping(Box::new(bin(
        num("1"),
        BinaryOperatorEnum::Plus,
        "+",
        1,
        num("2"),
    )));
    assert_eq!(parse("(1 + 2)"), Ok(expected));
}

#[test]
fn missing_close_paren_is_expected_token_error() {
    let err = parse("(1 + 2").unwrap_err();
    assert_eq!(err.kind, ParseErrorKind::ExpectedToken(TokenType::RightParen));
    assert_eq!(err.line, None);
    assert_eq!(err.lexeme, None);
    assert_eq!(err.message, "Expect ')' after expression.");
}

#[test]
fn missing_close_paren_before_another_token_carries_position() {
    let err = parse("(1 ;").unwrap_err();
    assert_eq!(err.kind, ParseErrorKind::ExpectedToken(TokenType::RightParen));
    assert_eq!(err.line, Some(1));
    assert_eq!(err.lexeme, Some(String::from(";")));
}

#[test]
fn empty_token_stream_is_expected_expression_without_position() {
    let eof = Token {
        token_type: TokenType::Eof,
        lexeme: String::new(),
        literal: None,
        line: 1,
    };
    let mut p = Parser { start: 0, current: 0, tokens: vec![eof] };
    let err = p.parse().unwrap_err();
    assert_eq!(err.kind, ParseErrorKind::ExpectedExpression);
    assert_eq!(err.line, None);
    assert_eq!(err.lexeme, None);
    assert_eq!(err.message, "Expected expression.");
}

#[test]
fn stray_token_error_carries_its_line_and_lexeme() {
    let err = parse("2 + \n;").unwrap_err();
    assert_eq!(err.kind, ParseErrorKind::ExpectedExpression);
    assert_eq!(err.line, Some(2));
    assert_eq!(err.lexeme, Some(String::from(";")));
}

#[test]
fn equality_method_is_the_grammar_entry() {
    let mut p = parser_for("1 == 1");
    let expected = bin(num("1"), BinaryOperatorEnum::EqualEqual, "==", 1, num("1"));
    assert_eq!(p.equality(), Ok(expected));
}

#[test]
fn expression_method_matches_parse() {
    let mut p1 = parser_for("1 * (2 + 3)");
    let mut p2 = parser_for("1 * (2 + 3)");
    assert_eq!(p1.expression(), p2.parse());
}

#[test]
fn synchronize_skips_past_a_semicolon() {
    let mut p = parser_for("+ ; 17");
    assert!(p.parse().is_err());
    p.synchronize();
    assert_eq!(p.parse(), Ok(num("17")));
}

#[test]
fn synchronize_stops_before_a_statement_keyword() {
    let mut p = parser_for("+ var x");
    assert!(p.parse().is_err());
    p.synchronize();
    assert_eq!(p.tokens[p.current].token_type, TokenType::Var);
}

#[test]
fn synchronize_reaches_the_end_when_no_boundary_exists() {
    let mut p = parser_for("+ 1 2");
    assert!(p.parse().is_err());
    p.synchronize();
    assert_eq!(p.tokens[p.current].token_type, TokenType::Eof);
}

#[test]
fn parse_leaves_cursor_after_the_expression() {
    let mut p = parser_for("1 + 2 ;");
    assert!(p.parse().is_ok());
    assert_eq!(p.tokens[p.current].token_type, TokenType::Semicolon);
}
