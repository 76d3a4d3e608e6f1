use lox_front::scanner::{LexError, Scanner};
use lox_front::token::{Literal, Token, TokenType};

fn scan(source: &str) -> Scanner {
    let mut s = Scanner::default();
    s.scan_tokens(String::from(source));
    s
}

fn kinds(tokens: &[Token]) -> Vec<TokenType> {
    tokens.iter().map(|t| t.token_type).collect()
}

#[test]
fn every_scan_ends_in_exactly_one_eof_with_non_decreasing_lines() {
    let sources = [
        "",
        "1 + 2",
        "\"multi\nline\"\nfoo",
        "@#$",
        "var x = 10;\nwhile (x > 0) { x = x - 1; }\n",
        "\"unterminated\nacross lines",
    ];
    for src in sources {
        let s = scan(src);
        assert!(!s.tokens.is_empty());
        let eof_count = s
            .tokens
            .iter()
            .filter(|t| t.token_type == TokenType::Eof)
            .count();
        assert_eq!(eof_count, 1);
        assert_eq!(s.tokens.last().unwrap().token_type, TokenType::Eof);
        for pair in s.tokens.windows(2) {
            assert!(pair[0].line <= pair[1].line);
        }
    }
}

#[test]
fn each_single_character_token_scans_alone() {
    let cases = [
        ("(", TokenType::LeftParen),
        (")", TokenType::RightParen),
        ("{", TokenType::LeftBrace),
        ("}", TokenType::RightBrace),
        (",", TokenType::Comma),
        (".", TokenType::Dot),
        ("-", TokenType::Minus),
        ("+", TokenType::Plus),
        (";", TokenType::Semicolon),
        ("*", TokenType::Star),
    ];
    for (text, kind) in cases {
        let s = scan(text);
        assert_eq!(s.tokens.len(), 2, "scanning {:?}", text);
        assert_eq!(s.tokens[0].token_type, kind);
        assert_eq!(s.tokens[0].lexeme, text);
        assert_eq!(s.tokens[0].literal, None);
        assert_eq!(s.tokens[1].token_type, TokenType::Eof);
        assert!(s.errors.is_empty());
    }
}

#[test]
fn bang_equal_scans_as_one_token() {
    let s = scan("!=");
    assert_eq!(kinds(&s.tokens), vec![TokenType::BangEqual, TokenType::Eof]);
    assert_eq!(s.tokens[0].lexeme, "!=");
}

#[test]
fn one_and_two_character_operators() {
    let s = scan("! = == < <= > >= /");
    assert_eq!(
        kinds(&s.tokens),
        vec![
            TokenType::Bang,
            TokenType::Equal,
            TokenType::EqualEqual,
            TokenType::Less,
            TokenType::LessEqual,
            TokenType::Greater,
            TokenType::GreaterEqual,
            TokenType::Slash,
            TokenType::Eof,
        ]
    );
}

#[test]
fn comment_is_discarded_and_newline_counts_once() {
    let s = scan("// comment\n123");
    assert_eq!(s.tokens.len(), 2);
    assert_eq!(s.tokens[0].token_type, TokenType::Number);
    assert_eq!(s.tokens[0].lexeme, "123");
    assert_eq!(
        s.tokens[0].literal,
        Some(Literal::Num(String::from("123")))
    );
    assert_eq!(s.tokens[0].line, 2);
    assert_eq!(s.tokens[1].token_type, TokenType::Eof);
    assert!(s.errors.is_empty());
}

#[test]
fn comment_without_newline_runs_to_end() {
    let s = scan("1 // trailing words");
    assert_eq!(kinds(&s.tokens), vec![TokenType::Number, TokenType::Eof]);
}

#[test]
fn string_literal_excludes_quotes() {
    let s = scan("\"abc\"");
    assert_eq!(s.tokens.len(), 2);
    assert_eq!(s.tokens[0].token_type, TokenType::String);
    assert_eq!(s.tokens[0].lexeme, "\"abc\"");
    assert_eq!(
        s.tokens[0].literal,
        Some(Literal::Str(String::from("abc")))
    );
    assert!(s.errors.is_empty());
}

#[test]
fn string_literal_counts_embedded_newlines() {
    let s = scan("\"a\nb\"\nx");
    assert_eq!(s.tokens[0].token_type, TokenType::String);
    assert_eq!(s.tokens[0].literal, Some(Literal::Str(String::from("a\nb"))));
    assert_eq!(s.tokens[0].line, 2);
    assert_eq!(s.tokens[1].token_type, TokenType::Identifier);
    assert_eq!(s.tokens[1].line, 3);
}

#[test]
fn unterminated_string_reports_error_at_start_line() {
    let s = scan("1\n\"never closed\nmore");
    assert_eq!(s.errors, vec![LexError::UnterminatedString { line: 2 }]);
    assert_eq!(kinds(&s.tokens), vec![TokenType::Number, TokenType::Eof]);
}

#[test]
fn number_with_fraction() {
    let s = scan("3.14");
    assert_eq!(s.tokens[0].token_type, TokenType::Number);
    assert_eq!(s.tokens[0].lexeme, "3.14");
    assert_eq!(
        s.tokens[0].literal,
        Some(Literal::Num(String::from("3.14")))
    );
}

#[test]
fn number_takes_at_most_one_fraction() {
    let s = scan("123.456.789");
    assert_eq!(
        kinds(&s.tokens),
        vec![
            TokenType::Number,
            TokenType::Dot,
            TokenType::Number,
            TokenType::Eof,
        ]
    );
    assert_eq!(s.tokens[0].lexeme, "123.456");
    assert_eq!(s.tokens[2].lexeme, "789");
}

#[test]
fn trailing_dot_is_not_part_of_number() {
    let s = scan("7.");
    assert_eq!(
        kinds(&s.tokens),
        vec![TokenType::Number, TokenType::Dot, TokenType::Eof]
    );
    assert_eq!(s.tokens[0].lexeme, "7");
}

#[test]
fn keywords_are_classified() {
    let s = scan("and class else false fun for if nil or print return super this true var while");
    assert_eq!(
        kinds(&s.tokens),
        vec![
            TokenType::And,
            TokenType::Class,
            TokenType::Else,
            TokenType::False,
            TokenType::Fun,
            TokenType::For,
            TokenType::If,
            TokenType::Nil,
            TokenType::Or,
            TokenType::Print,
            TokenType::Return,
            TokenType::Super,
            TokenType::This,
            TokenType::True,
            TokenType::Var,
            TokenType::While,
            TokenType::Eof,
        ]
    );
}

#[test]
fn identifier_is_maximal_munch() {
    let s = scan("varx _private x1");
    assert_eq!(
        kinds(&s.tokens),
        vec![
            TokenType::Identifier,
            TokenType::Identifier,
            TokenType::Identifier,
            TokenType::Eof,
        ]
    );
    assert_eq!(s.tokens[0].lexeme, "varx");
    assert_eq!(s.tokens[1].lexeme, "_private");
    assert_eq!(s.tokens[2].lexeme, "x1");
}

#[test]
fn unexpected_character_is_recorded_and_scanning_resumes() {
    let s = scan("@1");
    assert_eq!(s.errors, vec![LexError::UnexpectedCharacter { line: 1 }]);
    assert_eq!(kinds(&s.tokens), vec![TokenType::Number, TokenType::Eof]);
}

#[test]
fn several_independent_errors_in_one_pass() {
    let s = scan("@\n#");
    assert_eq!(
        s.errors,
        vec![
            LexError::UnexpectedCharacter { line: 1 },
            LexError::UnexpectedCharacter { line: 2 },
        ]
    );
}

#[test]
fn whitespace_is_discarded_and_newline_increments_line() {
    let s = scan(" \t\r\n+");
    assert_eq!(kinds(&s.tokens), vec![TokenType::Plus, TokenType::Eof]);
    assert_eq!(s.tokens[0].line, 2);
}

#[test]
fn empty_source_yields_only_eof_on_line_one() {
    let s = scan("");
    assert_eq!(s.tokens.len(), 1);
    assert_eq!(s.tokens[0].token_type, TokenType::Eof);
    assert_eq!(s.tokens[0].lexeme, "");
    assert_eq!(s.tokens[0].line, 1);
    assert!(s.errors.is_empty());
}

#[test]
fn token_to_string_describes_the_token() {
    let s = scan("12");
    assert_eq!(s.tokens[0].to_string(), "tok: Number lex: 12 line: 1");
    assert_eq!(s.tokens[1].to_string(), "tok: Eof lex:  line: 1");
}
