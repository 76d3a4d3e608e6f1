use lox_front::token::{Literal, TokenType};
use lox_front::{convert_bytes_to_string, error};

#[test]
fn error_formats_line_and_message() {
    assert_eq!(error(3, "Unexpected character."), "[line 3] Error: Unexpected character.");
    assert_eq!(error(0, "x"), "[line 0] Error: x");
    assert_eq!(error(1234567890, "big"), "[line 1234567890] Error: big");
}

#[test]
fn convert_bytes_decodes_valid_utf8() {
    let bytes: Vec<u8> = vec![104, 105, 32, 226, 156, 147];
    assert_eq!(convert_bytes_to_string(&bytes), Some("hi \u{2713}"));
}

#[test]
fn convert_bytes_rejects_invalid_utf8() {
    let bytes: Vec<u8> = vec![104, 0xFF, 105];
    assert_eq!(convert_bytes_to_string(&bytes), None);
}

#[test]
fn token_type_names() {
    assert_eq!(TokenType::LeftParen.name(), "LeftParen");
    assert_eq!(TokenType::BangEqual.name(), "BangEqual");
    assert_eq!(TokenType::Identifier.name(), "Identifier");
    assert_eq!(TokenType::Eof.name(), "Eof");
}

#[test]
fn literal_text_forms() {
    assert_eq!(Literal::Str(String::from("abc")).text(), "abc");
    assert_eq!(Literal::Num(String::from("1.5")).text(), "1.5");
    assert_eq!(Literal::True.text(), "true");
    assert_eq!(Literal::False.text(), "false");
    assert_eq!(Literal::Nil.text(), "nil");
}
