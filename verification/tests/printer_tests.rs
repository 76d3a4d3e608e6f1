use lox_front::expr::{BinaryOperator, BinaryOperatorEnum, Expr, UnaryOperator, UnaryOperatorEnum};
use lox_front::token::Literal;

fn one_plus_two() -> Expr {
    Expr::Binary(
        Box::new(Expr::Literal(Literal::Num(String::from("1")))),
        BinaryOperator {
            token_type: BinaryOperatorEnum::Plus,
            lexeme: String::from("+"),
            line: 1,
        },
        Box::new(Expr::Literal(Literal::Num(String::from("2")))),
    )
}

#[test]
fn rendering_the_same_tree_twice_is_identical() {
    let first = Expr::visit(one_plus_two());
    let second = Expr::visit(one_plus_two());
    assert_eq!(first, second);
}

#[test]
fn binary_render_lists_operands_around_the_operator() {
    let rendered = Expr::visit(one_plus_two());
    let one = rendered.find('1').unwrap();
    let plus = rendered.find('+').unwrap();
    let two = rendered.find('2').unwrap();
    assert!(one < plus && plus < two);
    assert_eq!(rendered, "(Binary Operation 1 + 2)");
}

#[test]
fn literal_leaves_render_as_their_text() {
    assert_eq!(Expr::visit(Expr::Literal(Literal::True)), "true");
    assert_eq!(Expr::visit(Expr::Literal(Literal::False)), "false");
    assert_eq!(Expr::visit(Expr::Literal(Literal::Nil)), "nil");
    assert_eq!(
        Expr::visit(Expr::Literal(Literal::Str(String::from("raw text")))),
        "raw text"
    );
    assert_eq!(
        Expr::visit(Expr::Literal(Literal::Num(String::from("45.67")))),
        "45.67"
    );
}

#[test]
fn unary_and_grouping_render_in_canonical_form() {
    let tree = Expr::Unary(
        UnaryOperator {
            token_type: UnaryOperatorEnum::Minus,
            lexeme: String::from("-"),
            line: 1,
        },
        Box::new(Expr::Grouping(Box::new(Expr::Literal(Literal::Num(
            String::from("7"),
        ))))),
    );
    assert_eq!(
        Expr::visit(tree),
        "(Unary Operation - (Grouping Operation 7))"
    );
}

#[test]
fn operator_symbols() {
    assert_eq!(BinaryOperatorEnum::EqualEqual.symbol(), "==");
    assert_eq!(BinaryOperatorEnum::NotEqual.symbol(), "!=");
    assert_eq!(BinaryOperatorEnum::Less.symbol(), "<");
    assert_eq!(BinaryOperatorEnum::LessEqual.symbol(), "<=");
    assert_eq!(BinaryOperatorEnum::Greater.symbol(), ">");
    assert_eq!(BinaryOperatorEnum::GreaterEqual.symbol(), ">=");
    assert_eq!(BinaryOperatorEnum::Plus.symbol(), "+");
    assert_eq!(BinaryOperatorEnum::Minus.symbol(), "-");
    assert_eq!(BinaryOperatorEnum::Star.symbol(), "*");
    assert_eq!(BinaryOperatorEnum::Slash.symbol(), "/");
    assert_eq!(UnaryOperatorEnum::Minus.symbol(), "-");
    assert_eq!(UnaryOperatorEnum::Bang.symbol(), "!");
}

#[test]
fn scanned_and_parsed_tree_renders_back_readably() {
    let mut s = lox_front::scanner::Scanner::default();
    s.scan_tokens(String::from("-123 * (45.67)"));
    let mut p = lox_front::parser::Parser { start: 0, current: 0, tokens: s.tokens };
    let tree = p.parse().unwrap();
    assert_eq!(
        Expr::visit(tree),
        "(Binary Operation (Unary Operation - 123) * (Grouping Operation 45.67))"
    );
}
