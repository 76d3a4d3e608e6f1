//! Token model: token kinds, literal values, and the `Token` record that the
//! scanner produces and the parser consumes.

use vstd::prelude::*;
use vstd::string::StrSliceExecFns;
use vstd::string::StringExecFns;

verus! {

/// The closed set of token kinds: single-character punctuation, one- and
/// two-character operators, literal kinds, keywords, and the end-of-input
/// sentinel.
#[derive(Debug, Clone, Copy, PartialEq, Eq, Structural)]
pub enum TokenType {
    LeftParen,
    RightParen,
    LeftBrace,
    RightBrace,
    Comma,
    Dot,
    Minus,
    Plus,
    Semicolon,
    Slash,
    Star,
    Bang,
    BangEqual,
    Equal,
    EqualEqual,
    Greater,
    GreaterEqual,
    Less,
    LessEqual,
    Identifier,
    String,
    Number,
    And,
    Class,
    Else,
    False,
    Fun,
    For,
    If,
    Nil,
    Or,
    Print,
    Return,
    Super,
    This,
    True,
    Var,
    While,
    Eof,
}

/// The display name of a token kind, as used by `Token::to_string`.
pub open spec fn spec_type_name(t: TokenType) -> Seq<char> {
    match t {
        TokenType::LeftParen => "LeftParen"@,
        TokenType::RightParen => "RightParen"@,
        TokenType::LeftBrace => "LeftBrace"@,
        TokenType::RightBrace => "RightBrace"@,
        TokenType::Comma => "Comma"@,
        TokenType::Dot => "Dot"@,
        TokenType::Minus => "Minus"@,
        TokenType::Plus => "Plus"@,
        TokenType::Semicolon => "Semicolon"@,
        TokenType::Slash => "Slash"@,
        TokenType::Star => "Star"@,
        TokenType::Bang => "Bang"@,
        TokenType::BangEqual => "BangEqual"@,
        TokenType::Equal => "Equal"@,
        TokenType::EqualEqual => "EqualEqual"@,
        TokenType::Greater => "Greater"@,
        TokenType::GreaterEqual => "GreaterEqual"@,
        TokenType::Less => "Less"@,
        TokenType::LessEqual => "LessEqual"@,
        TokenType::Identifier => "Identifier"@,
        TokenType::String => "String"@,
        TokenType::Number => "Number"@,
        TokenType::And => "And"@,
        TokenType::Class => "Class"@,
        TokenType::Else => "Else"@,
        TokenType::False => "False"@,
        TokenType::Fun => "Fun"@,
        TokenType::For => "For"@,
        TokenType::If => "If"@,
        TokenType::Nil => "Nil"@,
        TokenType::Or => "Or"@,
        TokenType::Print => "Print"@,
        TokenType::Return => "Return"@,
        TokenType::Super => "Super"@,
        TokenType::This => "This"@,
        TokenType::True => "True"@,
        TokenType::Var => "Var"@,
        TokenType::While => "While"@,
        TokenType::Eof => "Eof"@,
    }
}

impl TokenType {
    /// The display name of this token kind.
    pub fn name(&self) -> (r: &'static str)
        ensures
            r@ == spec_type_name(*self),
    {
        match *self {
            TokenType::LeftParen => "LeftParen",
            TokenType::RightParen => "RightParen",
            TokenType::LeftBrace => "LeftBrace",
            TokenType::RightBrace => "RightBrace",
            TokenType::Comma => "Comma",
            TokenType::Dot => "Dot",
            TokenType::Minus => "Minus",
            TokenType::Plus => "Plus",
            TokenType::Semicolon => "Semicolon",
            TokenType::Slash => "Slash",
            TokenType::Star => "Star",
            TokenType::Bang => "Bang",
            TokenType::BangEqual => "BangEqual",
            TokenType::Equal => "Equal",
            TokenType::EqualEqual => "EqualEqual",
            TokenType::Greater => "Greater",
            TokenType::GreaterEqual => "GreaterEqual",
            TokenType::Less => "Less",
            TokenType::LessEqual => "LessEqual",
            TokenType::Identifier => "Identifier",
            TokenType::String => "String",
            TokenType::Number => "Number",
            TokenType::And => "And",
            TokenType::Class => "Class",
            TokenType::Else => "Else",
            TokenType::False => "False",
            TokenType::Fun => "Fun",
            TokenType::For => "For",
            TokenType::If => "If",
            TokenType::Nil => "Nil",
            TokenType::Or => "Or",
            TokenType::Print => "Print",
            TokenType::Return => "Return",
            TokenType::Super => "Super",
            TokenType::This => "This",
            TokenType::True => "True",
            TokenType::Var => "Var",
            TokenType::While => "While",
            TokenType::Eof => "Eof",
        }
    }
}

/// A literal value carried on a `STRING` or `NUMBER` token, or materialized
/// from a keyword by the parser. A number keeps its exact numeric text; a
/// consumer that wants a machine number converts the text outside the core.
#[derive(Debug, PartialEq)]
pub enum Literal {
    Str(String),
    Num(String),
    False,
    True,
    Nil,
}

/// The mathematical model of a `Literal`: texts become character sequences.
pub enum LiteralV {
    Str(Seq<char>),
    Num(Seq<char>),
    False,
    True,
    Nil,
}

/// The view of an optional literal.
pub open spec fn opt_view(o: Option<Literal>) -> Option<LiteralV> {
    match o {
        Some(l) => Some(l@),
        None => None,
    }
}

impl View for Literal {
    type V = LiteralV;

    open spec fn view(&self) -> LiteralV {
        match self {
            Literal::Str(s) => LiteralV::Str(s@),
            Literal::Num(s) => LiteralV::Num(s@),
            Literal::False => LiteralV::False,
            Literal::True => LiteralV::True,
            Literal::Nil => LiteralV::Nil,
        }
    }
}

impl Clone for Literal {
    fn clone(&self) -> (res: Self)
        ensures
            res == *self,
    {
        match self {
            Literal::Str(s) => Literal::Str(s.clone()),
            Literal::Num(s) => Literal::Num(s.clone()),
            Literal::False => Literal::False,
            Literal::True => Literal::True,
            Literal::Nil => Literal::Nil,
        }
    }
}

/// The textual form of a literal: a string's raw text, a number's numeric
/// text, and the keyword text of the boolean and nil literals.
pub open spec fn spec_literal_text(l: Literal) -> Seq<char> {
    match l {
        Literal::Str(s) => s@,
        Literal::Num(s) => s@,
        Literal::True => "true"@,
        Literal::False => "false"@,
        Literal::Nil => "nil"@,
    }
}

impl Literal {
    /// The textual form of this literal.
    pub fn text(&self) -> (r: String)
        ensures
            r@ == spec_literal_text(*self),
    {
        match self {
            Literal::Str(s) => s.clone(),
            Literal::Num(s) => s.clone(),
            Literal::True => String::from_str("true"),
            Literal::False => String::from_str("false"),
            Literal::Nil => String::from_str("nil"),
        }
    }
}

/// A classified lexeme: its kind, the exact source text it was scanned from,
/// an optional literal value, and the source line it ends on.
#[derive(Debug, PartialEq)]
pub struct Token {
    pub token_type: TokenType,
    pub lexeme: String,
    pub literal: Option<Literal>,
    pub line: usize,
}

/// The mathematical model of a `Token`.
pub struct TokenV {
    pub token_type: TokenType,
    pub lexeme: Seq<char>,
    pub literal: Option<LiteralV>,
    pub line: nat,
}

impl View for Token {
    type V = TokenV;

    open spec fn view(&self) -> TokenV {
        TokenV {
            token_type: self.token_type,
            lexeme: self.lexeme@,
            literal: match &self.literal {
                Some(l) => Some(l@),
                None => None,
            },
            line: self.line as nat,
        }
    }
}

impl Clone for Token {
    fn clone(&self) -> (res: Self)
        ensures
            res == *self,
    {
        Token {
            token_type: self.token_type,
            lexeme: self.lexeme.clone(),
            literal: match &self.literal {
                Some(l) => Some(l.clone()),
                None => None,
            },
            line: self.line,
        }
    }
}

/// One decimal digit as a character.
pub open spec fn spec_digit_char(d: nat) -> char {
    if d == 0 {
        '0'
    } else if d == 1 {
        '1'
    } else if d == 2 {
        '2'
    } else if d == 3 {
        '3'
    } else if d == 4 {
        '4'
    } else if d == 5 {
        '5'
    } else if d == 6 {
        '6'
    } else if d == 7 {
        '7'
    } else if d == 8 {
        '8'
    } else {
        '9'
    }
}

/// The decimal numeral of `n`, most significant digit first.
pub open spec fn spec_decimal(n: nat) -> Seq<char>
    decreases n,
{
    if n < 10 {
        seq![spec_digit_char(n)]
    } else {
        spec_decimal(n / 10).push(spec_digit_char(n % 10))
    }
}

/// Appends the decimal numeral of `n` to `out`.
pub fn push_decimal(out: &mut String, n: usize)
    ensures
        final(out)@ == old(out)@ + spec_decimal(n as nat),
    decreases n,
{
    if n >= 10 {
        push_decimal(out, n / 10);
    }
    let d: usize = n % 10;
    let digits: &str = "0123456789";
    proof {
        reveal_strlit("0123456789");
    }
    let ds: &str = digits.substring_char(d, d + 1);
    proof {
        assert(ds@ =~= seq![spec_digit_char(n as nat % 10)]);
    }
    out.append(ds);
    proof {
        assert(out@ =~= old(out)@ + spec_decimal(n as nat));
    }
}

/// The descriptive line that `Token::to_string` yields.
pub open spec fn spec_token_string(t: Token) -> Seq<char> {
    "tok: "@ + spec_type_name(t.token_type) + " lex: "@ + t.lexeme@ + " line: "@ + spec_decimal(
        t.line as nat,
    )
}

impl Token {
    /// A one-line description of this token: its kind, lexeme and line.
    pub fn to_string(&self) -> (r: String)
        ensures
            r@ == spec_token_string(*self),
    {
        let mut s = String::from_str("tok: ");
        s.append(self.token_type.name());
        s.append(" lex: ");
        s.append(self.lexeme.as_str());
        s.append(" line: ");
        push_decimal(&mut s, self.line);
        s
    }
}

} // verus!
