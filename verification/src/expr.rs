//! Expression tree: the closed set of node variants, the operator metadata
//! each node carries, and the debug printer that renders a tree as a
//! canonical parenthesized string.

use vstd::prelude::*;
use vstd::string::StringExecFns;

verus! {

use crate::token::Literal;
use crate::token::spec_literal_text;

/// The closed set of binary operators.
#[derive(Debug, Clone, Copy, PartialEq, Eq, Structural)]
pub enum BinaryOperatorEnum {
    EqualEqual,
    NotEqual,
    Less,
    LessEqual,
    Greater,
    GreaterEqual,
    Plus,
    Minus,
    Star,
    Slash,
}

/// The source symbol of a binary operator.
pub open spec fn spec_binary_symbol(op: BinaryOperatorEnum) -> Seq<char> {
    match op {
        BinaryOperatorEnum::EqualEqual => "=="@,
        BinaryOperatorEnum::NotEqual => "!="@,
        BinaryOperatorEnum::Less => "<"@,
        BinaryOperatorEnum::LessEqual => "<="@,
        BinaryOperatorEnum::Greater => ">"@,
        BinaryOperatorEnum::GreaterEqual => ">="@,
        BinaryOperatorEnum::Plus => "+"@,
        BinaryOperatorEnum::Minus => "-"@,
        BinaryOperatorEnum::Star => "*"@,
        BinaryOperatorEnum::Slash => "/"@,
    }
}

impl BinaryOperatorEnum {
    /// The source symbol of this operator.
    pub fn symbol(&self) -> (r: &'static str)
        ensures
            r@ == spec_binary_symbol(*self),
    {
        match *self {
            BinaryOperatorEnum::EqualEqual => "==",
            BinaryOperatorEnum::NotEqual => "!=",
            BinaryOperatorEnum::Less => "<",
            BinaryOperatorEnum::LessEqual => "<=",
            BinaryOperatorEnum::Greater => ">",
            BinaryOperatorEnum::GreaterEqual => ">=",
            BinaryOperatorEnum::Plus => "+",
            BinaryOperatorEnum::Minus => "-",
            BinaryOperatorEnum::Star => "*",
            BinaryOperatorEnum::Slash => "/",
        }
    }
}

/// The closed set of unary operators: arithmetic negation and logical not.
#[derive(Debug, Clone, Copy, PartialEq, Eq, Structural)]
pub enum UnaryOperatorEnum {
    Minus,
    Bang,
}

/// The source symbol of a unary operator.
pub open spec fn spec_unary_symbol(op: UnaryOperatorEnum) -> Seq<char> {
    match op {
        UnaryOperatorEnum::Minus => "-"@,
        UnaryOperatorEnum::Bang => "!"@,
    }
}

impl UnaryOperatorEnum {
    /// The source symbol of this operator.
    pub fn symbol(&self) -> (r: &'static str)
        ensures
            r@ == spec_unary_symbol(*self),
    {
        match *self {
            UnaryOperatorEnum::Minus => "-",
            UnaryOperatorEnum::Bang => "!",
        }
    }
}

/// A binary operator instance: the operator together with the lexeme and
/// source line of the token it was parsed from, kept for diagnostics.
#[derive(Debug, PartialEq)]
pub struct BinaryOperator {
    pub token_type: BinaryOperatorEnum,
    pub lexeme: String,
    pub line: usize,
}

impl Clone for BinaryOperator {
    fn clone(&self) -> (res: Self)
        ensures
            res == *self,
    {
        BinaryOperator { token_type: self.token_type, lexeme: self.lexeme.clone(), line: self.line }
    }
}

/// A unary operator instance with its originating lexeme and source line.
#[derive(Debug, PartialEq)]
pub struct UnaryOperator {
    pub token_type: UnaryOperatorEnum,
    pub lexeme: String,
    pub line: usize,
}

impl Clone for UnaryOperator {
    fn clone(&self) -> (res: Self)
        ensures
            res == *self,
    {
        UnaryOperator { token_type: self.token_type, lexeme: self.lexeme.clone(), line: self.line }
    }
}

/// An expression tree node. A tree is finite, immutable once built, and
/// strictly owned by its parent node.
#[derive(Debug, PartialEq)]
pub enum Expr {
    Literal(Literal),
    Grouping(Box<Expr>),
    Unary(UnaryOperator, Box<Expr>),
    Binary(Box<Expr>, BinaryOperator, Box<Expr>),
}

/// The canonical parenthesized rendering of an expression tree: a function
/// of the tree's structure alone, so identical trees always render
/// identically.
pub open spec fn spec_render(e: Expr) -> Seq<char>
    decreases e,
{
    match e {
        Expr::Literal(l) => spec_literal_text(l),
        Expr::Grouping(inner) => "(Grouping Operation "@ + spec_render(*inner) + ")"@,
        Expr::Unary(op, operand) => "(Unary Operation "@ + op.lexeme@ + " "@ + spec_render(
            *operand,
        ) + ")"@,
        Expr::Binary(left, op, right) => "(Binary Operation "@ + spec_render(*left) + " "@
            + op.lexeme@ + " "@ + spec_render(*right) + ")"@,
    }
}

/// Rendering is deterministic and pure: the canonical string is a function
/// of the tree's structure alone, so rendering equal trees — or the same
/// tree twice — always yields identical strings.
pub proof fn lemma_render_deterministic(a: Expr, b: Expr)
    requires
        a == b,
    ensures
        spec_render(a) == spec_render(b),
{
}

impl Expr {
    /// Renders an expression tree as its canonical parenthesized debug
    /// string: a pure function of the tree, with no other effect.
    pub fn visit(expr: Expr) -> (r: String)
        ensures
            r@ == spec_render(expr),
        decreases expr,
    {
        match expr {
            Expr::Literal(l) => l.text(),
            Expr::Grouping(inner) => {
                let mut s = String::from_str("(Grouping Operation ");
                let body = Expr::visit(*inner);
                s.append(body.as_str());
                s.append(")");
                s
            },
            Expr::Unary(op, operand) => {
                let mut s = String::from_str("(Unary Operation ");
                s.append(op.lexeme.as_str());
                s.append(" ");
                let body = Expr::visit(*operand);
                s.append(body.as_str());
                s.append(")");
                s
            },
            Expr::Binary(left, op, right) => {
                let mut s = String::from_str("(Binary Operation ");
                let l = Expr::visit(*left);
                s.append(l.as_str());
                s.append(" ");
                s.append(op.lexeme.as_str());
                s.append(" ");
                let r = Expr::visit(*right);
                s.append(r.as_str());
                s.append(")");
                s
            },
        }
    }
}

} // verus!
