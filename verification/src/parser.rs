//! Parser: recursive descent over the scanner's token sequence, with one
//! grammar procedure per precedence level (equality, comparison, term,
//! factor, unary, primary). Each binary level is left-associative; a parse
//! error is reported as a value carrying the offending token's line and
//! lexeme, absent exactly when the error occurred at the end of input.

use vstd::prelude::*;
use vstd::string::StringExecFns;

verus! {

use crate::expr::BinaryOperator;
use crate::expr::BinaryOperatorEnum;
use crate::expr::Expr;
use crate::expr::UnaryOperator;
use crate::expr::UnaryOperatorEnum;
use crate::scanner::wf_tokens;
use crate::token::Literal;
use crate::token::Token;
use crate::token::TokenType;

/// What a parse error expected and did not find: an expression, or one
/// specific token kind (a missing `)` for instance).
#[derive(Debug, Clone, Copy, PartialEq, Eq, Structural)]
pub enum ParseErrorKind {
    ExpectedExpression,
    ExpectedToken(TokenType),
}

/// A parse error: what was expected, where it happened, and a message.
/// `line` and `lexeme` are absent exactly when the error occurred at the
/// end of input.
#[derive(Debug, PartialEq)]
pub struct ParserError {
    pub kind: ParseErrorKind,
    pub line: Option<usize>,
    pub lexeme: Option<String>,
    pub message: String,
}

/// The mathematical model of a `ParserError`.
pub struct ParserErrorV {
    pub kind: ParseErrorKind,
    pub line: Option<int>,
    pub lexeme: Option<Seq<char>>,
    pub message: Seq<char>,
}

impl View for ParserError {
    type V = ParserErrorV;

    open spec fn view(&self) -> ParserErrorV {
        ParserErrorV {
            kind: self.kind,
            line: match self.line {
                Some(l) => Some(l as int),
                None => None,
            },
            lexeme: match &self.lexeme {
                Some(s) => Some(s@),
                None => None,
            },
            message: self.message@,
        }
    }
}

/// The error reported at a token: its line and lexeme, or neither when the
/// token is the `EOF` sentinel.
pub open spec fn spec_error_at(t: Token, kind: ParseErrorKind, msg: Seq<char>) -> ParserErrorV {
    if t.token_type == TokenType::Eof {
        ParserErrorV { kind, line: None, lexeme: None, message: msg }
    } else {
        ParserErrorV { kind, line: Some(t.line as int), lexeme: Some(t.lexeme@), message: msg }
    }
}

/// The operators of the equality level.
pub open spec fn is_equality_op(t: TokenType) -> bool {
    t == TokenType::BangEqual || t == TokenType::EqualEqual
}

/// The operators of the comparison level.
pub open spec fn is_comparison_op(t: TokenType) -> bool {
    ||| t == TokenType::Greater
    ||| t == TokenType::GreaterEqual
    ||| t == TokenType::Less
    ||| t == TokenType::LessEqual
}

/// The operators of the term level.
pub open spec fn is_term_op(t: TokenType) -> bool {
    t == TokenType::Minus || t == TokenType::Plus
}

/// The operators of the factor level.
pub open spec fn is_factor_op(t: TokenType) -> bool {
    t == TokenType::Slash || t == TokenType::Star
}

/// The unary operators.
pub open spec fn is_unary_op(t: TokenType) -> bool {
    t == TokenType::Bang || t == TokenType::Minus
}

/// The binary operator a token kind stands for.
pub open spec fn spec_binary_op_kind(t: TokenType) -> BinaryOperatorEnum {
    match t {
        TokenType::EqualEqual => BinaryOperatorEnum::EqualEqual,
        TokenType::BangEqual => BinaryOperatorEnum::NotEqual,
        TokenType::Less => BinaryOperatorEnum::Less,
        TokenType::LessEqual => BinaryOperatorEnum::LessEqual,
        TokenType::Greater => BinaryOperatorEnum::Greater,
        TokenType::GreaterEqual => BinaryOperatorEnum::GreaterEqual,
        TokenType::Plus => BinaryOperatorEnum::Plus,
        TokenType::Minus => BinaryOperatorEnum::Minus,
        TokenType::Star => BinaryOperatorEnum::Star,
        TokenType::Slash => BinaryOperatorEnum::Slash,
        _ => BinaryOperatorEnum::EqualEqual,
    }
}

/// The binary operator instance built from an operator token.
pub open spec fn spec_binary_op(t: Token) -> BinaryOperator {
    BinaryOperator {
        token_type: spec_binary_op_kind(t.token_type),
        lexeme: t.lexeme,
        line: t.line,
    }
}

/// The unary operator instance built from an operator token.
pub open spec fn spec_unary_op(t: Token) -> UnaryOperator {
    UnaryOperator {
        token_type: if t.token_type == TokenType::Bang {
            UnaryOperatorEnum::Bang
        } else {
            UnaryOperatorEnum::Minus
        },
        lexeme: t.lexeme,
        line: t.line,
    }
}

/// One grammar procedure's outcome: the expression or error it yields, and
/// the cursor position it leaves the parser at.
pub struct PStep {
    pub res: Result<Expr, ParserErrorV>,
    pub next: int,
}

/// `j` forced into `[lo, hi]`. The grammar procedures never leave this range
/// in fact; the clamp only makes the recursion's termination evident.
pub open spec fn clamp_pos(j: int, lo: int, hi: int) -> int {
    if j < lo {
        lo
    } else if j > hi {
        hi
    } else {
        j
    }
}

/// The operators of binary precedence level `level`: 0 is factor, 1 term,
/// 2 comparison, 3 equality — tighter levels have smaller numbers.
pub open spec fn level_op(level: nat, t: TokenType) -> bool {
    if level == 0 {
        is_factor_op(t)
    } else if level == 1 {
        is_term_op(t)
    } else if level == 2 {
        is_comparison_op(t)
    } else {
        is_equality_op(t)
    }
}

/// The primary rule: a literal leaf, or a parenthesized expression that
/// requires its closing `)`. Anything else is an expected-expression error,
/// with no position exactly when the parser is at the `EOF` sentinel.
pub open spec fn spec_primary(ts: Seq<Token>, i: int) -> PStep
    decreases ts.len() - i, 0int,
{
    if !(0 <= i < ts.len()) {
        PStep {
            res: Err(
                ParserErrorV {
                    kind: ParseErrorKind::ExpectedExpression,
                    line: None,
                    lexeme: None,
                    message: "Expected expression."@,
                },
            ),
            next: i,
        }
    } else {
        let t = ts[i];
        if t.token_type == TokenType::False {
            PStep { res: Ok(Expr::Literal(Literal::False)), next: i + 1 }
        } else if t.token_type == TokenType::True {
            PStep { res: Ok(Expr::Literal(Literal::True)), next: i + 1 }
        } else if t.token_type == TokenType::Nil {
            PStep { res: Ok(Expr::Literal(Literal::Nil)), next: i + 1 }
        } else if t.token_type == TokenType::Number || t.token_type == TokenType::String {
            PStep { res: Ok(Expr::Literal(t.literal->0)), next: i + 1 }
        } else if t.token_type == TokenType::LeftParen {
            let inner = spec_expression(ts, i + 1);
            match inner.res {
                Err(e) => PStep { res: Err(e), next: inner.next },
                Ok(body) => {
                    let j = clamp_pos(inner.next, i + 1, ts.len() as int);
                    if j < ts.len() && ts[j].token_type == TokenType::RightParen {
                        PStep { res: Ok(Expr::Grouping(Box::new(body))), next: j + 1 }
                    } else {
                        PStep {
                            res: Err(
                                spec_error_at(
                                    ts[j],
                                    ParseErrorKind::ExpectedToken(TokenType::RightParen),
                                    "Expect ')' after expression."@,
                                ),
                            ),
                            next: j,
                        }
                    }
                },
            }
        } else {
            PStep {
                res: Err(
                    spec_error_at(t, ParseErrorKind::ExpectedExpression, "Expected expression."@),
                ),
                next: i,
            }
        }
    }
}

/// The unary rule: `!` or `-` applied to a unary expression, right
/// associative by direct recursion, else the primary rule.
pub open spec fn spec_unary(ts: Seq<Token>, i: int) -> PStep
    decreases ts.len() - i, 1int,
{
    if 0 <= i < ts.len() && is_unary_op(ts[i].token_type) {
        let op = spec_unary_op(ts[i]);
        let operand = spec_unary(ts, i + 1);
        match operand.res {
            Err(e) => PStep { res: Err(e), next: operand.next },
            Ok(body) => PStep { res: Ok(Expr::Unary(op, Box::new(body))), next: operand.next },
        }
    } else {
        spec_primary(ts, i)
    }
}

/// One binary precedence level: parse one operand at the next tighter
/// level, then fold further `(operator, operand)` pairs to the left.
pub open spec fn spec_binary_level(ts: Seq<Token>, i: int, level: nat) -> PStep
    decreases ts.len() - i, 2 * level + 3,
{
    if 0 <= i <= ts.len() {
        let first = if level == 0 {
            spec_unary(ts, i)
        } else {
            spec_binary_level(ts, i, (level - 1) as nat)
        };
        match first.res {
            Err(e) => PStep { res: Err(e), next: first.next },
            Ok(left) => spec_binary_tail(
                ts,
                clamp_pos(first.next, i, ts.len() as int),
                level,
                left,
            ),
        }
    } else {
        spec_unary(ts, i)
    }
}

/// The left fold of one binary level: while the current token is one of the
/// level's operators, consume it, parse the next operand, and extend the
/// tree to the left.
pub open spec fn spec_binary_tail(ts: Seq<Token>, i: int, level: nat, left: Expr) -> PStep
    decreases ts.len() - i, 2 * level + 2,
{
    if 0 <= i < ts.len() && level_op(level, ts[i].token_type) {
        let op = spec_binary_op(ts[i]);
        let rhs = if level == 0 {
            spec_unary(ts, i + 1)
        } else {
            spec_binary_level(ts, i + 1, (level - 1) as nat)
        };
        match rhs.res {
            Err(e) => PStep { res: Err(e), next: rhs.next },
            Ok(right) => spec_binary_tail(
                ts,
                clamp_pos(rhs.next, i + 1, ts.len() as int),
                level,
                Expr::Binary(Box::new(left), op, Box::new(right)),
            ),
        }
    } else {
        PStep { res: Ok(left), next: i }
    }
}

/// The expression rule: the lowest-precedence level, equality.
pub open spec fn spec_expression(ts: Seq<Token>, i: int) -> PStep
    decreases ts.len() - i, 10int,
{
    spec_binary_level(ts, i, 3)
}

/// The equality rule.
pub open spec fn spec_equality(ts: Seq<Token>, i: int) -> PStep {
    spec_binary_level(ts, i, 3)
}

/// The comparison rule.
pub open spec fn spec_comparison(ts: Seq<Token>, i: int) -> PStep {
    spec_binary_level(ts, i, 2)
}

/// The term rule.
pub open spec fn spec_term(ts: Seq<Token>, i: int) -> PStep {
    spec_binary_level(ts, i, 1)
}

/// The factor rule.
pub open spec fn spec_factor(ts: Seq<Token>, i: int) -> PStep {
    spec_binary_level(ts, i, 0)
}

/// A token kind that starts a new statement-level construct: synchronization
/// stops before such a token.
pub open spec fn is_sync_boundary(t: TokenType) -> bool {
    ||| t == TokenType::Class
    ||| t == TokenType::Fun
    ||| t == TokenType::Var
    ||| t == TokenType::For
    ||| t == TokenType::If
    ||| t == TokenType::While
    ||| t == TokenType::Print
    ||| t == TokenType::Return
}

/// Where synchronization, already past the token that caused the error,
/// comes to rest: after a `;`, before a statement keyword, or at the end.
pub open spec fn spec_synchronize(ts: Seq<Token>, i: int) -> int
    decreases ts.len() - i,
{
    if 0 <= i < ts.len() && ts[i].token_type != TokenType::Eof {
        if ts[i - 1].token_type == TokenType::Semicolon {
            i
        } else if is_sync_boundary(ts[i].token_type) {
            i
        } else {
            spec_synchronize(ts, i + 1)
        }
    } else {
        i
    }
}

/// Whether the token at `i` matches one of `kinds`; the `EOF` sentinel
/// never matches.
pub open spec fn spec_match(ts: Seq<Token>, i: int, kinds: Seq<TokenType>) -> bool {
    exists|k: int|
        0 <= k < kinds.len() && ts[i].token_type == #[trigger] kinds[k] && kinds[k]
            != TokenType::Eof
}

/// The parser: a cursor into an immutable token sequence; no other state.
pub struct Parser {
    pub start: usize,
    pub current: usize,
    pub tokens: Vec<Token>,
}

impl Parser {
    /// The parser's invariant: a well-formed token sequence and a cursor
    /// that never passes the `EOF` sentinel.
    pub open spec fn wf(&self) -> bool {
        &&& wf_tokens(self.tokens@)
        &&& self.current < self.tokens@.len()
    }

    /// The token just consumed.
    fn previous(&self) -> (t: Token)
        requires
            self.wf(),
            1 <= self.current,
        ensures
            t == self.tokens@[self.current - 1],
    {
        self.tokens[self.current - 1].clone()
    }

    /// The token under the cursor, not consumed.
    fn peek(&self) -> (t: Token)
        requires
            self.wf(),
        ensures
            t == self.tokens@[self.current as int],
    {
        self.tokens[self.current].clone()
    }

    /// Whether the cursor is at the `EOF` sentinel.
    fn is_at_end(&self) -> (r: bool)
        requires
            self.wf(),
        ensures
            r == (self.tokens@[self.current as int].token_type == TokenType::Eof),
    {
        let t = &self.tokens[self.current];
        t.token_type == TokenType::Eof
    }

    /// Whether the token under the cursor has the given kind; never true at
    /// the `EOF` sentinel.
    fn check(&self, toktype: TokenType) -> (r: bool)
        requires
            self.wf(),
        ensures
            r == (self.tokens@[self.current as int].token_type == toktype && toktype
                != TokenType::Eof),
    {
        if self.is_at_end() {
            return false;
        }
        let peek = self.peek().token_type;
        peek == toktype
    }

    /// Consumes the token under the cursor; the cursor never passes the
    /// `EOF` sentinel.
    fn advance(&mut self) -> (t: Token)
        requires
            old(self).wf(),
        ensures
            final(self).wf(),
            final(self).tokens == old(self).tokens,
            final(self).start == old(self).start,
            old(self).tokens@[old(self).current as int].token_type != TokenType::Eof ==> {
                &&& final(self).current == old(self).current + 1
                &&& t == old(self).tokens@[old(self).current as int]
            },
            old(self).tokens@[old(self).current as int].token_type == TokenType::Eof
                ==> final(self).current == old(self).current,
    {
        if !self.is_at_end() {
            let n = self.tokens.len();
            if self.current < n {
                self.current = self.current + 1;
            }
        }
        if self.current > 0 {
            self.tokens[self.current - 1].clone()
        } else {
            self.tokens[0].clone()
        }
    }

    /// If the token under the cursor matches one of `kinds`, consumes it.
    fn search(&mut self, kinds: &Vec<TokenType>) -> (r: bool)
        requires
            old(self).wf(),
        ensures
            final(self).wf(),
            final(self).tokens == old(self).tokens,
            final(self).start == old(self).start,
            r == spec_match(old(self).tokens@, old(self).current as int, kinds@),
            r ==> final(self).current == old(self).current + 1,
            !r ==> final(self).current == old(self).current,
    {
        let mut idx: usize = 0;
        while idx < kinds.len()
            invariant
                *self == *old(self),
                old(self).wf(),
                idx <= kinds@.len(),
                forall|k: int|
                    0 <= k < idx ==> !(old(self).tokens@[old(self).current as int].token_type
                        == #[trigger] kinds@[k] && kinds@[k] != TokenType::Eof),
            decreases kinds@.len() - idx,
        {
            if self.check(kinds[idx]) {
                self.advance();
                return true;
            }
            idx = idx + 1;
        }
        false
    }

    /// The parse error reported at a token: the token's line and lexeme, or
    /// neither when the parser is at the end of input.
    fn error(&self, tok: Token, kind: ParseErrorKind, err: String) -> (r: ParserError)
        ensures
            r@ == spec_error_at(tok, kind, err@),
    {
        if tok.token_type == TokenType::Eof {
            return ParserError { kind, line: None, lexeme: None, message: err };
        }
        ParserError { kind, line: Some(tok.line), lexeme: Some(tok.lexeme), message: err }
    }

    /// Parses one expression from the cursor onward: on success the
    /// expression tree the grammar assigns to the tokens, on failure the
    /// parse error the grammar reports, with the cursor left where the
    /// grammar says.
    pub fn parse(&mut self) -> (r: Result<Expr, ParserError>)
        requires
            old(self).wf(),
        ensures
            final(self).wf(),
            final(self).tokens == old(self).tokens,
            final(self).start == old(self).start,
            old(self).current <= final(self).current,
            ({
                let step = spec_expression(old(self).tokens@, old(self).current as int);
                &&& final(self).current as int == step.next
                &&& (match (r, step.res) {
                    (Ok(e), Ok(se)) => e == se,
                    (Err(e), Err(se)) => e@ == se,
                    _ => false,
                })
            }),
    {
        self.expression()
    }

    /// The expression rule: the grammar's entry point, equality.
    pub fn expression(&mut self) -> (r: Result<Expr, ParserError>)
        requires
            old(self).wf(),
        ensures
            final(self).wf(),
            final(self).tokens == old(self).tokens,
            final(self).start == old(self).start,
            old(self).current <= final(self).current,
            ({
                let step = spec_expression(old(self).tokens@, old(self).current as int);
                &&& final(self).current as int == step.next
                &&& (match (r, step.res) {
                    (Ok(e), Ok(se)) => e == se,
                    (Err(e), Err(se)) => e@ == se,
                    _ => false,
                })
            }),
        decreases self.tokens@.len() - self.current, 6int,
    {
        self.equality()
    }

    /// The equality rule: a comparison, then a left fold of `!=` and
    /// `==` operators over further comparisons.
    pub fn equality(&mut self) -> (r: Result<Expr, ParserError>)
        requires
            old(self).wf(),
        ensures
            final(self).wf(),
            final(self).tokens == old(self).tokens,
            final(self).start == old(self).start,
            old(self).current <= final(self).current,
            ({
                let step = spec_equality(old(self).tokens@, old(self).current as int);
                &&& final(self).current as int == step.next
                &&& (match (r, step.res) {
                    (Ok(e), Ok(se)) => e == se,
                    (Err(e), Err(se)) => e@ == se,
                    _ => false,
                })
            }),
        decreases self.tokens@.len() - self.current, 5int,
    {
        let ghost ts: Seq<Token> = self.tokens@;
        let ghost i0: int = self.current as int;
        let mut kinds: Vec<TokenType> = Vec::new();
        kinds.push(TokenType::BangEqual);
        kinds.push(TokenType::EqualEqual);
        proof {
            assert(kinds@[0] == TokenType::BangEqual);
            assert(kinds@[1] == TokenType::EqualEqual);
        }
        let mut expr: Expr = match self.comparison() {
            Ok(e) => e,
            Err(e) => {
                return Err(e);
            },
        };
        loop
            invariant
                self.wf(),
                self.tokens == old(self).tokens,
                self.tokens@ == ts,
                self.start == old(self).start,
                old(self).tokens@ == ts,
                old(self).current as int == i0,
                old(self).wf(),
                i0 <= self.current as int,
                kinds@.len() == 2,
                kinds@[0] == TokenType::BangEqual,
                kinds@[1] == TokenType::EqualEqual,
                spec_binary_level(ts, i0, 3) == spec_binary_tail(
                    ts,
                    self.current as int,
                    3,
                    expr,
                ),
            decreases ts.len() - self.current,
        {
            if !self.search(&kinds) {
                return Ok(expr);
            }
            let operator = self.previous();
            let op = binary_op_from_tok(&operator);
            let right: Expr = match self.comparison() {
                Ok(e) => e,
                Err(e) => {
                    return Err(e);
                },
            };
            expr = Expr::Binary(Box::new(expr), op, Box::new(right));
        }
    }

    /// The comparison rule: a term, then a left fold of `>` `>=` `<` `<=`
    /// operators over further terms.
    fn comparison(&mut self) -> (r: Result<Expr, ParserError>)
        requires
            old(self).wf(),
        ensures
            final(self).wf(),
            final(self).tokens == old(self).tokens,
            final(self).start == old(self).start,
            old(self).current <= final(self).current,
            ({
                let step = spec_comparison(old(self).tokens@, old(self).current as int);
                &&& final(self).current as int == step.next
                &&& (match (r, step.res) {
                    (Ok(e), Ok(se)) => e == se,
                    (Err(e), Err(se)) => e@ == se,
                    _ => false,
                })
            }),
        decreases self.tokens@.len() - self.current, 4int,
    {
        let ghost ts: Seq<Token> = self.tokens@;
        let ghost i0: int = self.current as int;
        let mut kinds: Vec<TokenType> = Vec::new();
        kinds.push(TokenType::Greater);
        kinds.push(TokenType::GreaterEqual);
        kinds.push(TokenType::Less);
        kinds.push(TokenType::LessEqual);
        proof {
            assert(kinds@[0] == TokenType::Greater);
            assert(kinds@[1] == TokenType::GreaterEqual);
            assert(kinds@[2] == TokenType::Less);
            assert(kinds@[3] == TokenType::LessEqual);
        }
        let mut expr: Expr = match self.term() {
            Ok(e) => e,
            Err(e) => {
                return Err(e);
            },
        };
        loop
            invariant
                self.wf(),
                self.tokens == old(self).tokens,
                self.tokens@ == ts,
                self.start == old(self).start,
                old(self).tokens@ == ts,
                old(self).current as int == i0,
                old(self).wf(),
                i0 <= self.current as int,
                kinds@.len() == 4,
                kinds@[0] == TokenType::Greater,
                kinds@[1] == TokenType::GreaterEqual,
                kinds@[2] == TokenType::Less,
                kinds@[3] == TokenType::LessEqual,
                spec_binary_level(ts, i0, 2) == spec_binary_tail(
                    ts,
                    self.current as int,
                    2,
                    expr,
                ),
            decreases ts.len() - self.current,
        {
            if !self.search(&kinds) {
                return Ok(expr);
            }
            let operator = self.previous();
            let op = binary_op_from_tok(&operator);
            let right: Expr = match self.term() {
                Ok(e) => e,
                Err(e) => {
                    return Err(e);
                },
            };
            expr = Expr::Binary(Box::new(expr), op, Box::new(right));
        }
    }

    /// The term rule: a factor, then a left fold of `-` and `+` operators
    /// over further factors.
    fn term(&mut self) -> (r: Result<Expr, ParserError>)
        requires
            old(self).wf(),
        ensures
            final(self).wf(),
            final(self).tokens == old(self).tokens,
            final(self).start == old(self).start,
            old(self).current <= final(self).current,
            ({
                let step = spec_term(old(self).tokens@, old(self).current as int);
                &&& final(self).current as int == step.next
                &&& (match (r, step.res) {
                    (Ok(e), Ok(se)) => e == se,
                    (Err(e), Err(se)) => e@ == se,
                    _ => false,
                })
            }),
        decreases self.tokens@.len() - self.current, 3int,
    {
        let ghost ts: Seq<Token> = self.tokens@;
        let ghost i0: int = self.current as int;
        let mut kinds: Vec<TokenType> = Vec::new();
        kinds.push(TokenType::Minus);
        kinds.push(TokenType::Plus);
        proof {
            assert(kinds@[0] == TokenType::Minus);
            assert(kinds@[1] == TokenType::Plus);
        }
        let mut expr: Expr = match self.factor() {
            Ok(e) => e,
            Err(e) => {
                return Err(e);
            },
        };
        loop
            invariant
                self.wf(),
                self.tokens == old(self).tokens,
                self.tokens@ == ts,
                self.start == old(self).start,
                old(self).tokens@ == ts,
                old(self).current as int == i0,
                old(self).wf(),
                i0 <= self.current as int,
                kinds@.len() == 2,
                kinds@[0] == TokenType::Minus,
                kinds@[1] == TokenType::Plus,
                spec_binary_level(ts, i0, 1) == spec_binary_tail(
                    ts,
                    self.current as int,
                    1,
                    expr,
                ),
            decreases ts.len() - self.current,
        {
            if !self.search(&kinds) {
                return Ok(expr);
            }
            let operator = self.previous();
            let op = binary_op_from_tok(&operator);
            let right: Expr = match self.factor() {
                Ok(e) => e,
                Err(e) => {
                    return Err(e);
                },
            };
            expr = Expr::Binary(Box::new(expr), op, Box::new(right));
        }
    }

    /// The factor rule: a unary, then a left fold of `/` and `*` operators
    /// over further unaries.
    fn factor(&mut self) -> (r: Result<Expr, ParserError>)
        requires
            old(self).wf(),
        ensures
            final(self).wf(),
            final(self).tokens == old(self).tokens,
            final(self).start == old(self).start,
            old(self).current <= final(self).current,
            ({
                let step = spec_factor(old(self).tokens@, old(self).current as int);
                &&& final(self).current as int == step.next
                &&& (match (r, step.res) {
                    (Ok(e), Ok(se)) => e == se,
                    (Err(e), Err(se)) => e@ == se,
                    _ => false,
                })
            }),
        decreases self.tokens@.len() - self.current, 2int,
    {
        let ghost ts: Seq<Token> = self.tokens@;
        let ghost i0: int = self.current as int;
        let mut kinds: Vec<TokenType> = Vec::new();
        kinds.push(TokenType::Slash);
        kinds.push(TokenType::Star);
        proof {
            assert(kinds@[0] == TokenType::Slash);
            assert(kinds@[1] == TokenType::Star);
        }
        let mut expr: Expr = match self.unary() {
            Ok(e) => e,
            Err(e) => {
                return Err(e);
            },
        };
        loop
            invariant
                self.wf(),
                self.tokens == old(self).tokens,
                self.tokens@ == ts,
                self.start == old(self).start,
                old(self).tokens@ == ts,
                old(self).current as int == i0,
                old(self).wf(),
                i0 <= self.current as int,
                kinds@.len() == 2,
                kinds@[0] == TokenType::Slash,
                kinds@[1] == TokenType::Star,
                spec_binary_level(ts, i0, 0) == spec_binary_tail(
                    ts,
                    self.current as int,
                    0,
                    expr,
                ),
            decreases ts.len() - self.current,
        {
            if !self.search(&kinds) {
                return Ok(expr);
            }
            let operator = self.previous();
            let op = binary_op_from_tok(&operator);
            let right: Expr = match self.unary() {
                Ok(e) => e,
                Err(e) => {
                    return Err(e);
                },
            };
            expr = Expr::Binary(Box::new(expr), op, Box::new(right));
        }
    }

    /// The unary rule: `!` or `-` applied to a unary expression by direct
    /// recursion, else the primary rule.
    fn unary(&mut self) -> (r: Result<Expr, ParserError>)
        requires
            old(self).wf(),
        ensures
            final(self).wf(),
            final(self).tokens == old(self).tokens,
            final(self).start == old(self).start,
            old(self).current <= final(self).current,
            ({
                let step = spec_unary(old(self).tokens@, old(self).current as int);
                &&& final(self).current as int == step.next
                &&& (match (r, step.res) {
                    (Ok(e), Ok(se)) => e == se,
                    (Err(e), Err(se)) => e@ == se,
                    _ => false,
                })
            }),
        decreases self.tokens@.len() - self.current, 1int,
    {
        let mut kinds: Vec<TokenType> = Vec::new();
        kinds.push(TokenType::Bang);
        kinds.push(TokenType::Minus);
        proof {
            assert(kinds@[0] == TokenType::Bang);
            assert(kinds@[1] == TokenType::Minus);
        }
        if self.search(&kinds) {
            let operator = self.previous();
            let op = unary_op_from_tok(&operator);
            match self.unary() {
                Ok(right) => {
                    return Ok(Expr::Unary(op, Box::new(right)));
                },
                Err(e) => {
                    return Err(e);
                },
            }
        }
        self.primary()
    }

    /// The primary rule: a literal leaf, or a parenthesized expression with
    /// its required closing `)`, else an expected-expression error.
    fn primary(&mut self) -> (r: Result<Expr, ParserError>)
        requires
            old(self).wf(),
        ensures
            final(self).wf(),
            final(self).tokens == old(self).tokens,
            final(self).start == old(self).start,
            old(self).current <= final(self).current,
            ({
                let step = spec_primary(old(self).tokens@, old(self).current as int);
                &&& final(self).current as int == step.next
                &&& (match (r, step.res) {
                    (Ok(e), Ok(se)) => e == se,
                    (Err(e), Err(se)) => e@ == se,
                    _ => false,
                })
            }),
        decreases self.tokens@.len() - self.current, 0int,
    {
        let mut k_false: Vec<TokenType> = Vec::new();
        k_false.push(TokenType::False);
        proof {
            assert(k_false@[0] == TokenType::False);
        }
        if self.search(&k_false) {
            return Ok(Expr::Literal(Literal::False));
        }
        let mut k_true: Vec<TokenType> = Vec::new();
        k_true.push(TokenType::True);
        proof {
            assert(k_true@[0] == TokenType::True);
        }
        if self.search(&k_true) {
            return Ok(Expr::Literal(Literal::True));
        }
        let mut k_nil: Vec<TokenType> = Vec::new();
        k_nil.push(TokenType::Nil);
        proof {
            assert(k_nil@[0] == TokenType::Nil);
        }
        if self.search(&k_nil) {
            return Ok(Expr::Literal(Literal::Nil));
        }
        let mut k_lit: Vec<TokenType> = Vec::new();
        k_lit.push(TokenType::Number);
        k_lit.push(TokenType::String);
        proof {
            assert(k_lit@[0] == TokenType::Number);
            assert(k_lit@[1] == TokenType::String);
        }
        if self.search(&k_lit) {
            let prev = self.previous();
            return Ok(Expr::Literal(prev.literal.unwrap()));
        }
        let mut k_lparen: Vec<TokenType> = Vec::new();
        k_lparen.push(TokenType::LeftParen);
        proof {
            assert(k_lparen@[0] == TokenType::LeftParen);
        }
        if self.search(&k_lparen) {
            let inner: Expr = match self.expression() {
                Ok(e) => e,
                Err(e) => {
                    return Err(e);
                },
            };
            match self.consume(TokenType::RightParen, String::from_str("Expect ')' after expression.")) {
                Ok(_closing) => {},
                Err(e) => {
                    return Err(e);
                },
            }
            return Ok(Expr::Grouping(Box::new(inner)));
        }
        Err(self.error(self.peek(), ParseErrorKind::ExpectedExpression, String::from_str("Expected expression.")))
    }

    /// Error recovery: discards tokens until just after a `;` or just before
    /// a token that starts a statement-level construct, always advancing on
    /// every non-boundary token.
    pub fn synchronize(&mut self)
        requires
            old(self).wf(),
        ensures
            final(self).wf(),
            final(self).tokens == old(self).tokens,
            final(self).start == old(self).start,
            ({
                let ts = old(self).tokens@;
                let j = if ts[old(self).current as int].token_type != TokenType::Eof {
                    old(self).current + 1
                } else {
                    old(self).current as int
                };
                final(self).current as int == spec_synchronize(ts, j)
            }),
    {
        let ghost ts: Seq<Token> = self.tokens@;
        self.advance();
        let ghost j0: int = self.current as int;
        while !self.is_at_end()
            invariant
                self.wf(),
                self.tokens == old(self).tokens,
                self.tokens@ == ts,
                self.start == old(self).start,
                old(self).tokens@ == ts,
                j0 == (if ts[old(self).current as int].token_type != TokenType::Eof {
                    old(self).current + 1 as int
                } else {
                    old(self).current as int
                }),
                j0 <= self.current as int,
                1 <= self.current || self.tokens@[self.current as int].token_type
                    == TokenType::Eof,
                spec_synchronize(ts, j0) == spec_synchronize(ts, self.current as int),
            decreases ts.len() - self.current,
        {
            let prev = self.previous();
            if prev.token_type == TokenType::Semicolon {
                return;
            }
            let ahead = self.peek().token_type;
            match ahead {
                TokenType::Class => {
                    return;
                },
                TokenType::Fun => {
                    return;
                },
                TokenType::Var => {
                    return;
                },
                TokenType::For => {
                    return;
                },
                TokenType::If => {
                    return;
                },
                TokenType::While => {
                    return;
                },
                TokenType::Print => {
                    return;
                },
                TokenType::Return => {
                    return;
                },
                _ => {
                    self.advance();
                },
            }
        }
    }

    /// Consumes a token of the given kind, or reports an expected-token
    /// error at the offending token without consuming it.
    fn consume(&mut self, tok: TokenType, err: String) -> (r: Result<Token, ParserError>)
        requires
            old(self).wf(),
        ensures
            final(self).wf(),
            final(self).tokens == old(self).tokens,
            final(self).start == old(self).start,
            ({
                let t0 = old(self).tokens@[old(self).current as int];
                if t0.token_type == tok && tok != TokenType::Eof {
                    &&& (r matches Ok(t) && t == t0)
                    &&& final(self).current == old(self).current + 1
                } else {
                    &&& (r matches Err(e) && e@ == spec_error_at(
                        t0,
                        ParseErrorKind::ExpectedToken(tok),
                        err@,
                    ))
                    &&& final(self).current == old(self).current
                }
            }),
    {
        if self.check(tok) {
            return Ok(self.advance());
        }
        Err(self.error(self.peek(), ParseErrorKind::ExpectedToken(tok), err))
    }
}

/// The binary operator instance a token was parsed as.
fn binary_op_from_tok(operator: &Token) -> (r: BinaryOperator)
    ensures
        r == spec_binary_op(*operator),
{
    let kind = match operator.token_type {
        TokenType::EqualEqual => BinaryOperatorEnum::EqualEqual,
        TokenType::BangEqual => BinaryOperatorEnum::NotEqual,
        TokenType::Less => BinaryOperatorEnum::Less,
        TokenType::LessEqual => BinaryOperatorEnum::LessEqual,
        TokenType::Greater => BinaryOperatorEnum::Greater,
        TokenType::GreaterEqual => BinaryOperatorEnum::GreaterEqual,
        TokenType::Plus => BinaryOperatorEnum::Plus,
        TokenType::Minus => BinaryOperatorEnum::Minus,
        TokenType::Star => BinaryOperatorEnum::Star,
        TokenType::Slash => BinaryOperatorEnum::Slash,
        _ => BinaryOperatorEnum::EqualEqual,
    };
    BinaryOperator { token_type: kind, lexeme: operator.lexeme.clone(), line: operator.line }
}

/// The unary operator instance a token was parsed as.
fn unary_op_from_tok(operator: &Token) -> (r: UnaryOperator)
    ensures
        r == spec_unary_op(*operator),
{
    let kind = match operator.token_type {
        TokenType::Bang => UnaryOperatorEnum::Bang,
        _ => UnaryOperatorEnum::Minus,
    };
    UnaryOperator { token_type: kind, lexeme: operator.lexeme.clone(), line: operator.line }
}

} // verus!
